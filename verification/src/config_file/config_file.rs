use vstd::prelude::*;
use crate::keyer_io::keyer_io::{KeyerType, MAX_KEYER_SPEED, MIN_KEYER_SPEED};
use crate::util::text::{parse_usize, usize_text_value};

verus! {

/// The settings kept in the configuration file, as mathematical values.
pub struct ConfigurationView {
    pub keyer_type: KeyerType,
    pub port: Seq<char>,
    pub wpm: usize,
    pub sidetone_frequency: u16,
    pub audio_out_device: Seq<char>,
    pub rig_out_device: Seq<char>,
    pub rig_in_device: Seq<char>,
    pub transmit_offset_frequency: u16,
}

/// The default transmit offset frequency, in Hz.
pub const DEFAULT_TRANSMIT_OFFSET_FREQUENCY: u16 = 1500;

/// The default transmit offset frequency, for a configuration file that has none.
pub fn default_transmit_offset_frequency() -> (freq: u16)
    ensures
        freq == DEFAULT_TRANSMIT_OFFSET_FREQUENCY,
{
    DEFAULT_TRANSMIT_OFFSET_FREQUENCY
}

/// The settings of a new configuration file: no keyer, 20 WPM, a 600 Hz sidetone, no devices,
/// and the default transmit offset.
pub open spec fn default_configuration() -> ConfigurationView {
    ConfigurationView {
        keyer_type: KeyerType::Null,
        port: seq![],
        wpm: 20,
        sidetone_frequency: 600,
        audio_out_device: seq![],
        rig_out_device: seq![],
        rig_in_device: seq![],
        transmit_offset_frequency: DEFAULT_TRANSMIT_OFFSET_FREQUENCY,
    }
}

/// The settings kept in the configuration file (the transmit amplitude is kept beside them).
#[derive(Debug, Clone)]
pub struct Configuration {
    keyer_type: KeyerType,
    port: String,
    wpm: usize,
    sidetone_frequency: u16,
    audio_out_device: String,
    rig_out_device: String,
    rig_in_device: String,
    transmit_offset_frequency: u16,
}

impl View for Configuration {
    type V = ConfigurationView;

    closed spec fn view(&self) -> ConfigurationView {
        ConfigurationView {
            keyer_type: self.keyer_type,
            port: self.port@,
            wpm: self.wpm,
            sidetone_frequency: self.sidetone_frequency,
            audio_out_device: self.audio_out_device@,
            rig_out_device: self.rig_out_device@,
            rig_in_device: self.rig_in_device@,
            transmit_offset_frequency: self.transmit_offset_frequency,
        }
    }
}

impl Configuration {
    /// The settings of a new configuration file.
    pub fn new() -> (configuration: Self)
        ensures
            configuration@ == default_configuration(),
    {
        Configuration {
            keyer_type: KeyerType::Null,
            port: String::new(),
            wpm: 20,
            sidetone_frequency: 600,
            audio_out_device: String::new(),
            rig_out_device: String::new(),
            rig_in_device: String::new(),
            transmit_offset_frequency: DEFAULT_TRANSMIT_OFFSET_FREQUENCY,
        }
    }

    /// Settings with the given values.
    pub fn from_settings(
        keyer_type: KeyerType,
        port: String,
        wpm: usize,
        sidetone_frequency: u16,
        audio_out_device: String,
        rig_out_device: String,
        rig_in_device: String,
        transmit_offset_frequency: u16,
    ) -> (configuration: Self)
        ensures
            configuration@ == (ConfigurationView {
                keyer_type,
                port: port@,
                wpm,
                sidetone_frequency,
                audio_out_device: audio_out_device@,
                rig_out_device: rig_out_device@,
                rig_in_device: rig_in_device@,
                transmit_offset_frequency,
            }),
    {
        Configuration {
            keyer_type,
            port,
            wpm,
            sidetone_frequency,
            audio_out_device,
            rig_out_device,
            rig_in_device,
            transmit_offset_frequency,
        }
    }

    /// Sets the kind of keyer.
    pub fn set_keyer_type(&mut self, new_keyer_type: KeyerType)
        ensures
            final(self)@ == (ConfigurationView { keyer_type: new_keyer_type, ..old(self)@ }),
    {
        self.keyer_type = new_keyer_type;
    }

    /// The kind of keyer.
    pub fn get_keyer_type(&self) -> (keyer_type: KeyerType)
        ensures
            keyer_type == self@.keyer_type,
    {
        self.keyer_type
    }

    /// Sets the keyer's serial port.
    pub fn set_port(&mut self, new_port: String)
        ensures
            final(self)@ == (ConfigurationView { port: new_port@, ..old(self)@ }),
    {
        self.port = new_port;
    }

    /// The keyer's serial port.
    pub fn get_port(&self) -> (port: String)
        ensures
            port@ == self@.port,
    {
        self.port.clone()
    }

    /// Sets the keying speed, in WPM.
    pub fn set_wpm(&mut self, new_wpm: usize)
        ensures
            final(self)@ == (ConfigurationView { wpm: new_wpm, ..old(self)@ }),
    {
        self.wpm = new_wpm;
    }

    /// The keying speed, in WPM.
    pub fn get_wpm(&self) -> (wpm: usize)
        ensures
            wpm == self@.wpm,
    {
        self.wpm
    }

    /// Sets the sidetone frequency, in Hz.
    pub fn set_sidetone_frequency(&mut self, new_freq: u16)
        ensures
            final(self)@ == (ConfigurationView { sidetone_frequency: new_freq, ..old(self)@ }),
    {
        self.sidetone_frequency = new_freq;
    }

    /// The sidetone frequency, in Hz.
    pub fn get_sidetone_frequency(&self) -> (freq: u16)
        ensures
            freq == self@.sidetone_frequency,
    {
        self.sidetone_frequency
    }

    /// Sets the audio output device.
    pub fn set_audio_out_device(&mut self, new_device: String)
        ensures
            final(self)@ == (ConfigurationView { audio_out_device: new_device@, ..old(self)@ }),
    {
        self.audio_out_device = new_device;
    }

    /// The audio output device.
    pub fn get_audio_out_device(&self) -> (device: String)
        ensures
            device@ == self@.audio_out_device,
    {
        self.audio_out_device.clone()
    }

    /// Sets the rig's audio output device.
    pub fn set_rig_out_device(&mut self, new_device: String)
        ensures
            final(self)@ == (ConfigurationView { rig_out_device: new_device@, ..old(self)@ }),
    {
        self.rig_out_device = new_device;
    }

    /// The rig's audio output device.
    pub fn get_rig_out_device(&self) -> (device: String)
        ensures
            device@ == self@.rig_out_device,
    {
        self.rig_out_device.clone()
    }

    /// Sets the rig's audio input device.
    pub fn set_rig_in_device(&mut self, new_device: String)
        ensures
            final(self)@ == (ConfigurationView { rig_in_device: new_device@, ..old(self)@ }),
    {
        self.rig_in_device = new_device;
    }

    /// The rig's audio input device.
    pub fn get_rig_in_device(&self) -> (device: String)
        ensures
            device@ == self@.rig_in_device,
    {
        self.rig_in_device.clone()
    }

    /// Sets the transmit offset frequency, in Hz.
    pub fn set_transmit_offset_frequency(&mut self, new_freq: u16)
        ensures
            final(self)@ == (ConfigurationView { transmit_offset_frequency: new_freq, ..old(self)@ }),
    {
        self.transmit_offset_frequency = new_freq;
    }

    /// The transmit offset frequency, in Hz.
    pub fn get_transmit_offset_frequency(&self) -> (freq: u16)
        ensures
            freq == self@.transmit_offset_frequency,
    {
        self.transmit_offset_frequency
    }
}

/// Why a keyer speed given as text was refused.
#[derive(Debug, PartialEq, Eq, Structural, Copy, Clone)]
pub enum KeyerSpeedSettingError {
    /// The text is not an unsigned integer.
    NotAnInteger,
    /// The speed is outside the keyer's range.
    OutOfRange(usize),
}

/// Reads a keyer speed, in WPM, given as text: an unsigned integer from 5 to 60.
pub fn keyer_speed_setting(wpm_text: &str) -> (wpm: Result<usize, KeyerSpeedSettingError>)
    ensures
        match usize_text_value(wpm_text@) {
            None => wpm == Err::<usize, KeyerSpeedSettingError>(
                KeyerSpeedSettingError::NotAnInteger,
            ),
            Some(v) => if MIN_KEYER_SPEED <= v <= MAX_KEYER_SPEED {
                wpm == Ok::<usize, KeyerSpeedSettingError>(v)
            } else {
                wpm == Err::<usize, KeyerSpeedSettingError>(KeyerSpeedSettingError::OutOfRange(v))
            },
        },
{
    match parse_usize(wpm_text) {
        None => Err(KeyerSpeedSettingError::NotAnInteger),
        Some(v) => {
            if v >= MIN_KEYER_SPEED as usize && v <= MAX_KEYER_SPEED as usize {
                Ok(v)
            } else {
                Err(KeyerSpeedSettingError::OutOfRange(v))
            }
        },
    }
}

} // verus!
