use vstd::prelude::*;
use std::sync::mpsc::Sender;
use crate::keyer_io::keyer_io::{Keyer, KeyerMode, KeyerPolarity, KeyerSpeed, KeyingEvent};

verus! {

#[verifier::external_type_specification]
#[verifier::external_body]
#[verifier::reject_recursive_types(T)]
pub struct ExSender<T>(Sender<T>);

/// A keyer with no hardware behind it: it holds its settings, and sends no keying.
pub struct NullKeyer {
    _keying_event_tx: Sender<KeyingEvent>,
    keyer_speed: KeyerSpeed,
    keyer_mode: KeyerMode,
    keyer_polarity: KeyerPolarity,
}

impl NullKeyer {
    /// The keyer's speed setting.
    pub closed spec fn speed(&self) -> KeyerSpeed {
        self.keyer_speed
    }

    /// The keyer's mode setting.
    pub closed spec fn mode(&self) -> KeyerMode {
        self.keyer_mode
    }

    /// The keyer's polarity setting.
    pub closed spec fn polarity(&self) -> KeyerPolarity {
        self.keyer_polarity
    }

    /// A null keyer at 12 WPM, straight, with normal polarity.
    pub fn new(keying_event_tx: Sender<KeyingEvent>) -> (keyer: Self)
        ensures
            keyer.speed() == 12,
            keyer.mode() == KeyerMode::Straight,
            keyer.polarity() == KeyerPolarity::Normal,
    {
        Self {
            _keying_event_tx: keying_event_tx,
            keyer_speed: 12,
            keyer_mode: KeyerMode::Straight,
            keyer_polarity: KeyerPolarity::Normal,
        }
    }
}

impl Keyer for NullKeyer {
    fn get_version(&mut self) -> (version: Result<String, String>)
        ensures
            version matches Ok(v) && v@ == "v1.0.0"@,
            *final(self) == *old(self),
    {
        let v = "v1.0.0";
        proof {
            reveal_strlit("v1.0.0");
        }
        Ok(v.to_owned())
    }

    fn get_speed(&mut self) -> (speed: Result<KeyerSpeed, String>)
        ensures
            speed == Ok::<KeyerSpeed, String>(old(self).speed()),
            *final(self) == *old(self),
    {
        Ok(self.keyer_speed)
    }

    fn set_speed(&mut self, wpm: KeyerSpeed) -> (result: Result<(), String>)
        ensures
            result is Ok,
            final(self).speed() == wpm,
            final(self).mode() == old(self).mode(),
            final(self).polarity() == old(self).polarity(),
    {
        self.keyer_speed = wpm;
        Ok(())
    }

    fn get_keyer_mode(&mut self) -> (mode: Result<KeyerMode, String>)
        ensures
            mode == Ok::<KeyerMode, String>(old(self).mode()),
            *final(self) == *old(self),
    {
        Ok(self.keyer_mode)
    }

    fn set_keyer_mode(&mut self, mode: KeyerMode) -> (result: Result<(), String>)
        ensures
            result is Ok,
            final(self).mode() == mode,
            final(self).speed() == old(self).speed(),
            final(self).polarity() == old(self).polarity(),
    {
        self.keyer_mode = mode;
        Ok(())
    }

    fn get_keyer_polarity(&mut self) -> (polarity: Result<KeyerPolarity, String>)
        ensures
            polarity == Ok::<KeyerPolarity, String>(old(self).polarity()),
            *final(self) == *old(self),
    {
        Ok(self.keyer_polarity)
    }

    fn set_keyer_polarity(&mut self, polarity: KeyerPolarity) -> (result: Result<(), String>)
        ensures
            result is Ok,
            final(self).polarity() == polarity,
            final(self).speed() == old(self).speed(),
            final(self).mode() == old(self).mode(),
    {
        self.keyer_polarity = polarity;
        Ok(())
    }
}

} // verus!
