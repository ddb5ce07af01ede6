use digimorse::config_file::config_file::{default_transmit_offset_frequency, keyer_speed_setting, Configuration, KeyerSpeedSettingError};
use digimorse::keyer_io::keyer_io::KeyerType;

#[test]
fn default_settings() {
    let config = Configuration::new();
    assert_eq!(config.get_keyer_type(), KeyerType::Null);
    assert_eq!(config.get_port(), "");
    assert_eq!(config.get_wpm(), 20);
    assert_eq!(config.get_sidetone_frequency(), 600);
    assert_eq!(config.get_audio_out_device(), "");
    assert_eq!(config.get_rig_out_device(), "");
    assert_eq!(config.get_rig_in_device(), "");
    assert_eq!(config.get_transmit_offset_frequency(), 1500);
    assert_eq!(default_transmit_offset_frequency(), 1500);
}

#[test]
fn settings_can_be_changed() {
    let mut config = Configuration::new();
    config.set_keyer_type(KeyerType::Arduino);
    config.set_port("/dev/imaginary-usb-port".to_string());
    config.set_wpm(40);
    config.set_audio_out_device("/dev/audio-out".to_string());
    config.set_rig_out_device("/dev/rig-out".to_string());
    config.set_rig_in_device("/dev/rig-in".to_string());
    config.set_sidetone_frequency(700);
    config.set_transmit_offset_frequency(1200);

    assert_eq!(config.get_keyer_type(), KeyerType::Arduino);
    assert_eq!(config.get_port(), "/dev/imaginary-usb-port");
    assert_eq!(config.get_wpm(), 40);
    assert_eq!(config.get_audio_out_device(), "/dev/audio-out");
    assert_eq!(config.get_rig_out_device(), "/dev/rig-out");
    assert_eq!(config.get_rig_in_device(), "/dev/rig-in");
    assert_eq!(config.get_sidetone_frequency(), 700);
    assert_eq!(config.get_transmit_offset_frequency(), 1200);
}

#[test]
fn keyer_speed_settings_are_checked() {
    assert_eq!(keyer_speed_setting("20"), Ok(20));
    assert_eq!(keyer_speed_setting("5"), Ok(5));
    assert_eq!(keyer_speed_setting("60"), Ok(60));
    assert_eq!(keyer_speed_setting("+12"), Ok(12));
    assert_eq!(keyer_speed_setting("4"), Err(KeyerSpeedSettingError::OutOfRange(4)));
    assert_eq!(keyer_speed_setting("61"), Err(KeyerSpeedSettingError::OutOfRange(61)));
    assert_eq!(keyer_speed_setting("fast"), Err(KeyerSpeedSettingError::NotAnInteger));
    assert_eq!(keyer_speed_setting(""), Err(KeyerSpeedSettingError::NotAnInteger));
    assert_eq!(keyer_speed_setting(" 20"), Err(KeyerSpeedSettingError::NotAnInteger));
}
