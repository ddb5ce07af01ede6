use digimorse::audio::audio_devices;
use digimorse::audio::audio_devices::{audio_devices_ok, device_check, DeviceCheck};

#[test]
pub fn parse_dev_name() {
    let (maybe_idx, name) = audio_devices::parse_dev_name("speaker").unwrap();
    assert_eq!(maybe_idx, None);
    assert_eq!(name, "speaker");
}

#[test]
pub fn parse_index_and_dev_name() {
    let (maybe_idx, name) = audio_devices::parse_dev_name("3:microphone").unwrap();
    assert_eq!(maybe_idx, Some(3));
    assert_eq!(name, "microphone");
}

#[test]
pub fn parse_index_and_dev_name_with_spaces() {
    let (maybe_idx, name) = audio_devices::parse_dev_name("3 : microphone").unwrap();
    assert_eq!(maybe_idx, Some(3));
    assert_eq!(name, "microphone");
}

#[test]
pub fn parse_missing_index() {
    match audio_devices::parse_dev_name(":microphone") {
        Ok(_) => {
            panic!("Not meant to get an Ok for this")
        }
        Err(e) => {
            assert_eq!(e.to_string(), "Missing device index number at start of ':microphone'")
        }
    }
}

#[test]
fn leading_white_space_is_not_part_of_the_name() {
    let (maybe_idx, name) = audio_devices::parse_dev_name("  12:  Built-in Output").unwrap();
    assert_eq!(maybe_idx, None);
    assert_eq!(name, "12:  Built-in Output");
    let (maybe_idx, name) = audio_devices::parse_dev_name("12:  Built-in Output").unwrap();
    assert_eq!(maybe_idx, Some(12));
    assert_eq!(name, "Built-in Output");
}

#[test]
fn empty_and_colon_only_names_do_not_match() {
    assert_eq!(
        audio_devices::parse_dev_name("").unwrap_err(),
        "Device name does not match pattern [number:] name"
    );
    assert_eq!(
        audio_devices::parse_dev_name(":").unwrap_err(),
        "Device name does not match pattern [number:] name"
    );
}

#[test]
fn a_name_may_be_a_single_space_after_the_colon() {
    let (maybe_idx, name) = audio_devices::parse_dev_name("4: ").unwrap();
    assert_eq!(maybe_idx, Some(4));
    assert_eq!(name, " ");
}

#[test]
fn a_name_with_a_newline_does_not_match() {
    assert!(audio_devices::parse_dev_name("mic\nphone").is_err());
}

#[test]
fn devices_are_chosen_by_name_or_index() {
    assert!(audio_devices::named_device_usable("Built-in Output", "Built-in Output", 2, true));
    assert!(!audio_devices::named_device_usable("Built-in Output", "Built-in Output", 0, true));
    assert!(!audio_devices::named_device_usable("Built-in Output", "Built-in Output", 2, false));
    assert!(!audio_devices::named_device_usable("Built-in Output", "USB AUDIO  CODEC", 2, true));
    assert!(audio_devices::output_device_chosen("2", 2, "USB AUDIO  CODEC", 2, true));
    assert!(!audio_devices::output_device_chosen("2", 1, "2", 2, true));
    assert!(audio_devices::output_device_chosen("Built-in Output", 1, "Built-in Output", 2, true));
    assert!(audio_devices::rate_supported_in_some_direction(0, false, 2, true));
    assert!(!audio_devices::rate_supported_in_some_direction(2, false, 0, true));
}

#[test]
fn configured_devices_are_checked() {
    assert_eq!(device_check("", true), DeviceCheck::NotConfigured);
    assert_eq!(device_check("", false), DeviceCheck::NotConfigured);
    assert_eq!(device_check("USB AUDIO  CODEC", true), DeviceCheck::Present);
    assert_eq!(device_check("USB AUDIO  CODEC", false), DeviceCheck::Missing);
    let present = DeviceCheck::Present;
    assert!(audio_devices_ok(present, present, present));
    assert!(!audio_devices_ok(DeviceCheck::Missing, present, present));
    assert!(!audio_devices_ok(present, DeviceCheck::NotConfigured, present));
    assert!(!audio_devices_ok(present, present, DeviceCheck::Missing));
}

#[test]
fn digits_of_other_scripts_are_read_as_digits() {
    assert!(audio_devices::decimal_digit('7'));
    assert!(audio_devices::decimal_digit('\u{0663}'));
    assert!(audio_devices::decimal_digit('\u{1D7CE}'));
    assert!(!audio_devices::decimal_digit('x'));
    assert!(!audio_devices::decimal_digit('\u{00B2}'));
    // Without a colon after them, such digits are part of the name.
    let (maybe_idx, name) = audio_devices::parse_dev_name("\u{0663} speaker").unwrap();
    assert_eq!(maybe_idx, None);
    assert_eq!(name, "\u{0663} speaker");
}
