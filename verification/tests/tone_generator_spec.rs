use digimorse::audio::tone_generator::{
    AmplitudeRamping, KeyingEventToneChannel, ToneChannelSettings, ToneGenerator,
};
use digimorse::keyer_io::keyer_io::{KeyingEvent, KeyingTimedEvent};

fn tone_generator() -> ToneGenerator {
    ToneGenerator::new(600)
}

#[test]
pub fn initial_conditions() {
    let tone_generator = tone_generator();
    assert_eq!(tone_generator.test_get_enabled_states(), vec![true]);
}

#[test]
pub fn allocate_allocates() {
    let mut tone_generator = tone_generator();
    assert_eq!(tone_generator.allocate_channel(800), 1);
    assert_eq!(tone_generator.test_get_enabled_states(), vec![true, true]);
}

#[test]
pub fn deallocate_zero_does_not_disable() {
    let mut tone_generator = tone_generator();
    tone_generator.deallocate_channel(0); // does not
    assert_eq!(tone_generator.test_get_enabled_states(), vec![true]);
}

#[test]
pub fn deallocate_nonzero_disables() {
    let mut tone_generator = tone_generator();
    tone_generator.allocate_channel(800);
    tone_generator.allocate_channel(1000);
    tone_generator.deallocate_channel(1);
    assert_eq!(tone_generator.test_get_enabled_states(), vec![true, false, true]);
}

#[test]
pub fn deallocate_end_truncates() {
    let mut tone_generator = tone_generator();
    tone_generator.allocate_channel(1000); // if we disable the last, the array should be truncated
    assert_eq!(tone_generator.test_get_enabled_states(), vec![true, true]);
    tone_generator.deallocate_channel(1);
    assert_eq!(tone_generator.test_get_enabled_states(), vec![true]);
}

#[test]
pub fn deallocate_past_end() {
    let mut tone_generator = tone_generator();
    tone_generator.allocate_channel(1000);
    assert_eq!(tone_generator.test_get_enabled_states(), vec![true, true]);
    tone_generator.deallocate_channel(2); // does nothing
    assert_eq!(tone_generator.test_get_enabled_states(), vec![true, true]);
}

#[test]
pub fn deallocate_end_truncates_all_disabled() {
    let mut tone_generator = tone_generator();
    tone_generator.allocate_channel(800);
    tone_generator.allocate_channel(900);
    tone_generator.allocate_channel(950);
    tone_generator.allocate_channel(1000);
    assert_eq!(tone_generator.test_get_enabled_states(), vec![true, true, true, true, true]);
    tone_generator.deallocate_channel(1);
    assert_eq!(tone_generator.test_get_enabled_states(), vec![true, false, true, true, true]);
    tone_generator.deallocate_channel(2);
    assert_eq!(tone_generator.test_get_enabled_states(), vec![true, false, false, true, true]);
    tone_generator.deallocate_channel(3);
    assert_eq!(tone_generator.test_get_enabled_states(), vec![true, false, false, false, true]);
    tone_generator.deallocate_channel(4);
    assert_eq!(tone_generator.test_get_enabled_states(), vec![true]);
}

#[test]
pub fn allocate_allocates_first_disabled() {
    let mut tone_generator = tone_generator();
    tone_generator.allocate_channel(800);
    tone_generator.allocate_channel(900);
    assert_eq!(tone_generator.test_get_enabled_states(), vec![true, true, true]);
    tone_generator.deallocate_channel(1);
    assert_eq!(tone_generator.test_get_enabled_states(), vec![true, false, true]);
    assert_eq!(tone_generator.allocate_channel(1000), 1);
    assert_eq!(tone_generator.test_get_enabled_states(), vec![true, true, true]);
}

#[test]
fn deallocating_what_was_just_allocated_restores_the_channels() {
    let mut tone_generator = tone_generator();
    tone_generator.allocate_channel(800);
    tone_generator.allocate_channel(900);
    tone_generator.deallocate_channel(1);
    let before = tone_generator.test_get_enabled_states();
    let channel = tone_generator.allocate_channel(700);
    tone_generator.deallocate_channel(channel);
    assert_eq!(tone_generator.test_get_enabled_states(), before);
}

fn settings(audio_frequency: u16, enabled: bool, ramping: AmplitudeRamping) -> ToneChannelSettings {
    ToneChannelSettings { audio_frequency, enabled, ramping }
}

#[test]
pub fn new_channels_are_stable() {
    let mut tone_generator = tone_generator();
    tone_generator.allocate_channel(800);
    assert_eq!(
        tone_generator.channel_settings(),
        vec![settings(600, true, AmplitudeRamping::Stable), settings(800, true, AmplitudeRamping::Stable)]
    );
}

#[test]
pub fn keying_events_set_the_ramping_of_their_channel() {
    let mut tone_generator = tone_generator();
    tone_generator.allocate_channel(800);
    let down = KeyingEvent::Timed(KeyingTimedEvent { up: false, duration: 20 });
    assert!(tone_generator.apply_keying_event(KeyingEventToneChannel { keying_event: down, tone_channel: 1 }));
    assert_eq!(
        tone_generator.channel_settings(),
        vec![settings(600, true, AmplitudeRamping::Stable), settings(800, true, AmplitudeRamping::RampingUp)]
    );
    let up = KeyingEvent::Timed(KeyingTimedEvent { up: true, duration: 60 });
    assert!(tone_generator.apply_keying_event(KeyingEventToneChannel { keying_event: up, tone_channel: 1 }));
    assert_eq!(tone_generator.channel_settings()[1].ramping, AmplitudeRamping::RampingDown);
    assert!(tone_generator.apply_keying_event(KeyingEventToneChannel { keying_event: KeyingEvent::Start(), tone_channel: 0 }));
    assert_eq!(tone_generator.channel_settings()[0].ramping, AmplitudeRamping::RampingUp);
    assert!(tone_generator.apply_keying_event(KeyingEventToneChannel { keying_event: KeyingEvent::End(), tone_channel: 0 }));
    assert_eq!(tone_generator.channel_settings()[0].ramping, AmplitudeRamping::RampingDown);
}

#[test]
pub fn keying_events_for_missing_channels_are_ignored() {
    let mut tone_generator = tone_generator();
    assert!(!tone_generator.apply_keying_event(KeyingEventToneChannel { keying_event: KeyingEvent::Start(), tone_channel: 1 }));
    assert_eq!(tone_generator.channel_settings(), vec![settings(600, true, AmplitudeRamping::Stable)]);
}

#[test]
pub fn finished_ramps_are_stable() {
    let mut tone_generator = tone_generator();
    tone_generator.apply_keying_event(KeyingEventToneChannel { keying_event: KeyingEvent::Start(), tone_channel: 0 });
    tone_generator.finish_ramping(0);
    tone_generator.finish_ramping(3);
    assert_eq!(tone_generator.channel_settings(), vec![settings(600, true, AmplitudeRamping::Stable)]);
}

#[test]
pub fn frequency_changes_keep_the_ramping() {
    let mut tone_generator = tone_generator();
    tone_generator.apply_keying_event(KeyingEventToneChannel { keying_event: KeyingEvent::Start(), tone_channel: 0 });
    tone_generator.set_audio_frequency(0, 700);
    assert_eq!(tone_generator.channel_settings(), vec![settings(700, true, AmplitudeRamping::RampingUp)]);
}
