use digimorse::keyer_io::keyer_io::{KeyingEvent, KeyingTimedEvent};
use digimorse::audio::tone_generator::{ramping_for_keying_event, AmplitudeRamping, KeyingEventToneChannel};
use digimorse::util::text::{parse_u32, parse_usize, same_text, usize_to_text};

#[test]
fn numbers_are_read_as_std_reads_them() {
    for text in ["0", "7", "+7", "0042", "18446744073709551615", "", "+", "-1", " 1", "1 ", "1a", "18446744073709551616", "٣"] {
        assert_eq!(parse_usize(text), text.parse::<usize>().ok(), "reading {:?}", text);
    }
}

#[test]
fn numbers_are_written_in_decimal_and_read_back() {
    for n in [0usize, 9, 10, 99, 100, 12345, usize::MAX] {
        let text = usize_to_text(n);
        assert_eq!(text, n.to_string());
        assert_eq!(parse_usize(&text), Some(n));
    }
}

#[test]
fn keying_events_as_text() {
    assert_eq!(KeyingEvent::Start().to_string(), "START");
    assert_eq!(KeyingEvent::End().to_string(), "END");
    assert_eq!(KeyingEvent::Timed(KeyingTimedEvent { up: true, duration: 20 }).to_string(), "TIMED ^ 20");
    assert_eq!(KeyingTimedEvent { up: false, duration: 720 }.to_string(), "TIMED v 720");
}

#[test]
fn u32_numbers_and_text_comparison() {
    assert_eq!(parse_u32("4294967295"), Some(u32::MAX));
    assert_eq!(parse_u32("4294967296"), None);
    assert_eq!(parse_u32("12"), Some(12));
    assert!(same_text("USB AUDIO  CODEC", "USB AUDIO  CODEC"));
    assert!(!same_text("USB AUDIO CODEC", "USB AUDIO  CODEC"));
    assert!(!same_text("", " "));
}

#[test]
fn tone_channel_events_and_ramping_as_text() {
    let item = KeyingEventToneChannel { keying_event: KeyingEvent::Start(), tone_channel: 3 };
    assert_eq!(item.to_string(), "START: #3");
    assert_eq!(AmplitudeRamping::RampingUp.to_string(), "^");
    assert_eq!(AmplitudeRamping::RampingDown.to_string(), "v");
    assert_eq!(AmplitudeRamping::Stable.to_string(), "-");
    assert_eq!(ramping_for_keying_event(KeyingEvent::Start()), AmplitudeRamping::RampingUp);
    assert_eq!(ramping_for_keying_event(KeyingEvent::End()), AmplitudeRamping::RampingDown);
    assert_eq!(
        ramping_for_keying_event(KeyingEvent::Timed(KeyingTimedEvent { up: true, duration: 60 })),
        AmplitudeRamping::RampingDown
    );
}
