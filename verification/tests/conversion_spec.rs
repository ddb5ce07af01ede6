use digimorse::conversion::conversion::{char_to_morse, text_to_keying};
use digimorse::keyer_io::keyer_io::{KeyingEvent, KeyingTimedEvent};

fn paris_keying_12wpm() -> Vec<KeyingEvent> {
    vec![
        KeyingEvent::Start(),
        KeyingEvent::Timed(KeyingTimedEvent { up: true, duration: 100 }),
        KeyingEvent::Timed(KeyingTimedEvent { up: false, duration: 100 }),
        KeyingEvent::Timed(KeyingTimedEvent { up: true, duration: 300 }),
        KeyingEvent::Timed(KeyingTimedEvent { up: false, duration: 100 }),
        KeyingEvent::Timed(KeyingTimedEvent { up: true, duration: 300 }),
        KeyingEvent::Timed(KeyingTimedEvent { up: false, duration: 100 }),
        KeyingEvent::Timed(KeyingTimedEvent { up: true, duration: 100 }),
        KeyingEvent::Timed(KeyingTimedEvent { up: false, duration: 300 }),
        KeyingEvent::Timed(KeyingTimedEvent { up: true, duration: 100 }),
        KeyingEvent::Timed(KeyingTimedEvent { up: false, duration: 100 }),
        KeyingEvent::Timed(KeyingTimedEvent { up: true, duration: 300 }),
        KeyingEvent::Timed(KeyingTimedEvent { up: false, duration: 300 }),
        KeyingEvent::Timed(KeyingTimedEvent { up: true, duration: 100 }),
        KeyingEvent::Timed(KeyingTimedEvent { up: false, duration: 100 }),
        KeyingEvent::Timed(KeyingTimedEvent { up: true, duration: 300 }),
        KeyingEvent::Timed(KeyingTimedEvent { up: false, duration: 100 }),
        KeyingEvent::Timed(KeyingTimedEvent { up: true, duration: 100 }),
        KeyingEvent::Timed(KeyingTimedEvent { up: false, duration: 300 }),
        KeyingEvent::Timed(KeyingTimedEvent { up: true, duration: 100 }),
        KeyingEvent::Timed(KeyingTimedEvent { up: false, duration: 100 }),
        KeyingEvent::Timed(KeyingTimedEvent { up: true, duration: 100 }),
        KeyingEvent::Timed(KeyingTimedEvent { up: false, duration: 300 }),
        KeyingEvent::Timed(KeyingTimedEvent { up: true, duration: 100 }),
        KeyingEvent::Timed(KeyingTimedEvent { up: false, duration: 100 }),
        KeyingEvent::Timed(KeyingTimedEvent { up: true, duration: 100 }),
        KeyingEvent::Timed(KeyingTimedEvent { up: false, duration: 100 }),
        KeyingEvent::Timed(KeyingTimedEvent { up: true, duration: 100 }),
        KeyingEvent::End(),
    ]
}

#[test]
pub fn test_text_to_keying_no_space() {
    let actual_keying = text_to_keying(12, "PARIS");
    assert_eq!(actual_keying, paris_keying_12wpm());
}

#[test]
pub fn test_text_to_keying_with_space() {
    let expected_keying = vec![
        KeyingEvent::Start(),
        KeyingEvent::Timed(KeyingTimedEvent { up: true, duration: 300 }),
        KeyingEvent::Timed(KeyingTimedEvent { up: false, duration: 100 }),
        KeyingEvent::Timed(KeyingTimedEvent { up: true, duration: 100 }),
        KeyingEvent::Timed(KeyingTimedEvent { up: false, duration: 100 }),
        KeyingEvent::Timed(KeyingTimedEvent { up: true, duration: 300 }),
        KeyingEvent::Timed(KeyingTimedEvent { up: false, duration: 100 }),
        KeyingEvent::Timed(KeyingTimedEvent { up: true, duration: 100 }),
        KeyingEvent::Timed(KeyingTimedEvent { up: false, duration: 700 }),
        KeyingEvent::Timed(KeyingTimedEvent { up: true, duration: 300 }),
        KeyingEvent::Timed(KeyingTimedEvent { up: false, duration: 100 }),
        KeyingEvent::Timed(KeyingTimedEvent { up: true, duration: 300 }),
        KeyingEvent::Timed(KeyingTimedEvent { up: false, duration: 100 }),
        KeyingEvent::Timed(KeyingTimedEvent { up: true, duration: 100 }),
        KeyingEvent::Timed(KeyingTimedEvent { up: false, duration: 100 }),
        KeyingEvent::Timed(KeyingTimedEvent { up: true, duration: 300 }),
        KeyingEvent::End(),
    ];

    let actual_keying = text_to_keying(12, "C Q");
    assert_eq!(actual_keying, expected_keying);
}

#[test]
fn morse_of_letters_in_either_case() {
    assert_eq!(char_to_morse('A'), ".-");
    assert_eq!(char_to_morse('a'), ".-");
    assert_eq!(char_to_morse('Q'), "--.-");
    assert_eq!(char_to_morse('0'), "-----");
    assert_eq!(char_to_morse('?'), "..--..");
}

#[test]
fn no_morse_for_unknown_characters() {
    assert_eq!(char_to_morse('~'), "");
}

#[test]
fn keying_at_twenty_wpm_uses_sixty_ms_dits() {
    let keying = text_to_keying(20, "E");
    assert_eq!(
        keying,
        vec![
            KeyingEvent::Start(),
            KeyingEvent::Timed(KeyingTimedEvent { up: true, duration: 60 }),
            KeyingEvent::End(),
        ]
    );
}

#[test]
fn keying_alternates_and_counts_elements_and_word_gaps() {
    let keying = text_to_keying(20, "CQ DX");
    let n = keying.len();
    assert_eq!(keying[0], KeyingEvent::Start());
    assert_eq!(keying[n - 1], KeyingEvent::End());
    let mut ups = 0;
    let mut word_gaps = 0;
    for i in 1..n - 1 {
        match keying[i] {
            KeyingEvent::Timed(e) => {
                assert_eq!(e.up, i % 2 == 1);
                assert!(e.duration == 60 || e.duration == 180 || e.duration == 420);
                if e.up {
                    ups += 1;
                }
                if e.duration == 420 {
                    word_gaps += 1;
                }
            }
            _ => panic!("untimed event inside the keying"),
        }
    }
    assert!(matches!(keying[n - 2], KeyingEvent::Timed(e) if e.up));
    assert_eq!(ups, 4 + 4 + 3 + 4);
    assert_eq!(word_gaps, 1);
}
