use digimorse::keyer_io::arduino_keyer_io::{ArduinoKeyerProtocol, KeyerAction, KeyerState};
use digimorse::keyer_io::keyer_io::{KeyingEvent, KeyingTimedEvent};

const START: u8 = 0x53;
const END: u8 = 0x45;
const PL: u8 = 0x2b;
const MI: u8 = 0x2d;

fn keying_of(bytes: &[u8]) -> Vec<KeyingEvent> {
    let mut protocol = ArduinoKeyerProtocol::new();
    let mut events = vec![];
    for b in bytes {
        if let KeyerAction::SendKeying(event) = protocol.receive(*b) {
            events.push(event);
        }
    }
    events
}

fn timed(up: bool, duration: u16) -> KeyingEvent {
    KeyingEvent::Timed(KeyingTimedEvent { up, duration })
}

#[test]
fn receive_keying_of_paris() {
    // at 12 wpm, a dit is 100ms, a dah is 300ms, pause between elements 100ms, between
    // letters 300ms.
    let keyer_will_receive = vec![
        START, // start of keying
        PL, 0, 100, // P
        MI, 0, 100, PL, 1, 44, // 300
        MI, 0, 100, PL, 1, 44, MI, 0, 100, PL, 0, 100, MI, 1, 44, // pause between letters
        PL, 0, 100, // A
        MI, 0, 100, PL, 1, 44, MI, 1, 44, // pause between letters
        PL, 0, 100, // R
        MI, 0, 100, PL, 1, 44, MI, 0, 100, PL, 0, 100, MI, 1, 44, // pause between letters
        PL, 0, 100, // I
        MI, 0, 100, PL, 0, 100, MI, 1, 44, // pause between letters
        PL, 0, 100, // S
        MI, 0, 100, PL, 0, 100, MI, 0, 100, PL, 0, 100, END, // end of keying
    ];
    let events = keying_of(&keyer_will_receive);
    assert_eq!(events.len(), 29);
    assert_eq!(events[0], KeyingEvent::Start());
    assert_eq!(events[1], timed(false, 100));
    assert_eq!(events[2], timed(true, 100));
    assert_eq!(events[3], timed(false, 300));
    assert_eq!(events[4], timed(true, 100));
    assert_eq!(events[5], timed(false, 300));
    assert_eq!(events[6], timed(true, 100));
    assert_eq!(events[7], timed(false, 100));
    assert_eq!(events[8], timed(true, 300));
    assert_eq!(events[27], timed(false, 100));
    assert_eq!(events[28], KeyingEvent::End());
}

#[test]
fn ignore_comment() {
    let keyer_will_receive = vec![
        0x23, // #
        0x31, // 1
        0x32, // 2
        0x0A, // /n
        START, // start of keying
    ];
    let events = keying_of(&keyer_will_receive);
    assert_eq!(events, vec![KeyingEvent::Start()]);
}

#[test]
fn response_to_a_command_is_reported() {
    let mut protocol = ArduinoKeyerProtocol::new();
    protocol.command_sent();
    let mut responses = vec![];
    let mut pauses = 0;
    for b in "> v1.0.0\n\n_________".as_bytes() {
        match protocol.receive(*b) {
            KeyerAction::Respond(text) => responses.push(String::from_utf8(text).unwrap()),
            KeyerAction::Pause => pauses += 1,
            KeyerAction::Nothing => {}
            other => panic!("unexpected action {:?}", other),
        }
    }
    assert_eq!(responses, vec!["v1.0.0".to_string()]);
    assert_eq!(pauses, 9);
    assert_eq!(protocol.state(), KeyerState::Initial);
}

#[test]
fn unexpected_data_after_a_response_marker_is_reported() {
    let mut protocol = ArduinoKeyerProtocol::new();
    assert_eq!(protocol.receive(b'>'), KeyerAction::Nothing);
    assert_eq!(protocol.receive(b'x'), KeyerAction::UnexpectedResponseData(b'x'));
    assert_eq!(protocol.state(), KeyerState::ResponseGotGt);
}

#[test]
fn a_long_duration_uses_both_bytes() {
    assert_eq!(keying_of(&[PL, 0xff, 0xff]), vec![timed(false, 0xffff)]);
    assert_eq!(keying_of(&[MI, 0x02, 0xbc]), vec![timed(true, 700)]);
}
