use digimorse::gui::gui::{entered_text, main_window_dimensions};
use digimorse::gui::gui::{message_action, GuiAction};
use digimorse::gui::message::{KeyingText, Message};

#[test]
fn keying_text_is_sent() {
    match message_action(Message::KeyingText(KeyingText { text: "CQ CQ".to_string() }), 20) {
        GuiAction::SendText(text) => assert_eq!(text, "CQ CQ"),
        other => panic!("unexpected {:?}", other),
    }
}

#[test]
fn speed_requests_move_the_speed_within_its_limits() {
    assert!(matches!(message_action(Message::IncreaseKeyingSpeedRequest, 20), GuiAction::SetKeyerSpeed(21)));
    assert!(matches!(message_action(Message::IncreaseKeyingSpeedRequest, 60), GuiAction::WarningBeep));
    assert!(matches!(message_action(Message::DecreaseKeyingSpeedRequest, 20), GuiAction::SetKeyerSpeed(19)));
    assert!(matches!(message_action(Message::DecreaseKeyingSpeedRequest, 5), GuiAction::WarningBeep));
}

#[test]
fn indicator_messages_set_indicators() {
    assert!(matches!(message_action(Message::SetRxIndicator(true), 20), GuiAction::SetRxIndicator(true)));
    assert!(matches!(message_action(Message::SetWaitIndicator(false), 20), GuiAction::SetWaitIndicator(false)));
    assert!(matches!(message_action(Message::SetTxIndicator(true), 20), GuiAction::SetTxIndicator(true)));
    assert!(matches!(message_action(Message::RedrawIndicatorsCanvas, 20), GuiAction::RedrawIndicators));
    assert!(matches!(message_action(Message::Beep, 20), GuiAction::Nothing));
    assert!(matches!(message_action(Message::SetKeyingSpeed(30), 20), GuiAction::Nothing));
}

#[test]
fn main_window_holds_the_waterfall_and_controls() {
    assert_eq!(main_window_dimensions(), (1270, 555));
}

#[test]
fn entered_text_is_trimmed() {
    assert_eq!(entered_text("  CQ DX \n"), Some("CQ DX".to_string()));
    assert_eq!(entered_text("\u{3000}x y\u{a0}"), Some("x y".to_string()));
    assert_eq!(entered_text("   "), None);
    assert_eq!(entered_text(""), None);
}
