use vstd::prelude::*;
use crate::gui::message::Message;
use crate::keyer_io::keyer_io::{KeyerSpeed, MAX_KEYER_SPEED, MIN_KEYER_SPEED};
use crate::util::text::{chars_of, is_white_space, white_space};

verus! {

/// What the GUI does about a message.
#[derive(Debug)]
pub enum GuiAction {
    /// Encode and send this text.
    SendText(String),
    /// Change the keyer speed to this, everywhere it is shown and kept.
    SetKeyerSpeed(KeyerSpeed),
    /// Sound a warning beep.
    WarningBeep,
    /// Redraw the indicators.
    RedrawIndicators,
    /// Set the receive indicator, and redraw the indicators.
    SetRxIndicator(bool),
    /// Set the wait indicator, and redraw the indicators.
    SetWaitIndicator(bool),
    /// Set the transmit indicator, and redraw the indicators.
    SetTxIndicator(bool),
    /// Nothing.
    Nothing,
}

/// Decides what the GUI does about a message, given the keyer speed now: a speed request moves
/// the speed by one within the keyer's limits, or beeps a warning at a limit.
pub fn message_action(message: Message, keyer_speed: KeyerSpeed) -> (action: GuiAction)
    ensures
        match message {
            Message::KeyingText(keying_text) => action matches GuiAction::SendText(text)
                && text@ == keying_text.text@,
            Message::Beep => action is Nothing,
            Message::SetKeyingSpeed(_) => action is Nothing,
            Message::IncreaseKeyingSpeedRequest => if keyer_speed < MAX_KEYER_SPEED {
                action == GuiAction::SetKeyerSpeed((keyer_speed + 1) as KeyerSpeed)
            } else {
                action is WarningBeep
            },
            Message::DecreaseKeyingSpeedRequest => if keyer_speed > MIN_KEYER_SPEED {
                action == GuiAction::SetKeyerSpeed((keyer_speed - 1) as KeyerSpeed)
            } else {
                action is WarningBeep
            },
            Message::RedrawIndicatorsCanvas => action is RedrawIndicators,
            Message::SetRxIndicator(state) => action == GuiAction::SetRxIndicator(state),
            Message::SetWaitIndicator(state) => action == GuiAction::SetWaitIndicator(state),
            Message::SetTxIndicator(state) => action == GuiAction::SetTxIndicator(state),
        },
{
    match message {
        Message::KeyingText(keying_text) => GuiAction::SendText(keying_text.text),
        Message::Beep => GuiAction::Nothing,
        Message::SetKeyingSpeed(_) => GuiAction::Nothing,
        Message::IncreaseKeyingSpeedRequest => {
            if keyer_speed < MAX_KEYER_SPEED {
                GuiAction::SetKeyerSpeed(keyer_speed + 1)
            } else {
                GuiAction::WarningBeep
            }
        },
        Message::DecreaseKeyingSpeedRequest => {
            if keyer_speed > MIN_KEYER_SPEED {
                GuiAction::SetKeyerSpeed(keyer_speed - 1)
            } else {
                GuiAction::WarningBeep
            }
        },
        Message::RedrawIndicatorsCanvas => GuiAction::RedrawIndicators,
        Message::SetRxIndicator(state) => GuiAction::SetRxIndicator(state),
        Message::SetWaitIndicator(state) => GuiAction::SetWaitIndicator(state),
        Message::SetTxIndicator(state) => GuiAction::SetTxIndicator(state),
    }
}

/// The padding around each widget of the main window, in pixels.
pub const WIDGET_PADDING: i32 = 10;

/// The height of a one-line widget, in pixels.
pub const WIDGET_HEIGHT: i32 = 25;

/// The size of the waterfall display, in pixels.
pub const WATERFALL_WIDTH: i32 = 1000;
pub const WATERFALL_HEIGHT: i32 = 500;

/// The width of the controls beside the waterfall, in pixels.
pub const CENTRAL_CONTROLS_WIDTH: i32 = 240;

/// The width and height of the main window: the waterfall and the controls beside it, with the
/// status line under the waterfall, each padded.
pub fn main_window_dimensions() -> (dimensions: (i32, i32))
    ensures
        dimensions.0 == WIDGET_PADDING + WATERFALL_WIDTH + WIDGET_PADDING + CENTRAL_CONTROLS_WIDTH
            + WIDGET_PADDING,
        dimensions.1 == WIDGET_PADDING + WATERFALL_HEIGHT + WIDGET_PADDING + WIDGET_HEIGHT
            + WIDGET_PADDING,
{
    (
        WIDGET_PADDING + WATERFALL_WIDTH + WIDGET_PADDING + CENTRAL_CONTROLS_WIDTH + WIDGET_PADDING,
        WIDGET_PADDING + WATERFALL_HEIGHT + WIDGET_PADDING + WIDGET_HEIGHT + WIDGET_PADDING,
    )
}

/// Where the text from position `i` on starts once leading white space is skipped.
pub open spec fn leading_white_end(s: Seq<char>, i: int) -> int
    decreases s.len() - i,
{
    if 0 <= i < s.len() && is_white_space(s[i]) {
        leading_white_end(s, i + 1)
    } else {
        i
    }
}

/// Where the text up to position `j` ends once trailing white space is dropped.
pub open spec fn trailing_white_start(s: Seq<char>, j: int) -> int
    decreases j,
{
    if 0 < j <= s.len() && is_white_space(s[j - 1]) {
        trailing_white_start(s, j - 1)
    } else {
        j
    }
}

/// The text with white space removed from both ends.
pub open spec fn trimmed(s: Seq<char>) -> Seq<char> {
    let start = leading_white_end(s, 0);
    if start >= s.len() {
        seq![]
    } else {
        s.subrange(start, trailing_white_start(s, s.len() as int))
    }
}

/// The text typed into the entry box, to be keyed: the contents with white space trimmed from
/// both ends, or none if nothing is left.
pub fn entered_text(contents: &str) -> (text: Option<String>)
    ensures
        match text {
            Some(t) => t@ == trimmed(contents@) && t@.len() > 0,
            None => trimmed(contents@).len() == 0,
        },
{
    let chars = chars_of(contents);
    let ghost s = chars@;
    let mut start: usize = 0;
    while start < chars.len() && white_space(chars[start])
        invariant
            start <= chars@.len(),
            s == chars@,
            leading_white_end(s, start as int) == leading_white_end(s, 0),
        decreases chars.len() - start,
    {
        start += 1;
    }
    if start >= chars.len() {
        return None;
    }
    assert(leading_white_end(s, start as int) == start);
    let mut end: usize = chars.len();
    while white_space(chars[end - 1])
        invariant
            start < end <= chars@.len(),
            s == chars@,
            !is_white_space(s[start as int]),
            trailing_white_start(s, end as int) == trailing_white_start(s, s.len() as int),
        decreases end,
    {
        end -= 1;
    }
    assert(trailing_white_start(s, end as int) == end);
    let text = contents.substring_char(start, end).to_owned();
    Some(text)
}

} // verus!
