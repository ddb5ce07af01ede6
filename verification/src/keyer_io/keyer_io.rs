use vstd::prelude::*;
use crate::util::text::{append_decimal, decimal_text};

verus! {

/// How the keyer interprets its key.
#[derive(Debug, PartialEq, Eq, Structural, Copy, Clone)]
pub enum KeyerMode {
    Straight,
    Paddle,
}

/// Whether the keyer's paddle contacts are swapped.
#[derive(Debug, PartialEq, Eq, Structural, Copy, Clone)]
pub enum KeyerPolarity {
    Normal,
    Reverse,
}

/// The kind of keyer hardware in use.
#[derive(Debug, PartialEq, Eq, Structural, Copy, Clone)]
pub enum KeyerType {
    Arduino,
    Null,
}

/// Keying speed, in words per minute.
pub type KeyerSpeed = u8;

/// The slowest keying speed, in words per minute.
pub const MIN_KEYER_SPEED: KeyerSpeed = 5;

/// The fastest keying speed, in words per minute.
pub const MAX_KEYER_SPEED: KeyerSpeed = 60;

/// The duration of a keying edge, in milliseconds: 20ms is a 60 WPM dit, 720ms a 5 WPM dah.
pub type KeyerEdgeDurationMs = u16;

/// A keying edge with its duration.
#[derive(Debug, PartialEq, Eq, Structural, Copy, Clone)]
pub struct KeyingTimedEvent {
    /// The edge that has transitioned: key up, or key down.
    pub up: bool,
    /// How long this edge lasted for.
    pub duration: KeyerEdgeDurationMs,
}

/// An event in a stream of keying.
#[derive(Debug, PartialEq, Eq, Structural, Copy, Clone)]
pub enum KeyingEvent {
    Timed(KeyingTimedEvent),
    Start(),
    End(),
}

/// The text of a timed keying event: `TIMED`, `^` for key up or `v` for key down, and the
/// duration in milliseconds.
pub open spec fn timed_event_text(event: KeyingTimedEvent) -> Seq<char> {
    seq!['T', 'I', 'M', 'E', 'D', ' ', if event.up {
        '^'
    } else {
        'v'
    }, ' '] + decimal_text(event.duration as nat)
}

/// The text of a keying event: a timed event's text, `START` or `END`.
pub open spec fn keying_event_text(event: KeyingEvent) -> Seq<char> {
    match event {
        KeyingEvent::Timed(timed) => timed_event_text(timed),
        KeyingEvent::Start() => seq!['S', 'T', 'A', 'R', 'T'],
        KeyingEvent::End() => seq!['E', 'N', 'D'],
    }
}

impl KeyingTimedEvent {
    /// The event as text, such as `TIMED ^ 20`.
    pub fn to_string(&self) -> (text: String)
        ensures
            text@ == timed_event_text(*self),
    {
        let mut text = if self.up {
            String::from_str("TIMED ^ ")
        } else {
            String::from_str("TIMED v ")
        };
        proof {
            reveal_strlit("TIMED ^ ");
            reveal_strlit("TIMED v ");
        }
        append_decimal(&mut text, self.duration as usize);
        text
    }
}

impl KeyingEvent {
    /// The event as text: a timed event's text, `START` or `END`.
    pub fn to_string(&self) -> (text: String)
        ensures
            text@ == keying_event_text(*self),
    {
        match self {
            KeyingEvent::Timed(timed) => timed.to_string(),
            KeyingEvent::Start() => {
                proof {
                    reveal_strlit("START");
                }
                String::from_str("START")
            },
            KeyingEvent::End() => {
                proof {
                    reveal_strlit("END");
                }
                String::from_str("END")
            },
        }
    }
}

/// Access to a keyer's settings.
pub trait Keyer {
    fn get_version(&mut self) -> Result<String, String>;

    fn get_speed(&mut self) -> Result<KeyerSpeed, String>;

    fn set_speed(&mut self, wpm: KeyerSpeed) -> Result<(), String>;

    fn get_keyer_mode(&mut self) -> Result<KeyerMode, String>;

    fn set_keyer_mode(&mut self, mode: KeyerMode) -> Result<(), String>;

    fn get_keyer_polarity(&mut self) -> Result<KeyerPolarity, String>;

    fn set_keyer_polarity(&mut self, polarity: KeyerPolarity) -> Result<(), String>;
}

} // verus!
