use vstd::prelude::*;
use crate::keyer_io::keyer_io::{KeyerEdgeDurationMs, KeyerSpeed};

verus! {

/// The perfect durations of keying elements at a speed: a dit of 1200 / WPM milliseconds, a
/// dah of three dits, a word gap of seven.
#[derive(Debug, PartialEq, Eq, Structural, Copy, Clone)]
pub struct DefaultKeyingTiming {
    pub keyer_speed: KeyerSpeed,
}

/// The dit length in milliseconds at `wpm` words per minute.
pub open spec fn perfect_dit_ms(wpm: KeyerSpeed) -> KeyerEdgeDurationMs {
    (1200int / (wpm as int)) as KeyerEdgeDurationMs
}

impl DefaultKeyingTiming {
    /// Timing at 12 WPM.
    pub fn new() -> (timing: Self)
        ensures
            timing.keyer_speed == 12,
    {
        Self { keyer_speed: 12 }
    }

    /// Sets the speed, in WPM.
    pub fn set_keyer_speed(&mut self, wpm: KeyerSpeed)
        ensures
            final(self).keyer_speed == wpm,
    {
        self.keyer_speed = wpm;
    }

    /// The duration of a perfect dit.
    pub fn get_perfect_dit_ms(&self) -> (ms: KeyerEdgeDurationMs)
        requires
            self.keyer_speed > 0,
        ensures
            ms == perfect_dit_ms(self.keyer_speed),
    {
        1200 / (self.keyer_speed as u16)
    }

    /// The duration of a perfect dah: three dits.
    pub fn get_perfect_dah_ms(&self) -> (ms: KeyerEdgeDurationMs)
        requires
            self.keyer_speed > 0,
        ensures
            ms == 3 * perfect_dit_ms(self.keyer_speed),
    {
        3 * (1200 / (self.keyer_speed as u16))
    }

    /// The duration of a perfect word gap: seven dits.
    pub fn get_perfect_wordgap_ms(&self) -> (ms: KeyerEdgeDurationMs)
        requires
            self.keyer_speed > 0,
        ensures
            ms == 7 * perfect_dit_ms(self.keyer_speed),
    {
        7 * (1200 / (self.keyer_speed as u16))
    }
}

} // verus!
