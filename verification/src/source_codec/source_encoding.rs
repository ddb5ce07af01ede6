use vstd::prelude::*;
use crate::keyer_io::keyer_io::{KeyerEdgeDurationMs, KeyerSpeed};

verus! {

/// A hash of a station's callsign, identifying the station.
pub type CallsignHash = u16;

/// A block of source-encoded keying, and whether it is the last of its transmission.
#[derive(Debug, PartialEq, Eq, Clone)]
pub struct SourceEncoding {
    pub block: Vec<u8>,
    pub is_end: bool,
}

/// One frame of decoded keying, as played back.
#[derive(Debug, PartialEq, Eq, Structural, Copy, Clone)]
pub enum Frame {
    Padding,
    WPMPolarity { wpm: KeyerSpeed, polarity: bool },
    CallsignMetadata {},
    CallsignHashMetadata {},
    LocatorMetadata {},
    KeyingPerfectDit,
    KeyingPerfectDah,
    KeyingPerfectWordgap,
    KeyingEnd,
    KeyingDeltaDit { delta: i16 },
    KeyingDeltaDah { delta: i16 },
    KeyingDeltaWordgap { delta: i16 },
    KeyingNaive { duration: KeyerEdgeDurationMs },
    Unused,
    Extension,
}

} // verus!
