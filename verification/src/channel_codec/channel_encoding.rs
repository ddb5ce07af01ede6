use vstd::prelude::*;

verus! {

/// A channel symbol tone: a 4-bit value, one of 16 tones.
pub type ChannelSymbolTone = u8;

/// One symbol of a channel encoding.
#[derive(Debug, PartialEq, Eq, Structural, Copy, Clone)]
pub enum ChannelSymbol {
    RampUp,
    Tone { value: ChannelSymbolTone },
    RampDown,
}

/// The channel encoding of a block: a ramp-up symbol, the Gray-coded nybbles of the LDPC
/// codeword, and a ramp-down symbol; and whether the block is the last in its sequence.
#[derive(Debug, PartialEq, Eq, Clone)]
pub struct ChannelEncoding {
    pub block: Vec<ChannelSymbol>,
    pub is_end: bool,
}

} // verus!
