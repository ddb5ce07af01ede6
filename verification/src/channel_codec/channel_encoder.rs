use vstd::prelude::*;
use crate::channel_codec::channel_encoding::{ChannelEncoding, ChannelSymbol};
use crate::channel_codec::crc::{crc14, spec_crc14};
use crate::channel_codec::gray::{gray_encode, to_gray_code};
use crate::channel_codec::ldpc::{encode_packed_message, pack_message, packed_message, tc256_codeword};
use crate::source_codec::source_encoding::SourceEncoding;

verus! {

/// The tone symbols for a sequence of bytes: each byte's high nybble, then its low nybble,
/// Gray coded.
pub open spec fn nybble_tones(bytes: Seq<u8>) -> Seq<ChannelSymbol>
    decreases bytes.len(),
{
    if bytes.len() == 0 {
        seq![]
    } else {
        nybble_tones(bytes.drop_last()) + seq![
            ChannelSymbol::Tone { value: gray_encode(bytes.last() >> 4u8) },
            ChannelSymbol::Tone { value: gray_encode(bytes.last() & 0x0fu8) },
        ]
    }
}

/// The channel symbols for a 14-byte source block: a ramp-up, the tones of the codeword of
/// the block packed with its CRC (both flags clear), and a ramp-down.
pub open spec fn channel_symbols(block: Seq<u8>) -> Seq<ChannelSymbol> {
    seq![ChannelSymbol::RampUp] + nybble_tones(
        tc256_codeword(packed_message(block, false, false, spec_crc14(block))),
    ) + seq![ChannelSymbol::RampDown]
}

/// Channel-encodes a block of source encoding: its CRC is computed, it is packed with the CRC
/// and LDPC encoded, and each nybble of the codeword becomes a Gray-coded tone, between a
/// ramp-up and a ramp-down symbol.
pub fn source_encoding_to_channel_encoding(source_encoding: SourceEncoding) -> (channel_encoding: ChannelEncoding)
    requires
        source_encoding.block.len() == 14,
    ensures
        channel_encoding.block@ == channel_symbols(source_encoding.block@),
        channel_encoding.is_end == source_encoding.is_end,
{
    let crc = crc14(source_encoding.block.as_slice());
    let packed_message = pack_message(&source_encoding.block, false, false, crc);
    let code_word = encode_packed_message(&packed_message);

    let mut channel_symbols: Vec<ChannelSymbol> = Vec::new();
    channel_symbols.push(ChannelSymbol::RampUp);
    // Convert each nybble of the codeword into its Gray code.
    let mut i: usize = 0;
    while i < code_word.len()
        invariant
            i <= code_word.len(),
            channel_symbols@ == seq![ChannelSymbol::RampUp] + nybble_tones(code_word@.take(i as int)),
        decreases code_word.len() - i,
    {
        let byte = code_word[i];
        assert(byte >> 4u8 <= 0x0f && byte & 0x0fu8 <= 0x0f) by (bit_vector);
        channel_symbols.push(ChannelSymbol::Tone { value: to_gray_code(byte >> 4) });
        channel_symbols.push(ChannelSymbol::Tone { value: to_gray_code(byte & 0x0f) });
        assert(code_word@.take(i + 1).drop_last() =~= code_word@.take(i as int));
        i += 1;
    }
    channel_symbols.push(ChannelSymbol::RampDown);
    assert(code_word@.take(code_word.len() as int) =~= code_word@);
    assert(channel_symbols@ =~= seq![ChannelSymbol::RampUp] + nybble_tones(code_word@) + seq![
        ChannelSymbol::RampDown,
    ]);
    ChannelEncoding { block: channel_symbols, is_end: source_encoding.is_end }
}

} // verus!
