use digimorse::channel_codec::channel_encoder::source_encoding_to_channel_encoding;
use digimorse::channel_codec::channel_encoding::{ChannelEncoding, ChannelSymbol};
use digimorse::source_codec::source_encoding::SourceEncoding;

// The source encoding of the frames WPMPolarity { wpm: 5, polarity: true },
// KeyingDeltaDah { delta: 5 }, WPMPolarity { wpm: 60, polarity: true },
// KeyingDeltaDah { delta: 5 }, Extension and Padding, in a 112-bit block.
fn generate_sample_source_encoding() -> SourceEncoding {
    let block = vec![
        0x11, 0x76, 0x02, 0x8f, 0x9b, 0x0b, 0xe0, 0x00, 0x00, 0x00, 0x00, 0x00, 0x00, 0x00,
    ];
    SourceEncoding { block, is_end: true }
}

fn generate_expected_channel_encoding() -> ChannelEncoding {
    ChannelEncoding {
        block: vec![
            ChannelSymbol::RampUp,
            ChannelSymbol::Tone { value: 1 },
            ChannelSymbol::Tone { value: 1 },
            ChannelSymbol::Tone { value: 4 },
            ChannelSymbol::Tone { value: 5 },
            ChannelSymbol::Tone { value: 0 },
            ChannelSymbol::Tone { value: 3 },
            ChannelSymbol::Tone { value: 12 },
            ChannelSymbol::Tone { value: 8 },
            ChannelSymbol::Tone { value: 13 },
            ChannelSymbol::Tone { value: 14 },
            ChannelSymbol::Tone { value: 0 },
            ChannelSymbol::Tone { value: 14 },
            ChannelSymbol::Tone { value: 9 },
            ChannelSymbol::Tone { value: 0 },
            ChannelSymbol::Tone { value: 0 },
            ChannelSymbol::Tone { value: 0 },
            ChannelSymbol::Tone { value: 0 },
            ChannelSymbol::Tone { value: 0 },
            ChannelSymbol::Tone { value: 0 },
            ChannelSymbol::Tone { value: 0 },
            ChannelSymbol::Tone { value: 0 },
            ChannelSymbol::Tone { value: 0 },
            ChannelSymbol::Tone { value: 0 },
            ChannelSymbol::Tone { value: 0 },
            ChannelSymbol::Tone { value: 0 },
            ChannelSymbol::Tone { value: 0 },
            ChannelSymbol::Tone { value: 0 },
            ChannelSymbol::Tone { value: 0 },
            ChannelSymbol::Tone { value: 3 },
            ChannelSymbol::Tone { value: 8 },
            ChannelSymbol::Tone { value: 15 },
            ChannelSymbol::Tone { value: 1 },
            ChannelSymbol::Tone { value: 2 },
            ChannelSymbol::Tone { value: 11 },
            ChannelSymbol::Tone { value: 13 },
            ChannelSymbol::Tone { value: 11 },
            ChannelSymbol::Tone { value: 4 },
            ChannelSymbol::Tone { value: 10 },
            ChannelSymbol::Tone { value: 3 },
            ChannelSymbol::Tone { value: 4 },
            ChannelSymbol::Tone { value: 10 },
            ChannelSymbol::Tone { value: 10 },
            ChannelSymbol::Tone { value: 9 },
            ChannelSymbol::Tone { value: 6 },
            ChannelSymbol::Tone { value: 7 },
            ChannelSymbol::Tone { value: 8 },
            ChannelSymbol::Tone { value: 10 },
            ChannelSymbol::Tone { value: 9 },
            ChannelSymbol::Tone { value: 1 },
            ChannelSymbol::Tone { value: 13 },
            ChannelSymbol::Tone { value: 14 },
            ChannelSymbol::Tone { value: 5 },
            ChannelSymbol::Tone { value: 2 },
            ChannelSymbol::Tone { value: 3 },
            ChannelSymbol::Tone { value: 1 },
            ChannelSymbol::Tone { value: 5 },
            ChannelSymbol::Tone { value: 8 },
            ChannelSymbol::Tone { value: 5 },
            ChannelSymbol::Tone { value: 0 },
            ChannelSymbol::Tone { value: 0 },
            ChannelSymbol::Tone { value: 10 },
            ChannelSymbol::Tone { value: 9 },
            ChannelSymbol::Tone { value: 2 },
            ChannelSymbol::Tone { value: 3 },
            ChannelSymbol::RampDown
        ],
        is_end: true,
    }
}

#[test]
pub fn transform_encodings_with_channel_encoder_function() {
    let source_encoding = generate_sample_source_encoding();
    let channel_encoding = source_encoding_to_channel_encoding(source_encoding);
    let expected_channel_encoding = generate_expected_channel_encoding();
    assert_eq!(channel_encoding, expected_channel_encoding);
}

#[test]
fn channel_encoding_keeps_the_end_flag() {
    let source_encoding = SourceEncoding { block: vec![0u8; 14], is_end: false };
    let channel_encoding = source_encoding_to_channel_encoding(source_encoding);
    assert_eq!(channel_encoding.is_end, false);
    assert_eq!(channel_encoding.block.len(), 66);
    assert_eq!(channel_encoding.block[0], ChannelSymbol::RampUp);
    assert_eq!(channel_encoding.block[65], ChannelSymbol::RampDown);
}
