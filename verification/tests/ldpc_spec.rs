use digimorse::channel_codec::crc::{crc14, CRC};
use digimorse::channel_codec::ldpc::{decode_codeword, encode_packed_message, pack_message, unpack_message};

fn dump_byte_vec_as_binary_stream(bytes: &[u8]) -> String {
    bytes.iter().map(|b| format!("{:08b}", b)).collect::<Vec<String>>().join("")
}

// A 112-bit block of source encoded keying.
fn generate_message_and_crc() -> (Vec<u8>, CRC, String) {
    let source_encoding: Vec<u8> = vec![
        0x15, 0x3a, 0x52, 0x8f, 0x09, 0xcb, 0x77, 0x40, 0x00, 0x00, 0x00, 0x00, 0x00, 0x00,
    ];
    let crc = crc14(source_encoding.as_slice());
    let crc_binary = format!("{:#016b}", crc);
    (source_encoding, crc, crc_binary)
}

#[test]
fn source_encoding_to_packed_message() {
    let (message, crc, crc_binary) = generate_message_and_crc();
    let message_string = dump_byte_vec_as_binary_stream(&message);

    let packed_message = pack_message(&message, false, true, crc);
    let mut packed_message_string = dump_byte_vec_as_binary_stream(&packed_message);
    assert_eq!(packed_message_string.len(), 128);

    let message_at_start = &packed_message_string[0..112];
    assert_eq!(message_at_start, message_string.as_str());

    let unused_flag_1 = &packed_message_string[112..113];
    assert_eq!(unused_flag_1, "0");

    let unused_flag_2 = &packed_message_string[113..114];
    assert_eq!(unused_flag_2, "1");

    let crc_at_end = packed_message_string.split_off(128 - 14);
    assert_eq!(crc_at_end, crc_binary.strip_prefix("0b").unwrap());
}

#[test]
fn packed_message_to_encoded_packed_message() {
    let (message, crc, _) = generate_message_and_crc();

    let packed_message = pack_message(&message, false, true, crc);
    let packed_message_string = dump_byte_vec_as_binary_stream(&packed_message);

    let encoded_packed_message = encode_packed_message(&packed_message);
    let encoded_packed_message_string = dump_byte_vec_as_binary_stream(&encoded_packed_message);

    let packed_message_at_start = &encoded_packed_message_string[0..128];
    assert_eq!(packed_message_at_start, packed_message_string);
}

#[test]
fn round_trip_no_corruption() {
    let (message, crc, _) = generate_message_and_crc();
    let packed_message = pack_message(&message, false, true, crc);
    let packed_message_string = dump_byte_vec_as_binary_stream(&packed_message);
    let encoded_packed_message = encode_packed_message(&packed_message);

    // no corruption

    let decoded_packed_message = decode_codeword(&encoded_packed_message).unwrap();
    let decoded_packed_message_string = dump_byte_vec_as_binary_stream(&decoded_packed_message);

    let packed_message_at_start = &decoded_packed_message_string[0..128];
    assert_eq!(packed_message_at_start, packed_message_string);
}

#[test]
fn round_trip_with_corruption() {
    let (message, crc, _) = generate_message_and_crc();
    let packed_message = pack_message(&message, false, true, crc);
    let packed_message_string = dump_byte_vec_as_binary_stream(&packed_message);
    let mut encoded_packed_message = encode_packed_message(&packed_message);

    // corrupt the codeword
    let num_corruptions = 14;
    for i in 0..num_corruptions {
        encoded_packed_message[i] ^= 0x10;
    }

    let decoded_packed_message = decode_codeword(&encoded_packed_message).unwrap();
    let decoded_packed_message_string = dump_byte_vec_as_binary_stream(&decoded_packed_message);

    let packed_message_at_start = &decoded_packed_message_string[0..128];
    assert_eq!(packed_message_at_start, packed_message_string);
}

#[test]
fn unpack_packed_message() {
    let (message, crc, _) = generate_message_and_crc();

    let packed_message = pack_message(&message, false, true, crc);

    let (u_message, u_unused_flag_1, u_unused_flag_2, u_crc) = unpack_message(&packed_message);
    assert_eq!(u_message, message);
    assert_eq!(u_unused_flag_1, false);
    assert_eq!(u_unused_flag_2, true);
    assert_eq!(u_crc, crc);
}

#[test]
fn packed_message_layout_for_known_values() {
    let message: Vec<u8> = vec![0xff; 14];
    let packed = pack_message(&message, true, false, 0x2fa1);
    assert_eq!(packed.len(), 16);
    assert_eq!(&packed[0..14], &message[..]);
    // flags 1, 0 then the 14-bit CRC 10 1111 1010 0001
    assert_eq!(packed[14], 0b1010_1111);
    assert_eq!(packed[15], 0b1010_0001);
}

#[test]
fn codeword_of_zero_message_decodes_to_itself() {
    let packed = vec![0u8; 16];
    let codeword = encode_packed_message(&packed);
    assert_eq!(codeword.len(), 32);
    assert_eq!(decode_codeword(&codeword), Some(codeword.clone()));
}
