use digimorse::channel_codec::crc::{crc14, crc14_correct, crc14_slow, generate_table, CRC};

// 68 bytes of test data
const INPUT: &[u8] = "This is a test of the emergency broadcast system. Do not be alarmed!".as_bytes();
const INPUT_CRC: CRC = 0x06A9; // The CRC (verified) of INPUT.

#[test]
fn initial_table_values() {
    let table = generate_table();
    assert_eq!(table.len(), 256);
    assert_eq!(table[0], 0x0000);
    assert_eq!(table[1], 0x6757);
    assert_eq!(table[2], 0xe9f9);
    assert_eq!(table[3], 0x8eae);
    assert_eq!(table[4], 0xf4a5);
    // ...
    assert_eq!(table[255], 0xe899);
}

#[test]
fn check_a_string() {
    let crc = crc14(INPUT);
    assert_eq!(crc, INPUT_CRC);

    let crc_slow = crc14_slow(INPUT);
    assert_eq!(crc_slow, INPUT_CRC)
}

fn input_with_crc(input: Vec<u8>) -> Vec<u8> {
    let mut input_with_crc = input;
    let shifted_crc = INPUT_CRC << 2; // Pack the 14 bits of CRC at the end of the INPUT.
    input_with_crc.push((shifted_crc >> 8) as u8);
    input_with_crc.push(shifted_crc as u8);
    input_with_crc
}

#[test]
fn verify_crc_passes() {
    let input_with_crc_bytes = input_with_crc(Vec::from(INPUT));
    assert_eq!(input_with_crc_bytes.len(), 70);
    assert_eq!(crc14_correct(&input_with_crc_bytes), true);
}

#[test]
fn verify_crc_fails() {
    let mut input = Vec::from(INPUT);
    input[5] = input[5] ^ 0x02; // flip one bit
    let input_with_crc_bytes = input_with_crc(input);
    assert_eq!(input_with_crc_bytes.len(), 70);
    assert_eq!(crc14_correct(&input_with_crc_bytes), false);
}

#[test]
fn crc_of_nothing_is_zero() {
    assert_eq!(crc14(&[]), 0);
    assert_eq!(crc14_slow(&[]), 0);
}

#[test]
fn table_and_bitwise_crcs_agree() {
    let data: Vec<u8> = (0..=255u8).collect();
    for len in 0..data.len() {
        assert_eq!(crc14(&data[..len]), crc14_slow(&data[..len]));
    }
}

#[test]
fn crc_fits_in_fourteen_bits() {
    let data: Vec<u8> = (0..100u8).map(|b| b.wrapping_mul(37)).collect();
    assert!(crc14(&data) < 0x4000);
}
