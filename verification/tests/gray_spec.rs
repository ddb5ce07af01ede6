use digimorse::channel_codec::gray::{from_gray_code, to_gray_code};

#[test]
fn gray_spec_round_trip() {
    for i in 0..16 {
        assert_eq!(from_gray_code(to_gray_code(i)), i);
    }
}

#[test]
fn gray_codes_of_small_nybbles() {
    assert_eq!(to_gray_code(0), 0);
    assert_eq!(to_gray_code(1), 1);
    assert_eq!(to_gray_code(2), 3);
    assert_eq!(to_gray_code(3), 2);
    assert_eq!(to_gray_code(15), 8);
    assert_eq!(from_gray_code(8), 15);
}

#[test]
fn neighbouring_gray_codes_differ_in_one_bit() {
    for i in 0..15u8 {
        let diff = to_gray_code(i) ^ to_gray_code(i + 1);
        assert_eq!(diff.count_ones(), 1);
    }
}
