use vstd::prelude::*;

verus! {

/// The reflected binary Gray code of a value.
pub open spec fn gray_encode(n: u8) -> u8 {
    n ^ (n >> 1u8)
}

/// The value whose reflected binary Gray code is `g`, for a 4-bit `g`.
pub open spec fn gray_decode(g: u8) -> u8 {
    g ^ (g >> 1u8) ^ (g >> 2u8) ^ (g >> 3u8)
}

/// Converts a nybble (a value in 0..=15) to its Gray code, itself a nybble.
pub fn to_gray_code(nybble: u8) -> (gray: u8)
    requires
        nybble <= 0x0f,
    ensures
        gray == gray_encode(nybble),
        gray <= 0x0f,
{
    let table: [u8; 16] = [0, 1, 3, 2, 6, 7, 5, 4, 12, 13, 15, 14, 10, 11, 9, 8];
    let gray = table[nybble as usize];
    proof {
        let n = nybble;
        assert(n <= 0x0f ==> {
            let e = n ^ (n >> 1u8);
            &&& (n == 0 ==> e == 0) &&& (n == 1 ==> e == 1)
            &&& (n == 2 ==> e == 3) &&& (n == 3 ==> e == 2)
            &&& (n == 4 ==> e == 6) &&& (n == 5 ==> e == 7)
            &&& (n == 6 ==> e == 5) &&& (n == 7 ==> e == 4)
            &&& (n == 8 ==> e == 12) &&& (n == 9 ==> e == 13)
            &&& (n == 10 ==> e == 15) &&& (n == 11 ==> e == 14)
            &&& (n == 12 ==> e == 10) &&& (n == 13 ==> e == 11)
            &&& (n == 14 ==> e == 9) &&& (n == 15 ==> e == 8)
        }) by (bit_vector);
    }
    gray
}

/// Converts a Gray-coded nybble back to the nybble it encodes.
pub fn from_gray_code(gray_nybble: u8) -> (nybble: u8)
    requires
        gray_nybble <= 0x0f,
    ensures
        nybble == gray_decode(gray_nybble),
        nybble <= 0x0f,
{
    let table: [u8; 16] = [0, 1, 3, 2, 7, 6, 4, 5, 15, 14, 12, 13, 8, 9, 11, 10];
    let nybble = table[gray_nybble as usize];
    proof {
        let g = gray_nybble;
        assert(g <= 0x0f ==> {
            let d = g ^ (g >> 1u8) ^ (g >> 2u8) ^ (g >> 3u8);
            &&& (g == 0 ==> d == 0) &&& (g == 1 ==> d == 1)
            &&& (g == 2 ==> d == 3) &&& (g == 3 ==> d == 2)
            &&& (g == 4 ==> d == 7) &&& (g == 5 ==> d == 6)
            &&& (g == 6 ==> d == 4) &&& (g == 7 ==> d == 5)
            &&& (g == 8 ==> d == 15) &&& (g == 9 ==> d == 14)
            &&& (g == 10 ==> d == 12) &&& (g == 11 ==> d == 13)
            &&& (g == 12 ==> d == 8) &&& (g == 13 ==> d == 9)
            &&& (g == 14 ==> d == 11) &&& (g == 15 ==> d == 10)
        }) by (bit_vector);
    }
    nybble
}

/// Decoding a Gray code gives back the nybble that was encoded.
pub proof fn lemma_gray_round_trip(n: u8)
    requires
        n <= 0x0f,
    ensures
        gray_encode(n) <= 0x0f,
        gray_decode(gray_encode(n)) == n,
{
    assert(n <= 0x0f ==> (n ^ (n >> 1u8)) <= 0x0f && ((n ^ (n >> 1u8)) ^ ((n ^ (n >> 1u8)) >> 1u8)
        ^ ((n ^ (n >> 1u8)) >> 2u8) ^ ((n ^ (n >> 1u8)) >> 3u8)) == n) by (bit_vector);
}

/// Encoding a decoded Gray code gives back the Gray code.
pub proof fn lemma_gray_inverse_round_trip(g: u8)
    requires
        g <= 0x0f,
    ensures
        gray_decode(g) <= 0x0f,
        gray_encode(gray_decode(g)) == g,
{
    let d = g ^ (g >> 1u8) ^ (g >> 2u8) ^ (g >> 3u8);
    assert(g <= 0x0f ==> d <= 0x0f && (d ^ (d >> 1u8)) == g) by (bit_vector)
        requires d == g ^ (g >> 1u8) ^ (g >> 2u8) ^ (g >> 3u8);
}

} // verus!
