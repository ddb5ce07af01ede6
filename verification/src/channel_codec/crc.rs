use vstd::prelude::*;

verus! {

/// A 14-bit cyclic redundancy check, held in the low bits of a `u16`.
pub type CRC = u16;

/// The generator polynomial, without its implicit x^14 term (the one used by FT8).
pub const POLYNOMIAL: u16 = 0x2757;

/// The number of bits in the check value.
pub const WIDTH: u16 = 14;

/// The most significant bit of the 14-bit register.
pub const TOPBIT: u16 = 0x2000;

/// One step of modulo-2 division: shift the register left by one bit, and subtract (XOR) the
/// polynomial when the bit shifted past the top of the register was set.
pub open spec fn division_step(r: u16) -> u16 {
    if r & 0x2000u16 != 0 {
        (r << 1u16) ^ 0x2757u16
    } else {
        r << 1u16
    }
}

/// Eight steps of modulo-2 division: the register after dividing in one byte's worth of bits.
pub open spec fn divide_byte(r: u16) -> u16 {
    division_step(division_step(division_step(division_step(
        division_step(division_step(division_step(division_step(r))))))))
}

/// `k` steps of modulo-2 division.
pub open spec fn division_steps(r: u16, k: nat) -> u16
    decreases k,
{
    if k == 0 {
        r
    } else {
        division_steps(division_step(r), (k - 1) as nat)
    }
}

/// The division register after all of `data` has been brought in, a byte at a time, each byte
/// entering the top eight bits of the 14-bit register.
pub open spec fn crc_register(data: Seq<u8>) -> u16
    decreases data.len(),
{
    if data.len() == 0 {
        0
    } else {
        divide_byte(crc_register(data.drop_last()) ^ ((data.last() as u16) << 6u16))
    }
}

/// The 14-bit CRC of `data`: the remainder of its modulo-2 division by the polynomial.
pub open spec fn spec_crc14(data: Seq<u8>) -> CRC {
    crc_register(data) & 0x3fffu16
}

/// The table entry for a dividend: the register after dividing in that byte from a zero
/// register.
pub open spec fn crc_table_entry(dividend: u16) -> CRC {
    divide_byte(dividend << 6u16)
}

/// The two bytes that append a check value to a message: its 14 bits shifted to the top of a
/// 16-bit word, most significant byte first.
pub open spec fn crc_trailer(crc: CRC) -> Seq<u8> {
    seq![(#[verifier::truncate] (((crc << 2u16) >> 8u16) as u8)), (#[verifier::truncate] ((crc << 2u16) as u8))]
}

proof fn lemma_steps_eight(r: u16)
    ensures
        division_steps(r, 8) == divide_byte(r),
{
    reveal_with_fuel(division_steps, 9);
}

/// The table-driven update of one byte agrees, in the low 14 bits, with dividing the byte in
/// bit by bit.
proof fn lemma_table_step(r1: u16, r2: u16, b: u8)
    requires
        r1 & 0x3fffu16 == r2 & 0x3fffu16,
    ensures
        (crc_table_entry(((b ^ ((r1 >> 6u16) as u8)) as u16)) ^ (r1 << 8u16)) & 0x3fffu16
            == divide_byte(r2 ^ ((b as u16) << 6u16)) & 0x3fffu16,
{
    let a0: u16 = ((b ^ ((r1 >> 6u16) as u8)) as u16) << 6u16;
    let a1 = division_step(a0);
    let a2 = division_step(a1);
    let a3 = division_step(a2);
    let a4 = division_step(a3);
    let a5 = division_step(a4);
    let a6 = division_step(a5);
    let a7 = division_step(a6);
    let a8 = division_step(a7);
    let c0: u16 = r2 ^ ((b as u16) << 6u16);
    let c1 = division_step(c0);
    let c2 = division_step(c1);
    let c3 = division_step(c2);
    let c4 = division_step(c3);
    let c5 = division_step(c4);
    let c6 = division_step(c5);
    let c7 = division_step(c6);
    let c8 = division_step(c7);
    assert((a8 ^ (r1 << 8u16)) & 0x3fffu16 == c8 & 0x3fffu16) by (bit_vector)
        requires
            r1 & 0x3fffu16 == r2 & 0x3fffu16,
            a0 == ((b ^ ((r1 >> 6u16) as u8)) as u16) << 6u16,
            a1 == division_step(a0),
            a2 == division_step(a1),
            a3 == division_step(a2),
            a4 == division_step(a3),
            a5 == division_step(a4),
            a6 == division_step(a5),
            a7 == division_step(a6),
            a8 == division_step(a7),
            c0 == r2 ^ ((b as u16) << 6u16),
            c1 == division_step(c0),
            c2 == division_step(c1),
            c3 == division_step(c2),
            c4 == division_step(c3),
            c5 == division_step(c4),
            c6 == division_step(c5),
            c7 == division_step(c6),
            c8 == division_step(c7),
    ;
}

/// Builds the table of remainders for each of the 256 possible dividend bytes.
pub fn generate_table() -> (table: Vec<CRC>)
    ensures
        table.len() == 256,
        forall|i: int| 0 <= i < 256 ==> #[trigger] table[i] == crc_table_entry(i as u16),
{
    let mut table: Vec<CRC> = Vec::with_capacity(256);
    let mut dividend: u16 = 0;
    while dividend < 256
        invariant
            dividend <= 256,
            table.len() == dividend,
            forall|i: int| 0 <= i < dividend ==> #[trigger] table[i] == crc_table_entry(i as u16),
        decreases 256 - dividend,
    {
        // Start with the dividend followed by zeros.
        let mut remainder: u16 = dividend << (WIDTH - 8);
        let ghost start = remainder;
        // Perform modulo-2 division, a bit at a time.
        let mut bit: u16 = 8;
        while bit > 0
            invariant
                bit <= 8,
                division_steps(remainder, bit as nat) == division_steps(start, 8),
            decreases bit,
        {
            if remainder & TOPBIT != 0 {
                remainder = (remainder << 1u16) ^ POLYNOMIAL;
            } else {
                remainder = remainder << 1u16;
            }
            bit -= 1;
        }
        proof {
            lemma_steps_eight(start);
        }
        table.push(remainder);
        dividend += 1;
    }
    table
}

/// The 14-bit CRC of `data`, computed a byte at a time from the table of remainders.
pub fn crc14(data: &[u8]) -> (crc: CRC)
    ensures
        crc == spec_crc14(data@),
{
    let table = generate_table();
    let mut remainder: CRC = 0;
    let mut i: usize = 0;
    // Divide the data by the polynomial, a byte at a time.
    while i < data.len()
        invariant
            i <= data.len(),
            table.len() == 256,
            forall|j: int| 0 <= j < 256 ==> #[trigger] table[j] == crc_table_entry(j as u16),
            remainder & 0x3fffu16 == crc_register(data@.take(i as int)) & 0x3fffu16,
        decreases data.len() - i,
    {
        let index = (data[i] ^ ((remainder >> (WIDTH - 8)) as u8)) as usize;
        proof {
            lemma_table_step(remainder, crc_register(data@.take(i as int)), data@[i as int]);
            assert(data@.take(i + 1).drop_last() =~= data@.take(i as int));
        }
        remainder = table[index] ^ (remainder << 8u16);
        i += 1;
    }
    assert(data@.take(data.len() as int) =~= data@);
    remainder & 0x3fff
}

/// Whether `data_with_crc_appended` divides exactly: a message followed by its CRC does.
pub fn crc14_correct(data_with_crc_appended: &[u8]) -> (correct: bool)
    ensures
        correct == (spec_crc14(data_with_crc_appended@) == 0),
{
    let crc = crc14(data_with_crc_appended);
    crc == 0x0000
}

/// The 14-bit CRC of `data`, computed bit by bit; the same value as [`crc14`].
pub fn crc14_slow(data: &[u8]) -> (crc: CRC)
    ensures
        crc == spec_crc14(data@),
{
    let mut remainder: CRC = 0;
    let mut byte: usize = 0;
    // Perform modulo-2 division, a byte at a time.
    while byte < data.len()
        invariant
            byte <= data.len(),
            remainder == crc_register(data@.take(byte as int)),
        decreases data.len() - byte,
    {
        // Bring the next byte into the remainder.
        remainder ^= (data[byte] as u16) << (WIDTH - 8);
        let ghost start = remainder;
        // Perform modulo-2 division, a bit at a time.
        let mut bit: u16 = 8;
        while bit > 0
            invariant
                bit <= 8,
                division_steps(remainder, bit as nat) == division_steps(start, 8),
            decreases bit,
        {
            if (remainder & TOPBIT) != 0x0000 {
                remainder = (remainder << 1u16) ^ POLYNOMIAL;
            } else {
                remainder = remainder << 1u16;
            }
            bit -= 1;
        }
        proof {
            lemma_steps_eight(start);
            assert(data@.take(byte + 1).drop_last() =~= data@.take(byte as int));
        }
        byte += 1;
    }
    assert(data@.take(data.len() as int) =~= data@);
    remainder & 0x3fff
}

/// A message followed by its CRC, packed into the top 14 bits of two bytes, divides exactly:
/// its own CRC is zero.
pub proof fn lemma_crc_of_message_with_crc_is_zero(data: Seq<u8>)
    ensures
        spec_crc14(data + crc_trailer(spec_crc14(data))) == 0,
{
    let r = crc_register(data);
    let c = spec_crc14(data);
    let whole = data + crc_trailer(c);
    let h = (#[verifier::truncate] (((c << 2u16) >> 8u16) as u8));
    let l = (#[verifier::truncate] ((c << 2u16) as u8));
    assert(whole.drop_last() =~= data.push(h));
    assert(data.push(h).drop_last() =~= data);
    assert(whole.last() == l);
    assert(data.push(h).last() == h);
    let a0: u16 = r ^ ((h as u16) << 6u16);
    let a1 = division_step(a0);
    let a2 = division_step(a1);
    let a3 = division_step(a2);
    let a4 = division_step(a3);
    let a5 = division_step(a4);
    let a6 = division_step(a5);
    let a7 = division_step(a6);
    let a8 = division_step(a7);
    let b0: u16 = a8 ^ ((l as u16) << 6u16);
    let b1 = division_step(b0);
    let b2 = division_step(b1);
    let b3 = division_step(b2);
    let b4 = division_step(b3);
    let b5 = division_step(b4);
    let b6 = division_step(b5);
    let b7 = division_step(b6);
    let b8 = division_step(b7);
    assert(crc_trailer(c)[0] == h && crc_trailer(c)[1] == l);
    assert(crc_register(data.push(h)) == divide_byte(a0));
    assert(divide_byte(a0) == a8);
    assert(crc_register(whole) == divide_byte(crc_register(data.push(h)) ^ ((l as u16) << 6u16)));
    assert(divide_byte(b0) == b8);
    assert(crc_register(whole) == b8);
    assert(b8 & 0x3fffu16 == 0) by (bit_vector)
        requires
            a0 == r ^ (((((r & 0x3fffu16) << 2u16) >> 8u16) as u8) as u16) << 6u16,
            a1 == division_step(a0),
            a2 == division_step(a1),
            a3 == division_step(a2),
            a4 == division_step(a3),
            a5 == division_step(a4),
            a6 == division_step(a5),
            a7 == division_step(a6),
            a8 == division_step(a7),
            b0 == a8 ^ (((((r & 0x3fffu16) << 2u16) as u8) as u16) << 6u16),
            b1 == division_step(b0),
            b2 == division_step(b1),
            b3 == division_step(b2),
            b4 == division_step(b3),
            b5 == division_step(b4),
            b6 == division_step(b5),
            b7 == division_step(b6),
            b8 == division_step(b7),
    ;
}

} // verus!
