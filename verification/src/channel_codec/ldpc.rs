use vstd::prelude::*;
use bitvec::order::Msb0;
use bitvec::vec::BitVec;
use crate::channel_codec::crc::CRC;
use labrador_ldpc::LDPCCode;

verus! {

/// A growable vector of bits, most significant bit first within each byte, held by the
/// `bitvec` crate.
#[verifier::external_body]
pub struct MsbBits {
    inner: BitVec<u8, Msb0>,
}

/// The bits held by a most-significant-bit-first bit vector, in order.
pub uninterp spec fn held_bits(v: MsbBits) -> Seq<bool>;

/// `BitVec::with_capacity`: a new, empty bit vector. It panics on capacities beyond its
/// encodable length, `usize::MAX >> 3` bits, which `requires` excludes.
#[verifier::external_body]
fn bitvec_with_capacity(capacity: usize) -> (v: MsbBits)
    requires
        capacity <= usize::MAX / 8,
    ensures
        held_bits(v) == Seq::<bool>::empty(),
{
    MsbBits { inner: BitVec::<u8, Msb0>::with_capacity(capacity) }
}

/// `BitVec::push`: appends one bit at the end.
#[verifier::external_body]
fn bitvec_push(v: &mut MsbBits, bit: bool)
    requires
        held_bits(*old(v)).len() < usize::MAX / 8,
    ensures
        held_bits(*final(v)) == held_bits(*old(v)).push(bit),
{
    v.inner.push(bit)
}

/// `BitVec::len`: the number of bits held.
#[verifier::external_body]
fn bitvec_len(v: &MsbBits) -> (n: usize)
    ensures
        n == held_bits(*v).len(),
{
    v.inner.len()
}

/// `BitVec::resize`: truncates to `new_len` bits, or extends to it with copies of `value`.
#[verifier::external_body]
fn bitvec_resize(v: &mut MsbBits, new_len: usize, value: bool)
    requires
        new_len <= usize::MAX / 8,
    ensures
        held_bits(*final(v)) == (if new_len <= held_bits(*old(v)).len() {
            held_bits(*old(v)).take(new_len as int)
        } else {
            held_bits(*old(v)) + Seq::new((new_len - held_bits(*old(v)).len()) as nat, |i: int| value)
        }),
{
    v.inner.resize(new_len, value)
}

/// `BitVec::clear`: removes every bit.
#[verifier::external_body]
fn bitvec_clear(v: &mut MsbBits)
    ensures
        held_bits(*final(v)) == Seq::<bool>::empty(),
{
    v.inner.clear()
}

/// `BitVec::as_raw_slice`, copied out: the bytes under the bits. With most-significant-bit
/// ordering, bit `i` is bit `7 - i % 8` of byte `i / 8`; for a whole number of bytes these are
/// exactly the bytes that hold the bits.
#[verifier::external_body]
fn bitvec_raw_bytes(v: &MsbBits) -> (bytes: Vec<u8>)
    requires
        held_bits(*v).len() % 8 == 0,
    ensures
        bytes@ == pack_bits(held_bits(*v)),
{
    v.inner.as_raw_slice().to_vec()
}

/// The byte whose bits, most significant first, are `b[0]` to `b[7]`.
pub open spec fn byte_of_bits(b: Seq<bool>) -> u8 {
    (if b[0] { 0x80u8 } else { 0u8 }) | (if b[1] { 0x40u8 } else { 0u8 }) | (if b[2] {
        0x20u8
    } else {
        0u8
    }) | (if b[3] { 0x10u8 } else { 0u8 }) | (if b[4] { 0x08u8 } else { 0u8 }) | (if b[5] {
        0x04u8
    } else {
        0u8
    }) | (if b[6] { 0x02u8 } else { 0u8 }) | (if b[7] { 0x01u8 } else { 0u8 })
}

/// Packs a whole number of bytes' worth of bits into bytes, most significant bit first.
pub open spec fn pack_bits(bits: Seq<bool>) -> Seq<u8> {
    Seq::new(bits.len() / 8, |i: int| byte_of_bits(bits.subrange(8 * i, 8 * i + 8)))
}

/// Bit `i` (counting from the most significant, 0-based) of the `width`-bit value `data`.
pub open spec fn bit_of(data: u32, width: nat, i: int) -> bool {
    (data >> ((width - 1 - i) as u32)) & 1u32 == 1u32
}

/// The low `width` bits of `data`, most significant first.
pub open spec fn low_bits(data: u32, width: nat) -> Seq<bool> {
    Seq::new(width, |i: int| bit_of(data, width, i))
}

/// Appends bit fields, most significant bit first, to a block of a fixed number of bits, and
/// packs the block into bytes.
pub struct BitVecAppender {
    bits: MsbBits,
    block_size_in_bits: usize,
}

impl BitVecAppender {
    /// The bits appended so far.
    pub closed spec fn bits(&self) -> Seq<bool> {
        held_bits(self.bits)
    }

    /// The size of the block, in bits.
    pub closed spec fn block_size(&self) -> nat {
        self.block_size_in_bits as nat
    }

    /// The appended bits fit the block, whose size is a positive whole number of bytes.
    pub closed spec fn well_formed(&self) -> bool {
        &&& self.block_size_in_bits > 0
        &&& self.block_size_in_bits % 8 == 0
        &&& self.block_size_in_bits <= usize::MAX / 8
        &&& held_bits(self.bits).len() <= self.block_size_in_bits
    }

    /// An empty appender for a block of `block_size_in_bits` bits.
    pub fn new(block_size_in_bits: usize) -> (appender: Self)
        requires
            block_size_in_bits > 0,
            block_size_in_bits % 8 == 0,
            block_size_in_bits <= usize::MAX / 8,
        ensures
            appender.well_formed(),
            appender.bits() == Seq::<bool>::empty(),
            appender.block_size() == block_size_in_bits,
    {
        let bit_vec = bitvec_with_capacity(block_size_in_bits);
        Self { bits: bit_vec, block_size_in_bits }
    }

    fn size(&self) -> (n: usize)
        ensures
            n == self.bits().len(),
    {
        bitvec_len(&self.bits)
    }

    /// Appends the low `num_bits` bits of `data`, of which `max_bits` are significant.
    fn pack_data_bits(&mut self, data: u32, num_bits: usize, max_bits: usize)
        requires
            old(self).well_formed(),
            num_bits <= max_bits <= 32,
            old(self).bits().len() + num_bits <= old(self).block_size(),
        ensures
            final(self).well_formed(),
            final(self).block_size() == old(self).block_size(),
            final(self).bits() == old(self).bits() + low_bits(data, num_bits as nat),
    {
        let ghost start = self.bits();
        let mut i: usize = 0;
        while i < num_bits
            invariant
                self.well_formed(),
                self.block_size() == old(self).block_size(),
                i <= num_bits <= 32,
                start.len() + num_bits <= self.block_size(),
                self.bits() == start + low_bits(data, num_bits as nat).take(i as int),
            decreases num_bits - i,
        {
            let shift = (num_bits - 1 - i) as u32;
            let bit = (data >> shift) & 1 == 1;
            bitvec_push(&mut self.bits, bit);
            assert(low_bits(data, num_bits as nat).take(i + 1) =~= low_bits(
                data,
                num_bits as nat,
            ).take(i as int).push(bit));
            i += 1;
        }
        assert(low_bits(data, num_bits as nat).take(num_bits as int) =~= low_bits(
            data,
            num_bits as nat,
        ));
    }

    /// Appends the low `num_bits` bits of a byte, most significant first.
    pub fn add_8_bits(&mut self, data: u8, num_bits: usize)
        requires
            old(self).well_formed(),
            num_bits <= 8,
            old(self).bits().len() + num_bits <= old(self).block_size(),
        ensures
            final(self).well_formed(),
            final(self).block_size() == old(self).block_size(),
            final(self).bits() == old(self).bits() + low_bits(data as u32, num_bits as nat),
    {
        self.pack_data_bits(data as u32, num_bits, 8);
    }

    /// Appends the low `num_bits` bits of a 16-bit word, most significant first.
    pub fn add_16_bits(&mut self, data: u16, num_bits: usize)
        requires
            old(self).well_formed(),
            num_bits <= 16,
            old(self).bits().len() + num_bits <= old(self).block_size(),
        ensures
            final(self).well_formed(),
            final(self).block_size() == old(self).block_size(),
            final(self).bits() == old(self).bits() + low_bits(data as u32, num_bits as nat),
    {
        self.pack_data_bits(data as u32, num_bits, 16);
    }

    /// Appends the low `num_bits` bits of a 32-bit word, most significant first.
    pub fn add_32_bits(&mut self, data: u32, num_bits: usize)
        requires
            old(self).well_formed(),
            num_bits <= 32,
            old(self).bits().len() + num_bits <= old(self).block_size(),
        ensures
            final(self).well_formed(),
            final(self).block_size() == old(self).block_size(),
            final(self).bits() == old(self).bits() + low_bits(data, num_bits as nat),
    {
        self.pack_data_bits(data, num_bits, 32);
    }

    /// Appends one bit.
    pub fn add_bool(&mut self, data: bool)
        requires
            old(self).well_formed(),
            old(self).bits().len() + 1 <= old(self).block_size(),
        ensures
            final(self).well_formed(),
            final(self).block_size() == old(self).block_size(),
            final(self).bits() == old(self).bits().push(data),
    {
        bitvec_push(&mut self.bits, data);
    }

    /// Appends the 14 bits of a CRC, most significant first.
    pub fn append_crc(&mut self, word: CRC)
        requires
            old(self).well_formed(),
            old(self).bits().len() + 14 <= old(self).block_size(),
        ensures
            final(self).well_formed(),
            final(self).block_size() == old(self).block_size(),
            final(self).bits() == old(self).bits() + low_bits(word as u32, 14),
    {
        let ghost start = self.bits();
        let mut store: u16 = word << 2u16; // skip the 2 most significant bits
        let mut i: usize = 0;
        assert(store == store << 0u16) by (bit_vector);
        while i < 14
            invariant
                self.well_formed(),
                self.block_size() == old(self).block_size(),
                i <= 14,
                start.len() + 14 <= self.block_size(),
                store == (word << 2u16) << (i as u16),
                self.bits() == start + low_bits(word as u32, 14).take(i as int),
            decreases 14 - i,
        {
            let bit = store & 0x8000 == 0x8000;
            proof {
                let k = i as u16;
                assert(k < 14 ==> ((((word << 2u16) << k) & 0x8000u16 == 0x8000u16) == (((word
                    as u32) >> ((13 - k) as u32)) & 1u32 == 1u32))) by (bit_vector);
            }
            self.add_bool(bit);
            proof {
                let k = i as u16;
                assert(((word << 2u16) << k) << 1u16 == (word << 2u16) << ((k + 1) as u16))
                    by (bit_vector)
                    requires
                        k < 14,
                ;
            }
            store <<= 1u16;
            assert(low_bits(word as u32, 14).take(i + 1) =~= low_bits(word as u32, 14).take(
                i as int,
            ).push(bit));
            i += 1;
        }
        assert(low_bits(word as u32, 14).take(14) =~= low_bits(word as u32, 14));
    }

    /// The block as bytes: the appended bits, padded with zero bits to the block size. The
    /// appender is then empty again.
    pub fn build(&mut self) -> (out: Vec<u8>)
        requires
            old(self).well_formed(),
        ensures
            final(self).well_formed(),
            final(self).block_size() == old(self).block_size(),
            final(self).bits() == Seq::<bool>::empty(),
            out@ == pack_bits(
                old(self).bits() + Seq::new(
                    (old(self).block_size() - old(self).bits().len()) as nat,
                    |i: int| false,
                ),
            ),
            out@.len() == old(self).block_size() / 8,
    {
        // Extend the bits to the block size with zero bits.
        bitvec_resize(&mut self.bits, self.block_size_in_bits, false);
        let out = bitvec_raw_bytes(&self.bits);
        bitvec_clear(&mut self.bits);
        out
    }
}

/// The bits of a sequence of bytes, each byte most significant bit first.
pub open spec fn bits_of_bytes(bytes: Seq<u8>) -> Seq<bool>
    decreases bytes.len(),
{
    if bytes.len() == 0 {
        Seq::empty()
    } else {
        bits_of_bytes(bytes.drop_last()) + low_bits(bytes.last() as u32, 8)
    }
}

/// The byte after the source data in a packed message: the two flags, then the top six of the
/// CRC's fourteen bits.
pub open spec fn flags_and_crc_high_byte(unused_flag_1: bool, unused_flag_2: bool, crc: CRC) -> u8 {
    (if unused_flag_1 { 0x80u8 } else { 0u8 }) | (if unused_flag_2 { 0x40u8 } else { 0u8 }) | ((
    crc >> 8u16) & 0x3fu16) as u8
}

/// A packed message: the 14 bytes (112 bits) of source encoding, two flag bits, and the
/// 14-bit CRC, in 16 bytes (128 bits).
pub open spec fn packed_message(
    source_encoding: Seq<u8>,
    unused_flag_1: bool,
    unused_flag_2: bool,
    crc: CRC,
) -> Seq<u8> {
    source_encoding + seq![
        flags_and_crc_high_byte(unused_flag_1, unused_flag_2, crc),
        (crc & 0xffu16) as u8,
    ]
}

proof fn lemma_bits_of_bytes(bytes: Seq<u8>)
    ensures
        bits_of_bytes(bytes).len() == 8 * bytes.len(),
        forall|i: int, j: int|
            0 <= i < bytes.len() && 0 <= j < 8 ==> #[trigger] bits_of_bytes(bytes)[8 * i + j]
                == bit_of(bytes[i] as u32, 8, j),
    decreases bytes.len(),
{
    if bytes.len() > 0 {
        lemma_bits_of_bytes(bytes.drop_last());
        assert forall|i: int, j: int| 0 <= i < bytes.len() && 0 <= j < 8 implies #[trigger] bits_of_bytes(
            bytes,
        )[8 * i + j] == bit_of(bytes[i] as u32, 8, j) by {
            if i < bytes.len() - 1 {
                assert(bytes.drop_last()[i] == bytes[i]);
            }
        }
    }
}

proof fn lemma_byte_of_low_bits(x: u8)
    ensures
        byte_of_bits(low_bits(x as u32, 8)) == x,
{
    let v = x as u32;
    assert(byte_of_bits(low_bits(v, 8)) == (if (v >> 7u32) & 1u32 == 1u32 { 0x80u8 } else { 0u8 }) | (
    if (v >> 6u32) & 1u32 == 1u32 { 0x40u8 } else { 0u8 }) | (if (v >> 5u32) & 1u32 == 1u32 {
        0x20u8
    } else {
        0u8
    }) | (if (v >> 4u32) & 1u32 == 1u32 { 0x10u8 } else { 0u8 }) | (if (v >> 3u32) & 1u32 == 1u32 {
        0x08u8
    } else {
        0u8
    }) | (if (v >> 2u32) & 1u32 == 1u32 { 0x04u8 } else { 0u8 }) | (if (v >> 1u32) & 1u32 == 1u32 {
        0x02u8
    } else {
        0u8
    }) | (if (v >> 0u32) & 1u32 == 1u32 { 0x01u8 } else { 0u8 }));
    assert(((if (v >> 7u32) & 1u32 == 1u32 { 0x80u8 } else { 0u8 }) | (if (v >> 6u32) & 1u32 == 1u32 {
        0x40u8
    } else {
        0u8
    }) | (if (v >> 5u32) & 1u32 == 1u32 { 0x20u8 } else { 0u8 }) | (if (v >> 4u32) & 1u32 == 1u32 {
        0x10u8
    } else {
        0u8
    }) | (if (v >> 3u32) & 1u32 == 1u32 { 0x08u8 } else { 0u8 }) | (if (v >> 2u32) & 1u32 == 1u32 {
        0x04u8
    } else {
        0u8
    }) | (if (v >> 1u32) & 1u32 == 1u32 { 0x02u8 } else { 0u8 }) | (if (v >> 0u32) & 1u32 == 1u32 {
        0x01u8
    } else {
        0u8
    })) == x) by (bit_vector)
        requires
            v == x as u32,
    ;
}

proof fn lemma_packed_tail(unused_flag_1: bool, unused_flag_2: bool, crc: CRC)
    ensures
        ({
            let tail = seq![unused_flag_1, unused_flag_2] + low_bits(crc as u32, 14);
            &&& byte_of_bits(tail.subrange(0, 8)) == flags_and_crc_high_byte(
                unused_flag_1,
                unused_flag_2,
                crc,
            )
            &&& byte_of_bits(tail.subrange(8, 16)) == (crc & 0xffu16) as u8
        }),
{
    let tail = seq![unused_flag_1, unused_flag_2] + low_bits(crc as u32, 14);
    let c = crc as u32;
    let a = tail.subrange(0, 8);
    let b = tail.subrange(8, 16);
    assert(a[0] == unused_flag_1 && a[1] == unused_flag_2);
    assert(a[2] == bit_of(c, 14, 0) && a[3] == bit_of(c, 14, 1) && a[4] == bit_of(c, 14, 2) && a[5]
        == bit_of(c, 14, 3) && a[6] == bit_of(c, 14, 4) && a[7] == bit_of(c, 14, 5));
    assert(b[0] == bit_of(c, 14, 6) && b[1] == bit_of(c, 14, 7) && b[2] == bit_of(c, 14, 8) && b[3]
        == bit_of(c, 14, 9) && b[4] == bit_of(c, 14, 10) && b[5] == bit_of(c, 14, 11) && b[6]
        == bit_of(c, 14, 12) && b[7] == bit_of(c, 14, 13));
    let f1 = unused_flag_1;
    let f2 = unused_flag_2;
    assert(((if f1 { 0x80u8 } else { 0u8 }) | (if f2 { 0x40u8 } else { 0u8 }) | (if (c >> 13u32)
        & 1u32 == 1u32 { 0x20u8 } else { 0u8 }) | (if (c >> 12u32) & 1u32 == 1u32 {
        0x10u8
    } else {
        0u8
    }) | (if (c >> 11u32) & 1u32 == 1u32 { 0x08u8 } else { 0u8 }) | (if (c >> 10u32) & 1u32 == 1u32 {
        0x04u8
    } else {
        0u8
    }) | (if (c >> 9u32) & 1u32 == 1u32 { 0x02u8 } else { 0u8 }) | (if (c >> 8u32) & 1u32 == 1u32 {
        0x01u8
    } else {
        0u8
    })) == (if f1 { 0x80u8 } else { 0u8 }) | (if f2 { 0x40u8 } else { 0u8 }) | ((crc >> 8u16)
        & 0x3fu16) as u8) by (bit_vector)
        requires
            c == crc as u32,
    ;
    assert(((if (c >> 7u32) & 1u32 == 1u32 { 0x80u8 } else { 0u8 }) | (if (c >> 6u32) & 1u32 == 1u32 {
        0x40u8
    } else {
        0u8
    }) | (if (c >> 5u32) & 1u32 == 1u32 { 0x20u8 } else { 0u8 }) | (if (c >> 4u32) & 1u32 == 1u32 {
        0x10u8
    } else {
        0u8
    }) | (if (c >> 3u32) & 1u32 == 1u32 { 0x08u8 } else { 0u8 }) | (if (c >> 2u32) & 1u32 == 1u32 {
        0x04u8
    } else {
        0u8
    }) | (if (c >> 1u32) & 1u32 == 1u32 { 0x02u8 } else { 0u8 }) | (if (c >> 0u32) & 1u32 == 1u32 {
        0x01u8
    } else {
        0u8
    })) == (crc & 0xffu16) as u8) by (bit_vector)
        requires
            c == crc as u32,
    ;
}

/// Packs 112 bits of source encoded data, 2 spare flag bits and the 14 bits of a CRC into a
/// 128-bit (16 byte) message.
pub fn pack_message(
    source_encoding: &Vec<u8>,
    unused_flag_1: bool,
    unused_flag_2: bool,
    crc: CRC,
) -> (packed: Vec<u8>)
    requires
        source_encoding.len() == 14,
    ensures
        packed@ == packed_message(source_encoding@, unused_flag_1, unused_flag_2, crc),
{
    let mut appender = BitVecAppender::new(128);
    let mut i: usize = 0;
    while i < source_encoding.len()
        invariant
            source_encoding.len() == 14,
            i <= 14,
            appender.well_formed(),
            appender.block_size() == 128,
            appender.bits() == bits_of_bytes(source_encoding@.take(i as int)),
        decreases 14 - i,
    {
        proof {
            lemma_bits_of_bytes(source_encoding@.take(i as int));
        }
        appender.add_8_bits(source_encoding[i], 8);
        assert(source_encoding@.take(i + 1).drop_last() =~= source_encoding@.take(i as int));
        i += 1;
    }
    proof {
        lemma_bits_of_bytes(source_encoding@.take(14));
    }
    appender.add_bool(unused_flag_1);
    appender.add_bool(unused_flag_2);
    appender.append_crc(crc);
    let ghost bits = appender.bits();
    let packed = appender.build();
    proof {
        let m = source_encoding@;
        assert(m.take(14) =~= m);
        lemma_bits_of_bytes(m);
        let tail = seq![unused_flag_1, unused_flag_2] + low_bits(crc as u32, 14);
        assert(bits =~= bits_of_bytes(m) + tail);
        let all = bits + Seq::new(0, |i: int| false);
        assert(all =~= bits);
        assert forall|i: int| 0 <= i < 14 implies #[trigger] byte_of_bits(bits.subrange(8 * i, 8 * i + 8))
            == m[i] by {
            assert forall|j: int| 0 <= j < 8 implies #[trigger] bits.subrange(8 * i, 8 * i + 8)[j]
                == low_bits(m[i] as u32, 8)[j] by {
                assert(bits[8 * i + j] == bits_of_bytes(m)[8 * i + j]);
            }
            assert(bits.subrange(8 * i, 8 * i + 8) =~= low_bits(m[i] as u32, 8));
            lemma_byte_of_low_bits(m[i]);
        }
        lemma_packed_tail(unused_flag_1, unused_flag_2, crc);
        assert(bits.subrange(112, 120) =~= tail.subrange(0, 8));
        assert(bits.subrange(120, 128) =~= tail.subrange(8, 16));
        assert(packed@ =~= packed_message(m, unused_flag_1, unused_flag_2, crc));
    }
    packed
}

/// Unpacks a packed message into its source encoded data, its two flags and its CRC.
pub fn unpack_message(packed_message: &Vec<u8>) -> (unpacked: (Vec<u8>, bool, bool, CRC))
    requires
        packed_message.len() >= 16,
    ensures
        unpacked.0@ == packed_message@.subrange(0, 14),
        unpacked.1 == (packed_message@[14] & 0x80u8 == 0x80u8),
        unpacked.2 == (packed_message@[14] & 0x40u8 == 0x40u8),
        unpacked.3 == ((((packed_message@[14] as u16) << 8u16) | (packed_message@[15] as u16))
            & 0x3fffu16),
{
    let mut message: Vec<u8> = Vec::with_capacity(14);
    let mut i: usize = 0;
    while i < 14
        invariant
            i <= 14,
            packed_message.len() >= 16,
            message@ == packed_message@.subrange(0, i as int),
        decreases 14 - i,
    {
        message.push(packed_message[i]);
        assert(message@ =~= packed_message@.subrange(0, i + 1));
        i += 1;
    }
    let crc_msb = packed_message[14] as u16;
    let crc_lsb = packed_message[15] as u16;
    let unused_flags_and_crc: u16 = (crc_msb << 8u16) | crc_lsb;
    let unused_flag_1 = unused_flags_and_crc & 0x8000 == 0x8000;
    let unused_flag_2 = unused_flags_and_crc & 0x4000 == 0x4000;
    proof {
        let b = packed_message@[14];
        let l = packed_message@[15];
        assert(((((b as u16) << 8u16) | (l as u16)) & 0x8000u16 == 0x8000u16) == (b & 0x80u8
            == 0x80u8)) by (bit_vector);
        assert(((((b as u16) << 8u16) | (l as u16)) & 0x4000u16 == 0x4000u16) == (b & 0x40u8
            == 0x40u8)) by (bit_vector);
    }
    (message, unused_flag_1, unused_flag_2, unused_flags_and_crc & 0x3fff)
}

/// Unpacking a packed message gives back what was packed, the CRC cut to its 14 bits.
pub proof fn lemma_unpack_inverts_pack(
    source_encoding: Seq<u8>,
    unused_flag_1: bool,
    unused_flag_2: bool,
    crc: CRC,
)
    requires
        source_encoding.len() == 14,
    ensures
        ({
            let p = packed_message(source_encoding, unused_flag_1, unused_flag_2, crc);
            &&& p.len() == 16
            &&& p.subrange(0, 14) == source_encoding
            &&& (p[14] & 0x80u8 == 0x80u8) == unused_flag_1
            &&& (p[14] & 0x40u8 == 0x40u8) == unused_flag_2
            &&& ((((p[14] as u16) << 8u16) | (p[15] as u16)) & 0x3fffu16) == crc & 0x3fffu16
        }),
{
    let p = packed_message(source_encoding, unused_flag_1, unused_flag_2, crc);
    assert(p.subrange(0, 14) =~= source_encoding);
    let f1 = unused_flag_1;
    let f2 = unused_flag_2;
    assert({
        let h = (if f1 { 0x80u8 } else { 0u8 }) | (if f2 { 0x40u8 } else { 0u8 }) | ((crc >> 8u16)
            & 0x3fu16) as u8;
        let l = (crc & 0xffu16) as u8;
        &&& (h & 0x80u8 == 0x80u8) == f1
        &&& (h & 0x40u8 == 0x40u8) == f2
        &&& ((((h as u16) << 8u16) | (l as u16)) & 0x3fffu16) == crc & 0x3fffu16
    }) by (bit_vector);
}

/// Packing the parts of an unpacked 16-byte message gives back that message.
pub proof fn lemma_pack_inverts_unpack(packed: Seq<u8>)
    requires
        packed.len() == 16,
    ensures
        packed_message(
            packed.subrange(0, 14),
            packed[14] & 0x80u8 == 0x80u8,
            packed[14] & 0x40u8 == 0x40u8,
            (((packed[14] as u16) << 8u16) | (packed[15] as u16)) & 0x3fffu16,
        ) == packed,
{
    let h = packed[14];
    let l = packed[15];
    assert({
        let c = (((h as u16) << 8u16) | (l as u16)) & 0x3fffu16;
        &&& (if h & 0x80u8 == 0x80u8 { 0x80u8 } else { 0u8 }) | (if h & 0x40u8 == 0x40u8 {
            0x40u8
        } else {
            0u8
        }) | ((c >> 8u16) & 0x3fu16) as u8 == h
        &&& (c & 0xffu16) as u8 == l
    }) by (bit_vector);
    assert(packed_message(
        packed.subrange(0, 14),
        packed[14] & 0x80u8 == 0x80u8,
        packed[14] & 0x40u8 == 0x40u8,
        (((packed[14] as u16) << 8u16) | (packed[15] as u16)) & 0x3fffu16,
    ) =~= packed);
}

/// The 256-bit (32 byte) codeword of the (256, 128) TC256 LDPC code for a 128-bit message.
pub uninterp spec fn tc256_codeword(message: Seq<u8>) -> Seq<u8>;

/// The outcome of the TC256 bit-flipping decoder, run for at most 1024 iterations on a 32-byte
/// input: whether it succeeded, and its 32-byte output.
pub uninterp spec fn tc256_bit_flip_decode(input: Seq<u8>) -> (bool, Seq<u8>);

/// `labrador_ldpc::LDPCCode::copy_encode` for the TC256 code: the message is copied into the
/// first 16 bytes of the codeword and the 16 parity bytes are computed after it. The parity
/// itself is not stated; it is named.
#[verifier::external_body]
fn tc256_copy_encode(message: &Vec<u8>) -> (codeword: Vec<u8>)
    requires
        message.len() == 16,
    ensures
        codeword@ == tc256_codeword(message@),
        codeword@.len() == 32,
        codeword@.subrange(0, 16) == message@,
{
    let mut codeword = vec![0u8; 32];
    LDPCCode::TC256.copy_encode(message, &mut codeword);
    codeword
}

/// `labrador_ldpc::LDPCCode::decode_bf` for the TC256 code, with at most 1024 iterations. Its
/// outcome is named. The decoder copies its input to its output and stops at once, successful,
/// when no parity check fails, as for a codeword that the encoder produced; that is stated.
#[verifier::external_body]
fn tc256_decode_bf(codeword: &Vec<u8>) -> (outcome: (bool, Vec<u8>))
    requires
        codeword.len() == 32,
    ensures
        (outcome.0, outcome.1@) == tc256_bit_flip_decode(codeword@),
        outcome.1@.len() == 32,
        codeword@ == tc256_codeword(codeword@.subrange(0, 16)) ==> outcome.0 && outcome.1@
            == codeword@,
{
    let mut working = vec![0u8; LDPCCode::TC256.decode_bf_working_len()];
    let mut decoded = vec![0u8; LDPCCode::TC256.output_len()];
    let (success, _iterations) = LDPCCode::TC256.decode_bf(codeword, &mut decoded, &mut working, 1024);
    (success, decoded)
}

/// Encodes a 128-bit (16 byte) packed message into a 256-bit (32 byte) codeword: the message,
/// then its parity.
pub fn encode_packed_message(packed_message: &Vec<u8>) -> (code_word: Vec<u8>)
    requires
        packed_message.len() == 16,
    ensures
        code_word@ == tc256_codeword(packed_message@),
        code_word@.len() == 32,
        code_word@.subrange(0, 16) == packed_message@,
{
    tc256_copy_encode(packed_message)
}

/// Decodes 256 bits (32 bytes) of a possible codeword; on success, the first 128 bits (16
/// bytes) of the result are the packed message.
pub fn decode_codeword(codeword: &Vec<u8>) -> (decoded: Option<Vec<u8>>)
    requires
        codeword.len() == 32,
    ensures
        decoded is Some <==> tc256_bit_flip_decode(codeword@).0,
        decoded matches Some(d) ==> d@ == tc256_bit_flip_decode(codeword@).1,
        codeword@ == tc256_codeword(codeword@.subrange(0, 16)) ==> (decoded matches Some(d) && d@
            == codeword@),
{
    let (success, decoded) = tc256_decode_bf(codeword);
    if success {
        Some(decoded)
    } else {
        None
    }
}

} // verus!
