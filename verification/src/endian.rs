//! Little- and big-endian integer decoding from byte sequences.
//!
//! Every multi-byte field of a telemetry record is read through these
//! helpers; the spec functions are the mathematical meaning of the byte
//! layout, and the executable readers are proved against them.

use vstd::prelude::*;

verus! {

/// A 16-bit value from two little-endian bytes.
pub open spec fn u16_le(s: Seq<u8>) -> u16
    recommends
        s.len() == 2,
{
    (s[0] as u16) | ((s[1] as u16) << 8)
}

/// A 16-bit value from two big-endian bytes.
pub open spec fn u16_be(s: Seq<u8>) -> u16
    recommends
        s.len() == 2,
{
    ((s[0] as u16) << 8) | (s[1] as u16)
}

/// A 32-bit value from four little-endian bytes.
pub open spec fn u32_le(s: Seq<u8>) -> u32
    recommends
        s.len() == 4,
{
    (s[0] as u32) | ((s[1] as u32) << 8) | ((s[2] as u32) << 16) | ((s[3] as u32) << 24)
}

/// A 32-bit value from four big-endian bytes.
pub open spec fn u32_be(s: Seq<u8>) -> u32
    recommends
        s.len() == 4,
{
    ((s[0] as u32) << 24) | ((s[1] as u32) << 16) | ((s[2] as u32) << 8) | (s[3] as u32)
}

/// A 64-bit value from eight little-endian bytes.
pub open spec fn u64_le(s: Seq<u8>) -> u64
    recommends
        s.len() == 8,
{
    (s[0] as u64) | ((s[1] as u64) << 8) | ((s[2] as u64) << 16) | ((s[3] as u64) << 24)
        | ((s[4] as u64) << 32) | ((s[5] as u64) << 40) | ((s[6] as u64) << 48)
        | ((s[7] as u64) << 56)
}

/// A 64-bit value from eight big-endian bytes.
pub open spec fn u64_be(s: Seq<u8>) -> u64
    recommends
        s.len() == 8,
{
    ((s[0] as u64) << 56) | ((s[1] as u64) << 48) | ((s[2] as u64) << 40)
        | ((s[3] as u64) << 32) | ((s[4] as u64) << 24) | ((s[5] as u64) << 16)
        | ((s[6] as u64) << 8) | (s[7] as u64)
}

/// A 16-bit field at `off`, big- or little-endian by `big`.
pub open spec fn u16_at(data: Seq<u8>, off: int, big: bool) -> u16
    recommends
        0 <= off,
        off + 2 <= data.len(),
{
    if big {
        u16_be(data.subrange(off, off + 2))
    } else {
        u16_le(data.subrange(off, off + 2))
    }
}

/// A 32-bit field at `off`, big- or little-endian by `big`.
pub open spec fn u32_at(data: Seq<u8>, off: int, big: bool) -> u32
    recommends
        0 <= off,
        off + 4 <= data.len(),
{
    if big {
        u32_be(data.subrange(off, off + 4))
    } else {
        u32_le(data.subrange(off, off + 4))
    }
}

/// A 64-bit field at `off`, big- or little-endian by `big`.
pub open spec fn u64_at(data: Seq<u8>, off: int, big: bool) -> u64
    recommends
        0 <= off,
        off + 8 <= data.len(),
{
    if big {
        u64_be(data.subrange(off, off + 8))
    } else {
        u64_le(data.subrange(off, off + 8))
    }
}

/// The signed reinterpretation of a 16-bit pattern (two's complement).
pub open spec fn i16_of_bits(x: u16) -> i16 {
    if x < 0x8000 {
        x as i16
    } else {
        (x - 0x10000) as i16
    }
}

/// The 16-bit pattern of a signed value (two's complement).
pub open spec fn bits_of_i16(x: i16) -> u16 {
    if x >= 0 {
        x as u16
    } else {
        (x + 0x10000) as u16
    }
}

/// The two bytes of a 16-bit value in the order selected by `big`.
pub open spec fn u16_bytes(x: u16, big: bool) -> Seq<u8> {
    if big {
        seq![((x >> 8) & 0xff) as u8, (x & 0xff) as u8]
    } else {
        seq![(x & 0xff) as u8, ((x >> 8) & 0xff) as u8]
    }
}

/// The four bytes of a 32-bit value in the order selected by `big`.
pub open spec fn u32_bytes(x: u32, big: bool) -> Seq<u8> {
    if big {
        seq![
            ((x >> 24) & 0xff) as u8,
            ((x >> 16) & 0xff) as u8,
            ((x >> 8) & 0xff) as u8,
            (x & 0xff) as u8,
        ]
    } else {
        seq![
            (x & 0xff) as u8,
            ((x >> 8) & 0xff) as u8,
            ((x >> 16) & 0xff) as u8,
            ((x >> 24) & 0xff) as u8,
        ]
    }
}

/// The eight bytes of a 64-bit value in the order selected by `big`.
pub open spec fn u64_bytes(x: u64, big: bool) -> Seq<u8> {
    if big {
        seq![
            ((x >> 56) & 0xff) as u8,
            ((x >> 48) & 0xff) as u8,
            ((x >> 40) & 0xff) as u8,
            ((x >> 32) & 0xff) as u8,
            ((x >> 24) & 0xff) as u8,
            ((x >> 16) & 0xff) as u8,
            ((x >> 8) & 0xff) as u8,
            (x & 0xff) as u8,
        ]
    } else {
        seq![
            (x & 0xff) as u8,
            ((x >> 8) & 0xff) as u8,
            ((x >> 16) & 0xff) as u8,
            ((x >> 24) & 0xff) as u8,
            ((x >> 32) & 0xff) as u8,
            ((x >> 40) & 0xff) as u8,
            ((x >> 48) & 0xff) as u8,
            ((x >> 56) & 0xff) as u8,
        ]
    }
}

/// Decoding the two bytes of a 16-bit value under the byte order they
/// were produced with gives the value back.
pub proof fn lemma_u16_round_trip(x: u16, big: bool)
    ensures
        u16_bytes(x, big).len() == 2,
        u16_at(u16_bytes(x, big), 0, big) == x,
{
    let s = u16_bytes(x, big);
    assert(s.subrange(0, 2) =~= s);
    let lo = (x & 0xff) as u8;
    let hi = ((x >> 8) & 0xff) as u8;
    assert((lo as u16) | ((hi as u16) << 8) == x) by (bit_vector)
        requires
            lo == (x & 0xff) as u8,
            hi == ((x >> 8) & 0xff) as u8,
    ;
    assert(((hi as u16) << 8) | (lo as u16) == x) by (bit_vector)
        requires
            lo == (x & 0xff) as u8,
            hi == ((x >> 8) & 0xff) as u8,
    ;
}

/// Decoding the four bytes of a 32-bit value under the byte order they
/// were produced with gives the value back.
pub proof fn lemma_u32_round_trip(x: u32, big: bool)
    ensures
        u32_bytes(x, big).len() == 4,
        u32_at(u32_bytes(x, big), 0, big) == x,
{
    let s = u32_bytes(x, big);
    assert(s.subrange(0, 4) =~= s);
    let b0 = (x & 0xff) as u8;
    let b1 = ((x >> 8) & 0xff) as u8;
    let b2 = ((x >> 16) & 0xff) as u8;
    let b3 = ((x >> 24) & 0xff) as u8;
    assert((b0 as u32) | ((b1 as u32) << 8) | ((b2 as u32) << 16) | ((b3 as u32) << 24)
        == x) by (bit_vector)
        requires
            b0 == (x & 0xff) as u8,
            b1 == ((x >> 8) & 0xff) as u8,
            b2 == ((x >> 16) & 0xff) as u8,
            b3 == ((x >> 24) & 0xff) as u8,
    ;
    assert(((b3 as u32) << 24) | ((b2 as u32) << 16) | ((b1 as u32) << 8) | (b0 as u32)
        == x) by (bit_vector)
        requires
            b0 == (x & 0xff) as u8,
            b1 == ((x >> 8) & 0xff) as u8,
            b2 == ((x >> 16) & 0xff) as u8,
            b3 == ((x >> 24) & 0xff) as u8,
    ;
}

/// Decoding the eight bytes of a 64-bit value under the byte order they
/// were produced with gives the value back.
pub proof fn lemma_u64_round_trip(x: u64, big: bool)
    ensures
        u64_bytes(x, big).len() == 8,
        u64_at(u64_bytes(x, big), 0, big) == x,
{
    let s = u64_bytes(x, big);
    assert(s.subrange(0, 8) =~= s);
    let b0 = (x & 0xff) as u8;
    let b1 = ((x >> 8) & 0xff) as u8;
    let b2 = ((x >> 16) & 0xff) as u8;
    let b3 = ((x >> 24) & 0xff) as u8;
    let b4 = ((x >> 32) & 0xff) as u8;
    let b5 = ((x >> 40) & 0xff) as u8;
    let b6 = ((x >> 48) & 0xff) as u8;
    let b7 = ((x >> 56) & 0xff) as u8;
    assert((b0 as u64) | ((b1 as u64) << 8) | ((b2 as u64) << 16) | ((b3 as u64) << 24)
        | ((b4 as u64) << 32) | ((b5 as u64) << 40) | ((b6 as u64) << 48)
        | ((b7 as u64) << 56) == x) by (bit_vector)
        requires
            b0 == (x & 0xff) as u8,
            b1 == ((x >> 8) & 0xff) as u8,
            b2 == ((x >> 16) & 0xff) as u8,
            b3 == ((x >> 24) & 0xff) as u8,
            b4 == ((x >> 32) & 0xff) as u8,
            b5 == ((x >> 40) & 0xff) as u8,
            b6 == ((x >> 48) & 0xff) as u8,
            b7 == ((x >> 56) & 0xff) as u8,
    ;
    assert(((b7 as u64) << 56) | ((b6 as u64) << 48) | ((b5 as u64) << 40)
        | ((b4 as u64) << 32) | ((b3 as u64) << 24) | ((b2 as u64) << 16)
        | ((b1 as u64) << 8) | (b0 as u64) == x) by (bit_vector)
        requires
            b0 == (x & 0xff) as u8,
            b1 == ((x >> 8) & 0xff) as u8,
            b2 == ((x >> 16) & 0xff) as u8,
            b3 == ((x >> 24) & 0xff) as u8,
            b4 == ((x >> 32) & 0xff) as u8,
            b5 == ((x >> 40) & 0xff) as u8,
            b6 == ((x >> 48) & 0xff) as u8,
            b7 == ((x >> 56) & 0xff) as u8,
    ;
}

/// Read a 16-bit field at `off` with the byte order selected by `big`.
pub fn read_u16(data: &[u8], off: usize, big: bool) -> (r: u16)
    requires
        off + 2 <= data@.len(),
    ensures
        r == u16_at(data@, off as int, big),
{
    let b0 = data[off];
    let b1 = data[off + 1];
    proof {
        let s = data@.subrange(off as int, off as int + 2);
        assert(s[0] == data@[off as int]);
        assert(s[1] == data@[off as int + 1]);
    }
    if big {
        ((b0 as u16) << 8) | (b1 as u16)
    } else {
        (b0 as u16) | ((b1 as u16) << 8)
    }
}

/// Read a 32-bit field at `off` with the byte order selected by `big`.
pub fn read_u32(data: &[u8], off: usize, big: bool) -> (r: u32)
    requires
        off + 4 <= data@.len(),
    ensures
        r == u32_at(data@, off as int, big),
{
    let b0 = data[off];
    let b1 = data[off + 1];
    let b2 = data[off + 2];
    let b3 = data[off + 3];
    proof {
        let s = data@.subrange(off as int, off as int + 4);
        assert(s[0] == data@[off as int]);
        assert(s[1] == data@[off as int + 1]);
        assert(s[2] == data@[off as int + 2]);
        assert(s[3] == data@[off as int + 3]);
    }
    if big {
        ((b0 as u32) << 24) | ((b1 as u32) << 16) | ((b2 as u32) << 8) | (b3 as u32)
    } else {
        (b0 as u32) | ((b1 as u32) << 8) | ((b2 as u32) << 16) | ((b3 as u32) << 24)
    }
}

/// Read a 64-bit field at `off` with the byte order selected by `big`.
pub fn read_u64(data: &[u8], off: usize, big: bool) -> (r: u64)
    requires
        off + 8 <= data@.len(),
    ensures
        r == u64_at(data@, off as int, big),
{
    let b0 = data[off];
    let b1 = data[off + 1];
    let b2 = data[off + 2];
    let b3 = data[off + 3];
    let b4 = data[off + 4];
    let b5 = data[off + 5];
    let b6 = data[off + 6];
    let b7 = data[off + 7];
    proof {
        let s = data@.subrange(off as int, off as int + 8);
        assert(s[0] == data@[off as int]);
        assert(s[1] == data@[off as int + 1]);
        assert(s[2] == data@[off as int + 2]);
        assert(s[3] == data@[off as int + 3]);
        assert(s[4] == data@[off as int + 4]);
        assert(s[5] == data@[off as int + 5]);
        assert(s[6] == data@[off as int + 6]);
        assert(s[7] == data@[off as int + 7]);
    }
    if big {
        ((b0 as u64) << 56) | ((b1 as u64) << 48) | ((b2 as u64) << 40) | ((b3 as u64) << 32)
            | ((b4 as u64) << 24) | ((b5 as u64) << 16) | ((b6 as u64) << 8) | (b7 as u64)
    } else {
        (b0 as u64) | ((b1 as u64) << 8) | ((b2 as u64) << 16) | ((b3 as u64) << 24)
            | ((b4 as u64) << 32) | ((b5 as u64) << 40) | ((b6 as u64) << 48)
            | ((b7 as u64) << 56)
    }
}

/// Reinterpret a 16-bit pattern as a signed value.
pub fn to_i16(x: u16) -> (r: i16)
    ensures
        r == i16_of_bits(x),
{
    if x < 0x8000 {
        x as i16
    } else {
        let low = (0xffffu16 - x) as i16;
        -low - 1
    }
}

} // verus!
