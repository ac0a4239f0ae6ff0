//! Motion records: 24-byte entries of three axis values, a reserved
//! field and a timestamp.
//!
//! The axis fields are IEEE-754 single-precision values; they are kept
//! as their exact 32-bit patterns, so that decoding is a pure function
//! of the payload bytes.

use vstd::prelude::*;

use crate::endian::{
    lemma_u32_round_trip, lemma_u64_round_trip, read_u32, read_u64, u32_at, u32_bytes, u64_at,
    u64_bytes,
};
use crate::theta::rdt::{spec_header, spec_is_big, spec_known_endian, RdtBox};
use crate::ThetaError;

verus! {

/// One decoded motion record. `x`, `y`, `z` and `reserve` hold the raw
/// bit patterns of single-precision values.
#[derive(Clone, Copy, Debug, PartialEq, Eq, Structural)]
pub struct DataEntry {
    pub x: u32,
    pub y: u32,
    pub z: u32,
    pub reserve: u32,
    pub timestamp: u64,
}

/// The mathematical content of a decoded motion box.
#[verifier::ext_equal]
pub ghost struct RdtbView {
    pub base: RdtBox,
    pub entries: Seq<DataEntry>,
}

/// A decoded motion box: its header and its records in payload order.
#[derive(Debug, PartialEq)]
pub struct RdtbBox {
    pub base: RdtBox,
    pub data_table: Vec<DataEntry>,
}

impl View for RdtbBox {
    type V = RdtbView;

    open spec fn view(&self) -> RdtbView {
        RdtbView { base: self.base, entries: self.data_table@ }
    }
}

/// The record decoded from one 24-byte slice.
pub open spec fn spec_record(rec: Seq<u8>, big: bool) -> DataEntry
    recommends
        rec.len() == 24,
{
    DataEntry {
        x: u32_at(rec, 0, big),
        y: u32_at(rec, 4, big),
        z: u32_at(rec, 8, big),
        reserve: u32_at(rec, 12, big),
        timestamp: u64_at(rec, 16, big),
    }
}

/// What decoding a motion box payload yields, for every input.
pub open spec fn spec_read(data: Seq<u8>) -> Result<RdtbView, ThetaError> {
    if data.len() < 16 {
        Err(ThetaError::TruncatedHeader)
    } else {
        let h = spec_header(data, false);
        if !spec_known_endian(h.endian) {
            Err(ThetaError::UnknownEndianness)
        } else if 16 + 24 * (h.number_of_entries as int) > data.len() {
            Err(ThetaError::TruncatedPayload)
        } else {
            Ok(
                RdtbView {
                    base: h,
                    entries: Seq::new(
                        h.number_of_entries as nat,
                        |i: int|
                            spec_record(
                                data.subrange(16 + 24 * i, 16 + 24 * i + 24),
                                spec_is_big(h.endian),
                            ),
                    ),
                },
            )
        }
    }
}

/// The view of a decode result.
pub open spec fn view_result(r: Result<RdtbBox, ThetaError>) -> Result<RdtbView, ThetaError> {
    match r {
        Ok(b) => Ok(b@),
        Err(e) => Err(e),
    }
}

impl RdtbBox {
    /// A copy of the decoded records, in payload order.
    pub fn get_entry(&self) -> (r: Vec<DataEntry>)
        ensures
            r@ == self.data_table@,
    {
        let mut r: Vec<DataEntry> = Vec::new();
        let mut i: usize = 0;
        while i < self.data_table.len()
            invariant
                i <= self.data_table.len(),
                r@.len() == i as int,
                forall|j: int| 0 <= j < i as int ==> r@[j] == self.data_table@[j],
            decreases self.data_table.len() - i,
        {
            r.push(self.data_table[i]);
            i += 1;
        }
        proof {
            assert(r@ =~= self.data_table@);
        }
        r
    }

    /// A copy with the same decoded content.
    pub fn duplicate(&self) -> (r: RdtbBox)
        ensures
            r@ == self@,
    {
        let r = RdtbBox { base: self.base, data_table: self.get_entry() };
        proof {
            assert(r@ =~= self@);
        }
        r
    }

    /// Decode a motion box payload: the shared header (little-endian),
    /// then `number_of_entries` records of 24 bytes each, each field in
    /// the byte order that the endian marker selects.
    pub fn read(data: &[u8]) -> (r: Result<RdtbBox, ThetaError>)
        ensures
            view_result(r) == spec_read(data@),
    {
        let base = match RdtBox::read(data) {
            Ok(h) => h,
            Err(e) => { return Err(e); },
        };
        if !(base.endian == 0x0123 || base.endian == 0x3210) {
            return Err(ThetaError::UnknownEndianness);
        }
        let big = base.endian == 0x3210;
        let count = base.number_of_entries;
        let need: u64 = 16u64 + 24u64 * (count as u64);
        if need > data.len() as u64 {
            return Err(ThetaError::TruncatedPayload);
        }
        let n = count as usize;
        proof {
            assert(16 + 24 * (n as int) <= usize::MAX as int);
        }
        let mut data_table: Vec<DataEntry> = Vec::new();
        let mut i: usize = 0;
        while i < n
            invariant
                i <= n,
                16 + 24 * (n as int) <= usize::MAX as int,
                n == base.number_of_entries,
                base == spec_header(data@, false),
                spec_known_endian(base.endian),
                big == spec_is_big(base.endian),
                16 + 24 * (n as int) <= data@.len(),
                data_table@.len() == i as int,
                forall|j: int| 0 <= j < i as int ==> data_table@[j] == spec_record(
                    data@.subrange(16 + 24 * j, 16 + 24 * j + 24),
                    big,
                ),
            decreases n - i,
        {
            let off = 16 + 24 * i;
            let x = read_u32(data, off, big);
            let y = read_u32(data, off + 4, big);
            let z = read_u32(data, off + 8, big);
            let reserve = read_u32(data, off + 12, big);
            let timestamp = read_u64(data, off + 16, big);
            proof {
                let o = off as int;
                let rec = data@.subrange(o, o + 24);
                assert(rec.subrange(0, 4) =~= data@.subrange(o, o + 4));
                assert(rec.subrange(4, 8) =~= data@.subrange(o + 4, o + 8));
                assert(rec.subrange(8, 12) =~= data@.subrange(o + 8, o + 12));
                assert(rec.subrange(12, 16) =~= data@.subrange(o + 12, o + 16));
                assert(rec.subrange(16, 24) =~= data@.subrange(o + 16, o + 24));
            }
            data_table.push(DataEntry { x, y, z, reserve, timestamp });
            i += 1;
        }
        let result = RdtbBox { base, data_table };
        proof {
            let v = spec_read(data@)->Ok_0;
            assert(result@.entries =~= v.entries);
            assert(result@ =~= v);
        }
        Ok(result)
    }
}

/// The bytes of one record's logical values in the order selected by
/// `big`.
pub open spec fn spec_encode_record(e: DataEntry, big: bool) -> Seq<u8> {
    u32_bytes(e.x, big) + u32_bytes(e.y, big) + u32_bytes(e.z, big) + u32_bytes(e.reserve, big)
        + u64_bytes(e.timestamp, big)
}

/// Endianness round-trip law: a record's logical values encoded
/// little-endian and the same values encoded big-endian decode to the
/// same record under the matching endian marker.
pub proof fn lemma_record_endian_round_trip(e: DataEntry)
    ensures
        spec_record(spec_encode_record(e, false), false) == e,
        spec_record(spec_encode_record(e, true), true) == e,
        spec_record(spec_encode_record(e, false), false) == spec_record(
            spec_encode_record(e, true),
            true,
        ),
{
    lemma_encode_decode(e, false);
    lemma_encode_decode(e, true);
}

/// Decoding an encoded record gives the record back, for either byte
/// order.
pub proof fn lemma_encode_decode(e: DataEntry, big: bool)
    ensures
        spec_encode_record(e, big).len() == 24,
        spec_record(spec_encode_record(e, big), big) == e,
{
    let enc = spec_encode_record(e, big);
    lemma_u32_round_trip(e.x, big);
    lemma_u32_round_trip(e.y, big);
    lemma_u32_round_trip(e.z, big);
    lemma_u32_round_trip(e.reserve, big);
    lemma_u64_round_trip(e.timestamp, big);
    assert(enc.subrange(0, 4) =~= u32_bytes(e.x, big));
    assert(enc.subrange(4, 8) =~= u32_bytes(e.y, big));
    assert(enc.subrange(8, 12) =~= u32_bytes(e.z, big));
    assert(enc.subrange(12, 16) =~= u32_bytes(e.reserve, big));
    assert(enc.subrange(16, 24) =~= u64_bytes(e.timestamp, big));
    assert(u32_bytes(e.x, big).subrange(0, 4) =~= u32_bytes(e.x, big));
    assert(u32_bytes(e.y, big).subrange(0, 4) =~= u32_bytes(e.y, big));
    assert(u32_bytes(e.z, big).subrange(0, 4) =~= u32_bytes(e.z, big));
    assert(u32_bytes(e.reserve, big).subrange(0, 4) =~= u32_bytes(e.reserve, big));
    assert(u64_bytes(e.timestamp, big).subrange(0, 8) =~= u64_bytes(e.timestamp, big));
}

/// Truncation law: when the payload holds the shared header but fewer
/// bytes than the claimed records need, decoding fails with the
/// truncated-payload error rather than reading out of bounds.
pub proof fn lemma_overclaim_is_truncated(data: Seq<u8>)
    requires
        data.len() >= 16,
        spec_known_endian(spec_header(data, false).endian),
        16 + 24 * (spec_header(data, false).number_of_entries as int) > data.len(),
    ensures
        spec_read(data) == Err::<RdtbView, ThetaError>(ThetaError::TruncatedPayload),
{
}

/// Entry-count law: a successfully decoded box holds exactly as many
/// records as its header claims.
pub proof fn lemma_entry_count(data: Seq<u8>, v: RdtbView)
    requires
        spec_read(data) == Ok::<RdtbView, ThetaError>(v),
    ensures
        v.entries.len() == v.base.number_of_entries,
{
}

/// Determinism law: any two results that meet `read`'s contract for the
/// same bytes have the same decoded content.
pub proof fn lemma_read_deterministic(
    data: Seq<u8>,
    r1: Result<RdtbBox, ThetaError>,
    r2: Result<RdtbBox, ThetaError>,
)
    requires
        view_result(r1) == spec_read(data),
        view_result(r2) == spec_read(data),
    ensures
        view_result(r1) == view_result(r2),
{
}

} // verus!
