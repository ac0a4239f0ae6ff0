//! Legacy GPS records: 32-byte entries of timestamp, latitude,
//! longitude and altitude.
//!
//! All four fields are IEEE-754 double-precision values, kept as their
//! exact 64-bit patterns. This legacy box family reads its shared
//! header fields big-endian, unlike every other box, while the endian
//! marker still selects the byte order of the records from the same two
//! recognized values; that asymmetry is preserved deliberately for
//! compatibility with the older on-disk format.

use vstd::prelude::*;

use crate::endian::{lemma_u64_round_trip, read_u64, u64_at, u64_bytes};
use crate::theta::rdt::{spec_header, spec_is_big, spec_known_endian, RdtBox};
use crate::ThetaError;

verus! {

/// One decoded legacy GPS record; every field holds the raw bit
/// pattern of a double-precision value.
#[derive(Clone, Copy, Debug, PartialEq, Eq, Structural)]
pub struct DataEntry {
    pub timestamp: u64,
    pub latitude: u64,
    pub longitude: u64,
    pub altitude: u64,
}

/// The mathematical content of a decoded legacy GPS box.
#[verifier::ext_equal]
pub ghost struct RdtlView {
    pub base: RdtBox,
    pub entries: Seq<DataEntry>,
}

/// A decoded legacy GPS box: its header and its records in payload
/// order.
#[derive(Debug, PartialEq)]
pub struct RdtlBox {
    pub base: RdtBox,
    pub data_table: Vec<DataEntry>,
}

impl View for RdtlBox {
    type V = RdtlView;

    open spec fn view(&self) -> RdtlView {
        RdtlView { base: self.base, entries: self.data_table@ }
    }
}

/// The record decoded from one 32-byte slice.
pub open spec fn spec_record(rec: Seq<u8>, big: bool) -> DataEntry
    recommends
        rec.len() == 32,
{
    DataEntry {
        timestamp: u64_at(rec, 0, big),
        latitude: u64_at(rec, 8, big),
        longitude: u64_at(rec, 16, big),
        altitude: u64_at(rec, 24, big),
    }
}

/// What decoding a legacy GPS box payload yields, for every input.
/// The header fields themselves are read big-endian.
pub open spec fn spec_read(data: Seq<u8>) -> Result<RdtlView, ThetaError> {
    if data.len() < 16 {
        Err(ThetaError::TruncatedHeader)
    } else {
        let h = spec_header(data, true);
        if !spec_known_endian(h.endian) {
            Err(ThetaError::UnknownEndianness)
        } else if 16 + 32 * (h.number_of_entries as int) > data.len() {
            Err(ThetaError::TruncatedPayload)
        } else {
            Ok(
                RdtlView {
                    base: h,
                    entries: Seq::new(
                        h.number_of_entries as nat,
                        |i: int|
                            spec_record(
                                data.subrange(16 + 32 * i, 16 + 32 * i + 32),
                                spec_is_big(h.endian),
                            ),
                    ),
                },
            )
        }
    }
}

/// The view of a decode result.
pub open spec fn view_result(r: Result<RdtlBox, ThetaError>) -> Result<RdtlView, ThetaError> {
    match r {
        Ok(b) => Ok(b@),
        Err(e) => Err(e),
    }
}

impl RdtlBox {
    /// A copy of the decoded records, in payload order.
    pub fn get_entry(&self) -> (r: Vec<DataEntry>)
        ensures
            r@ == self.data_table@,
    {
        let mut r: Vec<DataEntry> = Vec::new();
        let mut i: usize = 0;
        while i < self.data_table.len()
            invariant
                i <= self.data_table.len(),
                r@.len() == i as int,
                forall|j: int| 0 <= j < i as int ==> r@[j] == self.data_table@[j],
            decreases self.data_table.len() - i,
        {
            r.push(self.data_table[i]);
            i += 1;
        }
        proof {
            assert(r@ =~= self.data_table@);
        }
        r
    }

    /// A copy with the same decoded content.
    pub fn duplicate(&self) -> (r: RdtlBox)
        ensures
            r@ == self@,
    {
        let r = RdtlBox { base: self.base, data_table: self.get_entry() };
        proof {
            assert(r@ =~= self@);
        }
        r
    }

    /// Decode a legacy GPS box payload: the shared header (big-endian),
    /// then `number_of_entries` records of 32 bytes each, each field in
    /// the byte order that the endian marker selects.
    pub fn read(data: &[u8]) -> (r: Result<RdtlBox, ThetaError>)
        ensures
            view_result(r) == spec_read(data@),
    {
        let base = match RdtBox::read_be(data) {
            Ok(h) => h,
            Err(e) => { return Err(e); },
        };
        if !(base.endian == 0x0123 || base.endian == 0x3210) {
            return Err(ThetaError::UnknownEndianness);
        }
        let big = base.endian == 0x3210;
        let count = base.number_of_entries;
        let need: u64 = 16u64 + 32u64 * (count as u64);
        if need > data.len() as u64 {
            return Err(ThetaError::TruncatedPayload);
        }
        let n = count as usize;
        proof {
            assert(16 + 32 * (n as int) <= usize::MAX as int);
        }
        let mut data_table: Vec<DataEntry> = Vec::new();
        let mut i: usize = 0;
        while i < n
            invariant
                i <= n,
                16 + 32 * (n as int) <= usize::MAX as int,
                n == base.number_of_entries,
                base == spec_header(data@, true),
                spec_known_endian(base.endian),
                big == spec_is_big(base.endian),
                16 + 32 * (n as int) <= data@.len(),
                data_table@.len() == i as int,
                forall|j: int| 0 <= j < i as int ==> data_table@[j] == spec_record(
                    data@.subrange(16 + 32 * j, 16 + 32 * j + 32),
                    big,
                ),
            decreases n - i,
        {
            let off = 16 + 32 * i;
            let timestamp = read_u64(data, off, big);
            let latitude = read_u64(data, off + 8, big);
            let longitude = read_u64(data, off + 16, big);
            let altitude = read_u64(data, off + 24, big);
            proof {
                let o = off as int;
                let rec = data@.subrange(o, o + 32);
                assert(rec.subrange(0, 8) =~= data@.subrange(o, o + 8));
                assert(rec.subrange(8, 16) =~= data@.subrange(o + 8, o + 16));
                assert(rec.subrange(16, 24) =~= data@.subrange(o + 16, o + 24));
                assert(rec.subrange(24, 32) =~= data@.subrange(o + 24, o + 32));
            }
            data_table.push(DataEntry { timestamp, latitude, longitude, altitude });
            i += 1;
        }
        let result = RdtlBox { base, data_table };
        proof {
            let v = spec_read(data@)->Ok_0;
            assert(result@.entries =~= v.entries);
            assert(result@ =~= v);
        }
        Ok(result)
    }
}

/// The bytes of one record's logical values in the order selected by
/// `big`.
pub open spec fn spec_encode_record(e: DataEntry, big: bool) -> Seq<u8> {
    u64_bytes(e.timestamp, big) + u64_bytes(e.latitude, big) + u64_bytes(e.longitude, big)
        + u64_bytes(e.altitude, big)
}

/// Endianness round-trip law: a record's logical values encoded
/// little-endian and the same values encoded big-endian decode to the
/// same record under the matching endian marker.
pub proof fn lemma_record_endian_round_trip(e: DataEntry)
    ensures
        spec_record(spec_encode_record(e, false), false) == e,
        spec_record(spec_encode_record(e, true), true) == e,
        spec_record(spec_encode_record(e, false), false) == spec_record(
            spec_encode_record(e, true),
            true,
        ),
{
    lemma_encode_decode(e, false);
    lemma_encode_decode(e, true);
}

/// Decoding an encoded record gives the record back, for either byte
/// order.
pub proof fn lemma_encode_decode(e: DataEntry, big: bool)
    ensures
        spec_encode_record(e, big).len() == 32,
        spec_record(spec_encode_record(e, big), big) == e,
{
    let enc = spec_encode_record(e, big);
    lemma_u64_round_trip(e.timestamp, big);
    lemma_u64_round_trip(e.latitude, big);
    lemma_u64_round_trip(e.longitude, big);
    lemma_u64_round_trip(e.altitude, big);
    assert(enc.subrange(0, 8) =~= u64_bytes(e.timestamp, big));
    assert(enc.subrange(8, 16) =~= u64_bytes(e.latitude, big));
    assert(enc.subrange(16, 24) =~= u64_bytes(e.longitude, big));
    assert(enc.subrange(24, 32) =~= u64_bytes(e.altitude, big));
    assert(u64_bytes(e.timestamp, big).subrange(0, 8) =~= u64_bytes(e.timestamp, big));
    assert(u64_bytes(e.latitude, big).subrange(0, 8) =~= u64_bytes(e.latitude, big));
    assert(u64_bytes(e.longitude, big).subrange(0, 8) =~= u64_bytes(e.longitude, big));
    assert(u64_bytes(e.altitude, big).subrange(0, 8) =~= u64_bytes(e.altitude, big));
}

/// Truncation law: when the payload holds the shared header but fewer
/// bytes than the claimed records need, decoding fails with the
/// truncated-payload error rather than reading out of bounds.
pub proof fn lemma_overclaim_is_truncated(data: Seq<u8>)
    requires
        data.len() >= 16,
        spec_known_endian(spec_header(data, true).endian),
        16 + 32 * (spec_header(data, true).number_of_entries as int) > data.len(),
    ensures
        spec_read(data) == Err::<RdtlView, ThetaError>(ThetaError::TruncatedPayload),
{
}

/// Entry-count law: a successfully decoded box holds exactly as many
/// records as its header claims.
pub proof fn lemma_entry_count(data: Seq<u8>, v: RdtlView)
    requires
        spec_read(data) == Ok::<RdtlView, ThetaError>(v),
    ensures
        v.entries.len() == v.base.number_of_entries,
{
}

/// Determinism law: any two results that meet `read`'s contract for the
/// same bytes have the same decoded content.
pub proof fn lemma_read_deterministic(
    data: Seq<u8>,
    r1: Result<RdtlBox, ThetaError>,
    r2: Result<RdtlBox, ThetaError>,
)
    requires
        view_result(r1) == spec_read(data),
        view_result(r2) == spec_read(data),
    ensures
        view_result(r1) == view_result(r2),
{
}

} // verus!
