//! Timestamp-log records: 8-byte entries holding one timestamp each.
//!
//! The external projection of this box is a bare ordered sequence of
//! integers rather than a sequence of objects; `timestamps` is that
//! projection.

use vstd::prelude::*;

use crate::endian::{lemma_u64_round_trip, read_u64, u64_at, u64_bytes};
use crate::theta::rdt::{spec_header, spec_is_big, spec_known_endian, RdtBox};
use crate::ThetaError;

verus! {

/// One decoded timestamp-log record.
#[derive(Clone, Copy, Debug, PartialEq, Eq, Structural)]
pub struct DataEntry {
    pub timestamp: u64,
}

/// The mathematical content of a decoded timestamp-log box.
#[verifier::ext_equal]
pub ghost struct RdtgView {
    pub base: RdtBox,
    pub entries: Seq<DataEntry>,
}

/// A decoded timestamp-log box: its header and its records in payload
/// order.
#[derive(Debug, PartialEq)]
pub struct RdtgBox {
    pub base: RdtBox,
    pub data_table: Vec<DataEntry>,
}

impl View for RdtgBox {
    type V = RdtgView;

    open spec fn view(&self) -> RdtgView {
        RdtgView { base: self.base, entries: self.data_table@ }
    }
}

/// The record decoded from one 8-byte slice.
pub open spec fn spec_record(rec: Seq<u8>, big: bool) -> DataEntry
    recommends
        rec.len() == 8,
{
    DataEntry { timestamp: u64_at(rec, 0, big) }
}

/// What decoding a timestamp-log box payload yields, for every input.
pub open spec fn spec_read(data: Seq<u8>) -> Result<RdtgView, ThetaError> {
    if data.len() < 16 {
        Err(ThetaError::TruncatedHeader)
    } else {
        let h = spec_header(data, false);
        if !spec_known_endian(h.endian) {
            Err(ThetaError::UnknownEndianness)
        } else if 16 + 8 * (h.number_of_entries as int) > data.len() {
            Err(ThetaError::TruncatedPayload)
        } else {
            Ok(
                RdtgView {
                    base: h,
                    entries: Seq::new(
                        h.number_of_entries as nat,
                        |i: int|
                            spec_record(
                                data.subrange(16 + 8 * i, 16 + 8 * i + 8),
                                spec_is_big(h.endian),
                            ),
                    ),
                },
            )
        }
    }
}

/// The view of a decode result.
pub open spec fn view_result(r: Result<RdtgBox, ThetaError>) -> Result<RdtgView, ThetaError> {
    match r {
        Ok(b) => Ok(b@),
        Err(e) => Err(e),
    }
}

impl RdtgBox {
    /// A copy of the decoded records, in payload order.
    pub fn get_entry(&self) -> (r: Vec<DataEntry>)
        ensures
            r@ == self.data_table@,
    {
        let mut r: Vec<DataEntry> = Vec::new();
        let mut i: usize = 0;
        while i < self.data_table.len()
            invariant
                i <= self.data_table.len(),
                r@.len() == i as int,
                forall|j: int| 0 <= j < i as int ==> r@[j] == self.data_table@[j],
            decreases self.data_table.len() - i,
        {
            r.push(self.data_table[i]);
            i += 1;
        }
        proof {
            assert(r@ =~= self.data_table@);
        }
        r
    }

    /// A copy with the same decoded content.
    pub fn duplicate(&self) -> (r: RdtgBox)
        ensures
            r@ == self@,
    {
        let r = RdtgBox { base: self.base, data_table: self.get_entry() };
        proof {
            assert(r@ =~= self@);
        }
        r
    }

    /// The external projection: the bare ordered sequence of timestamps.
    pub fn timestamps(&self) -> (r: Vec<u64>)
        ensures
            r@.len() == self.data_table@.len(),
            forall|j: int| 0 <= j < r@.len() ==> r@[j] == self.data_table@[j].timestamp,
    {
        let mut r: Vec<u64> = Vec::new();
        let mut i: usize = 0;
        while i < self.data_table.len()
            invariant
                i <= self.data_table.len(),
                r@.len() == i as int,
                forall|j: int| 0 <= j < i as int ==> r@[j] == self.data_table@[j].timestamp,
            decreases self.data_table.len() - i,
        {
            r.push(self.data_table[i].timestamp);
            i += 1;
        }
        r
    }

    /// Decode a timestamp-log box payload: the shared header
    /// (little-endian), then `number_of_entries` records of 8 bytes
    /// each, in the byte order that the endian marker selects.
    pub fn read(data: &[u8]) -> (r: Result<RdtgBox, ThetaError>)
        ensures
            view_result(r) == spec_read(data@),
    {
        let base = match RdtBox::read(data) {
            Ok(h) => h,
            Err(e) => { return Err(e); },
        };
        if !(base.endian == 0x0123 || base.endian == 0x3210) {
            return Err(ThetaError::UnknownEndianness);
        }
        let big = base.endian == 0x3210;
        let count = base.number_of_entries;
        let need: u64 = 16u64 + 8u64 * (count as u64);
        if need > data.len() as u64 {
            return Err(ThetaError::TruncatedPayload);
        }
        let n = count as usize;
        proof {
            assert(16 + 8 * (n as int) <= usize::MAX as int);
        }
        let mut data_table: Vec<DataEntry> = Vec::new();
        let mut i: usize = 0;
        while i < n
            invariant
                i <= n,
                16 + 8 * (n as int) <= usize::MAX as int,
                n == base.number_of_entries,
                base == spec_header(data@, false),
                spec_known_endian(base.endian),
                big == spec_is_big(base.endian),
                16 + 8 * (n as int) <= data@.len(),
                data_table@.len() == i as int,
                forall|j: int| 0 <= j < i as int ==> data_table@[j] == spec_record(
                    data@.subrange(16 + 8 * j, 16 + 8 * j + 8),
                    big,
                ),
            decreases n - i,
        {
            let off = 16 + 8 * i;
            let timestamp = read_u64(data, off, big);
            proof {
                let o = off as int;
                let rec = data@.subrange(o, o + 8);
                assert(rec.subrange(0, 8) =~= data@.subrange(o, o + 8));
            }
            data_table.push(DataEntry { timestamp });
            i += 1;
        }
        let result = RdtgBox { base, data_table };
        proof {
            let v = spec_read(data@)->Ok_0;
            assert(result@.entries =~= v.entries);
            assert(result@ =~= v);
        }
        Ok(result)
    }
}

/// The bytes of one record's logical values in the order selected by
/// `big`.
pub open spec fn spec_encode_record(e: DataEntry, big: bool) -> Seq<u8> {
    u64_bytes(e.timestamp, big)
}

/// Endianness round-trip law: a record's logical values encoded
/// little-endian and the same values encoded big-endian decode to the
/// same record under the matching endian marker.
pub proof fn lemma_record_endian_round_trip(e: DataEntry)
    ensures
        spec_record(spec_encode_record(e, false), false) == e,
        spec_record(spec_encode_record(e, true), true) == e,
        spec_record(spec_encode_record(e, false), false) == spec_record(
            spec_encode_record(e, true),
            true,
        ),
{
    lemma_encode_decode(e, false);
    lemma_encode_decode(e, true);
}

/// Decoding an encoded record gives the record back, for either byte
/// order.
pub proof fn lemma_encode_decode(e: DataEntry, big: bool)
    ensures
        spec_encode_record(e, big).len() == 8,
        spec_record(spec_encode_record(e, big), big) == e,
{
    let enc = spec_encode_record(e, big);
    lemma_u64_round_trip(e.timestamp, big);
    assert(enc.subrange(0, 8) =~= u64_bytes(e.timestamp, big));
}

/// Truncation law: when the payload holds the shared header but fewer
/// bytes than the claimed records need, decoding fails with the
/// truncated-payload error rather than reading out of bounds.
pub proof fn lemma_overclaim_is_truncated(data: Seq<u8>)
    requires
        data.len() >= 16,
        spec_known_endian(spec_header(data, false).endian),
        16 + 8 * (spec_header(data, false).number_of_entries as int) > data.len(),
    ensures
        spec_read(data) == Err::<RdtgView, ThetaError>(ThetaError::TruncatedPayload),
{
}

/// Entry-count law: a successfully decoded box holds exactly as many
/// records as its header claims.
pub proof fn lemma_entry_count(data: Seq<u8>, v: RdtgView)
    requires
        spec_read(data) == Ok::<RdtgView, ThetaError>(v),
    ensures
        v.entries.len() == v.base.number_of_entries,
{
}

/// Determinism law: any two results that meet `read`'s contract for the
/// same bytes have the same decoded content.
pub proof fn lemma_read_deterministic(
    data: Seq<u8>,
    r1: Result<RdtgBox, ThetaError>,
    r2: Result<RdtgBox, ThetaError>,
)
    requires
        view_result(r1) == spec_read(data),
        view_result(r2) == spec_read(data),
    ensures
        view_result(r1) == view_result(r2),
{
}

} // verus!
