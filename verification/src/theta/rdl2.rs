//! GPS-plus-motion records: 54-byte entries of timestamp, fix type,
//! position, and velocity/accuracy fields.
//!
//! The latitude, longitude and timestamp fields are IEEE-754
//! double-precision values kept as their 64-bit patterns; the remaining
//! fractional fields are single-precision values kept as their 32-bit
//! patterns. The fix type is a signed 16-bit integer.

use vstd::prelude::*;

use crate::endian::{
    bits_of_i16, i16_of_bits, lemma_u16_round_trip, lemma_u32_round_trip, lemma_u64_round_trip,
    read_u16, read_u32, read_u64, to_i16, u16_at, u16_bytes, u32_at, u32_bytes, u64_at, u64_bytes,
};
use crate::theta::rdt::{spec_header, spec_is_big, spec_known_endian, RdtBox};
use crate::ThetaError;

verus! {

/// One decoded GPS-plus-motion record. `timestamp`, `latitude` and
/// `longitude` hold 64-bit double-precision patterns; `altitude` and
/// the accuracy/velocity fields hold 32-bit single-precision patterns.
#[derive(Clone, Copy, Debug, PartialEq, Eq, Structural)]
pub struct DataEntry {
    pub timestamp: u64,
    pub gps_fix_type: i16,
    pub latitude: u64,
    pub longitude: u64,
    pub altitude: u32,
    pub horizontal_accuracy: u32,
    pub vertical_accuracy: u32,
    pub velocity_east: u32,
    pub velocity_north: u32,
    pub velocity_up: u32,
    pub speed_accuracy: u32,
}

/// The mathematical content of a decoded GPS-plus-motion box.
#[verifier::ext_equal]
pub ghost struct Rdl2View {
    pub base: RdtBox,
    pub entries: Seq<DataEntry>,
}

/// A decoded GPS-plus-motion box: its header and its records in
/// payload order.
#[derive(Debug, PartialEq)]
pub struct Rdl2Box {
    pub base: RdtBox,
    pub data_table: Vec<DataEntry>,
}

impl View for Rdl2Box {
    type V = Rdl2View;

    open spec fn view(&self) -> Rdl2View {
        Rdl2View { base: self.base, entries: self.data_table@ }
    }
}

/// The record decoded from one 54-byte slice.
pub open spec fn spec_record(rec: Seq<u8>, big: bool) -> DataEntry
    recommends
        rec.len() == 54,
{
    DataEntry {
        timestamp: u64_at(rec, 0, big),
        gps_fix_type: i16_of_bits(u16_at(rec, 8, big)),
        latitude: u64_at(rec, 10, big),
        longitude: u64_at(rec, 18, big),
        altitude: u32_at(rec, 26, big),
        horizontal_accuracy: u32_at(rec, 30, big),
        vertical_accuracy: u32_at(rec, 34, big),
        velocity_east: u32_at(rec, 38, big),
        velocity_north: u32_at(rec, 42, big),
        velocity_up: u32_at(rec, 46, big),
        speed_accuracy: u32_at(rec, 50, big),
    }
}

/// What decoding a GPS-plus-motion box payload yields, for every input.
pub open spec fn spec_read(data: Seq<u8>) -> Result<Rdl2View, ThetaError> {
    if data.len() < 16 {
        Err(ThetaError::TruncatedHeader)
    } else {
        let h = spec_header(data, false);
        if !spec_known_endian(h.endian) {
            Err(ThetaError::UnknownEndianness)
        } else if 16 + 54 * (h.number_of_entries as int) > data.len() {
            Err(ThetaError::TruncatedPayload)
        } else {
            Ok(
                Rdl2View {
                    base: h,
                    entries: Seq::new(
                        h.number_of_entries as nat,
                        |i: int|
                            spec_record(
                                data.subrange(16 + 54 * i, 16 + 54 * i + 54),
                                spec_is_big(h.endian),
                            ),
                    ),
                },
            )
        }
    }
}

/// The view of a decode result.
pub open spec fn view_result(r: Result<Rdl2Box, ThetaError>) -> Result<Rdl2View, ThetaError> {
    match r {
        Ok(b) => Ok(b@),
        Err(e) => Err(e),
    }
}

impl Rdl2Box {
    /// A copy of the decoded records, in payload order.
    pub fn get_entry(&self) -> (r: Vec<DataEntry>)
        ensures
            r@ == self.data_table@,
    {
        let mut r: Vec<DataEntry> = Vec::new();
        let mut i: usize = 0;
        while i < self.data_table.len()
            invariant
                i <= self.data_table.len(),
                r@.len() == i as int,
                forall|j: int| 0 <= j < i as int ==> r@[j] == self.data_table@[j],
            decreases self.data_table.len() - i,
        {
            r.push(self.data_table[i]);
            i += 1;
        }
        proof {
            assert(r@ =~= self.data_table@);
        }
        r
    }

    /// A copy with the same decoded content.
    pub fn duplicate(&self) -> (r: Rdl2Box)
        ensures
            r@ == self@,
    {
        let r = Rdl2Box { base: self.base, data_table: self.get_entry() };
        proof {
            assert(r@ =~= self@);
        }
        r
    }

    /// Decode a GPS-plus-motion box payload: the shared header
    /// (little-endian), then `number_of_entries` records of 54 bytes
    /// each, each field in the byte order that the endian marker
    /// selects.
    pub fn read(data: &[u8]) -> (r: Result<Rdl2Box, ThetaError>)
        ensures
            view_result(r) == spec_read(data@),
    {
        let base = match RdtBox::read(data) {
            Ok(h) => h,
            Err(e) => { return Err(e); },
        };
        if !(base.endian == 0x0123 || base.endian == 0x3210) {
            return Err(ThetaError::UnknownEndianness);
        }
        let big = base.endian == 0x3210;
        let count = base.number_of_entries;
        let need: u64 = 16u64 + 54u64 * (count as u64);
        if need > data.len() as u64 {
            return Err(ThetaError::TruncatedPayload);
        }
        let n = count as usize;
        proof {
            assert(16 + 54 * (n as int) <= usize::MAX as int);
        }
        let mut data_table: Vec<DataEntry> = Vec::new();
        let mut i: usize = 0;
        while i < n
            invariant
                i <= n,
                16 + 54 * (n as int) <= usize::MAX as int,
                n == base.number_of_entries,
                base == spec_header(data@, false),
                spec_known_endian(base.endian),
                big == spec_is_big(base.endian),
                16 + 54 * (n as int) <= data@.len(),
                data_table@.len() == i as int,
                forall|j: int| 0 <= j < i as int ==> data_table@[j] == spec_record(
                    data@.subrange(16 + 54 * j, 16 + 54 * j + 54),
                    big,
                ),
            decreases n - i,
        {
            let off = 16 + 54 * i;
            let timestamp = read_u64(data, off, big);
            let gps_fix_type = to_i16(read_u16(data, off + 8, big));
            let latitude = read_u64(data, off + 10, big);
            let longitude = read_u64(data, off + 18, big);
            let altitude = read_u32(data, off + 26, big);
            let horizontal_accuracy = read_u32(data, off + 30, big);
            let vertical_accuracy = read_u32(data, off + 34, big);
            let velocity_east = read_u32(data, off + 38, big);
            let velocity_north = read_u32(data, off + 42, big);
            let velocity_up = read_u32(data, off + 46, big);
            let speed_accuracy = read_u32(data, off + 50, big);
            proof {
                let o = off as int;
                let rec = data@.subrange(o, o + 54);
                assert(rec.subrange(0, 8) =~= data@.subrange(o, o + 8));
                assert(rec.subrange(8, 10) =~= data@.subrange(o + 8, o + 10));
                assert(rec.subrange(10, 18) =~= data@.subrange(o + 10, o + 18));
                assert(rec.subrange(18, 26) =~= data@.subrange(o + 18, o + 26));
                assert(rec.subrange(26, 30) =~= data@.subrange(o + 26, o + 30));
                assert(rec.subrange(30, 34) =~= data@.subrange(o + 30, o + 34));
                assert(rec.subrange(34, 38) =~= data@.subrange(o + 34, o + 38));
                assert(rec.subrange(38, 42) =~= data@.subrange(o + 38, o + 42));
                assert(rec.subrange(42, 46) =~= data@.subrange(o + 42, o + 46));
                assert(rec.subrange(46, 50) =~= data@.subrange(o + 46, o + 50));
                assert(rec.subrange(50, 54) =~= data@.subrange(o + 50, o + 54));
            }
            data_table.push(
                DataEntry {
                    timestamp,
                    gps_fix_type,
                    latitude,
                    longitude,
                    altitude,
                    horizontal_accuracy,
                    vertical_accuracy,
                    velocity_east,
                    velocity_north,
                    velocity_up,
                    speed_accuracy,
                },
            );
            i += 1;
        }
        let result = Rdl2Box { base, data_table };
        proof {
            let v = spec_read(data@)->Ok_0;
            assert(result@.entries =~= v.entries);
            assert(result@ =~= v);
        }
        Ok(result)
    }
}

/// The bytes of one record's logical values in the order selected by
/// `big`.
pub open spec fn spec_encode_record(e: DataEntry, big: bool) -> Seq<u8> {
    u64_bytes(e.timestamp, big) + u16_bytes(bits_of_i16(e.gps_fix_type), big)
        + u64_bytes(e.latitude, big) + u64_bytes(e.longitude, big) + u32_bytes(e.altitude, big)
        + u32_bytes(e.horizontal_accuracy, big) + u32_bytes(e.vertical_accuracy, big)
        + u32_bytes(e.velocity_east, big) + u32_bytes(e.velocity_north, big)
        + u32_bytes(e.velocity_up, big) + u32_bytes(e.speed_accuracy, big)
}

/// Endianness round-trip law: a record's logical values encoded
/// little-endian and the same values encoded big-endian decode to the
/// same record under the matching endian marker.
pub proof fn lemma_record_endian_round_trip(e: DataEntry)
    ensures
        spec_record(spec_encode_record(e, false), false) == e,
        spec_record(spec_encode_record(e, true), true) == e,
        spec_record(spec_encode_record(e, false), false) == spec_record(
            spec_encode_record(e, true),
            true,
        ),
{
    lemma_encode_decode(e, false);
    lemma_encode_decode(e, true);
}

/// Decoding an encoded record gives the record back, for either byte
/// order.
pub proof fn lemma_encode_decode(e: DataEntry, big: bool)
    ensures
        spec_encode_record(e, big).len() == 54,
        spec_record(spec_encode_record(e, big), big) == e,
{
    let enc = spec_encode_record(e, big);
    let fix = bits_of_i16(e.gps_fix_type);
    lemma_u64_round_trip(e.timestamp, big);
    lemma_u16_round_trip(fix, big);
    lemma_u64_round_trip(e.latitude, big);
    lemma_u64_round_trip(e.longitude, big);
    lemma_u32_round_trip(e.altitude, big);
    lemma_u32_round_trip(e.horizontal_accuracy, big);
    lemma_u32_round_trip(e.vertical_accuracy, big);
    lemma_u32_round_trip(e.velocity_east, big);
    lemma_u32_round_trip(e.velocity_north, big);
    lemma_u32_round_trip(e.velocity_up, big);
    lemma_u32_round_trip(e.speed_accuracy, big);
    assert(enc.subrange(0, 8) =~= u64_bytes(e.timestamp, big));
    assert(enc.subrange(8, 10) =~= u16_bytes(fix, big));
    assert(enc.subrange(10, 18) =~= u64_bytes(e.latitude, big));
    assert(enc.subrange(18, 26) =~= u64_bytes(e.longitude, big));
    assert(enc.subrange(26, 30) =~= u32_bytes(e.altitude, big));
    assert(enc.subrange(30, 34) =~= u32_bytes(e.horizontal_accuracy, big));
    assert(enc.subrange(34, 38) =~= u32_bytes(e.vertical_accuracy, big));
    assert(enc.subrange(38, 42) =~= u32_bytes(e.velocity_east, big));
    assert(enc.subrange(42, 46) =~= u32_bytes(e.velocity_north, big));
    assert(enc.subrange(46, 50) =~= u32_bytes(e.velocity_up, big));
    assert(enc.subrange(50, 54) =~= u32_bytes(e.speed_accuracy, big));
    assert(u64_bytes(e.timestamp, big).subrange(0, 8) =~= u64_bytes(e.timestamp, big));
    assert(u16_bytes(fix, big).subrange(0, 2) =~= u16_bytes(fix, big));
    assert(u64_bytes(e.latitude, big).subrange(0, 8) =~= u64_bytes(e.latitude, big));
    assert(u64_bytes(e.longitude, big).subrange(0, 8) =~= u64_bytes(e.longitude, big));
    assert(u32_bytes(e.altitude, big).subrange(0, 4) =~= u32_bytes(e.altitude, big));
    assert(u32_bytes(e.horizontal_accuracy, big).subrange(0, 4) =~= u32_bytes(
        e.horizontal_accuracy,
        big,
    ));
    assert(u32_bytes(e.vertical_accuracy, big).subrange(0, 4) =~= u32_bytes(
        e.vertical_accuracy,
        big,
    ));
    assert(u32_bytes(e.velocity_east, big).subrange(0, 4) =~= u32_bytes(e.velocity_east, big));
    assert(u32_bytes(e.velocity_north, big).subrange(0, 4) =~= u32_bytes(e.velocity_north, big));
    assert(u32_bytes(e.velocity_up, big).subrange(0, 4) =~= u32_bytes(e.velocity_up, big));
    assert(u32_bytes(e.speed_accuracy, big).subrange(0, 4) =~= u32_bytes(e.speed_accuracy, big));
}

/// Truncation law: when the payload holds the shared header but fewer
/// bytes than the claimed records need, decoding fails with the
/// truncated-payload error rather than reading out of bounds.
pub proof fn lemma_overclaim_is_truncated(data: Seq<u8>)
    requires
        data.len() >= 16,
        spec_known_endian(spec_header(data, false).endian),
        16 + 54 * (spec_header(data, false).number_of_entries as int) > data.len(),
    ensures
        spec_read(data) == Err::<Rdl2View, ThetaError>(ThetaError::TruncatedPayload),
{
}

/// Entry-count law: a successfully decoded box holds exactly as many
/// records as its header claims.
pub proof fn lemma_entry_count(data: Seq<u8>, v: Rdl2View)
    requires
        spec_read(data) == Ok::<Rdl2View, ThetaError>(v),
    ensures
        v.entries.len() == v.base.number_of_entries,
{
}

/// Determinism law: any two results that meet `read`'s contract for the
/// same bytes have the same decoded content.
pub proof fn lemma_read_deterministic(
    data: Seq<u8>,
    r1: Result<Rdl2Box, ThetaError>,
    r2: Result<Rdl2Box, ThetaError>,
)
    requires
        view_result(r1) == spec_read(data),
        view_result(r2) == spec_read(data),
    ensures
        view_result(r1) == view_result(r2),
{
}

} // verus!
