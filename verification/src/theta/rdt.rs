//! The 16-byte header shared by every structured telemetry box.
//!
//! The numeric header fields are normally read little-endian; one legacy
//! box family reads them big-endian instead, which `read_be` preserves.
//! Either way the endian marker recognizes the same two values, and it
//! selects the byte order of the records, not of the header itself.

use vstd::prelude::*;

use crate::endian::{u16_at, u32_at};
use crate::endian::{read_u16, read_u32};
use crate::ThetaError;

verus! {

/// The decoded shared header of a structured telemetry box.
#[derive(Clone, Copy, Debug, PartialEq, Eq, Structural)]
pub struct RdtBox {
    /// Size of the header in bytes; records start at this offset.
    pub _size: usize,
    /// How many fixed-size records the payload claims to hold.
    pub number_of_entries: u32,
    /// Sampling rate tag, kept verbatim.
    pub sampling_rate: u16,
    /// Sample size tag, kept verbatim.
    pub sample_size: u16,
    /// Endian marker for the records: 0x0123 or 0x3210.
    pub endian: u16,
}

/// Whether the marker is one of the two recognized values.
pub open spec fn spec_known_endian(endian: u16) -> bool {
    endian == 0x0123 || endian == 0x3210
}

/// Whether the marker selects big-endian records.
pub open spec fn spec_is_big(endian: u16) -> bool {
    endian == 0x3210
}

/// The header decoded from the first 16 bytes, with its own numeric
/// fields read big- or little-endian by `big`.
pub open spec fn spec_header(data: Seq<u8>, big: bool) -> RdtBox
    recommends
        data.len() >= 16,
{
    RdtBox {
        _size: 16,
        number_of_entries: u32_at(data, 0, big),
        sampling_rate: u16_at(data, 4, big),
        sample_size: u16_at(data, 6, big),
        endian: u16_at(data, 8, big),
    }
}

impl RdtBox {
    /// Decode the shared header, reading its fields little-endian.
    pub fn read(data: &[u8]) -> (r: Result<RdtBox, ThetaError>)
        ensures
            data@.len() < 16 ==> r == Err::<RdtBox, ThetaError>(ThetaError::TruncatedHeader),
            data@.len() >= 16 ==> r == Ok::<RdtBox, ThetaError>(spec_header(data@, false)),
    {
        Self::read_with(data, false)
    }

    /// Decode the shared header of the legacy box family, reading its
    /// fields big-endian.
    pub fn read_be(data: &[u8]) -> (r: Result<RdtBox, ThetaError>)
        ensures
            data@.len() < 16 ==> r == Err::<RdtBox, ThetaError>(ThetaError::TruncatedHeader),
            data@.len() >= 16 ==> r == Ok::<RdtBox, ThetaError>(spec_header(data@, true)),
    {
        Self::read_with(data, true)
    }

    /// Decode the shared header with the byte order selected by `big`.
    pub fn read_with(data: &[u8], big: bool) -> (r: Result<RdtBox, ThetaError>)
        ensures
            data@.len() < 16 ==> r == Err::<RdtBox, ThetaError>(ThetaError::TruncatedHeader),
            data@.len() >= 16 ==> r == Ok::<RdtBox, ThetaError>(spec_header(data@, big)),
    {
        if data.len() < 16 {
            return Err(ThetaError::TruncatedHeader);
        }
        let number_of_entries = read_u32(data, 0, big);
        let sampling_rate = read_u16(data, 4, big);
        let sample_size = read_u16(data, 6, big);
        let endian = read_u16(data, 8, big);
        Ok(RdtBox { _size: 16, number_of_entries, sampling_rate, sample_size, endian })
    }
}

} // verus!
