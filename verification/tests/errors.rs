//! Malformed payloads fail with typed errors instead of faulting.

use theta_mp4::theta::rdl2::Rdl2Box;
use theta_mp4::theta::rdt::RdtBox;
use theta_mp4::theta::rdtb::RdtbBox;
use theta_mp4::theta::rdtg::RdtgBox;
use theta_mp4::theta::rdtl::RdtlBox;
use theta_mp4::ThetaError;

fn header(entries: u32, endian: u16) -> Vec<u8> {
    let mut v = Vec::new();
    v.extend_from_slice(&entries.to_le_bytes());
    v.extend_from_slice(&1u16.to_le_bytes());
    v.extend_from_slice(&2u16.to_le_bytes());
    v.extend_from_slice(&endian.to_le_bytes());
    v.extend_from_slice(&[0u8; 6]);
    v
}

#[test]
fn short_payload_is_truncated_header() {
    let data = vec![0u8; 15];
    assert_eq!(RdtBox::read(&data).unwrap_err(), ThetaError::TruncatedHeader);
    assert_eq!(RdtBox::read_be(&data).unwrap_err(), ThetaError::TruncatedHeader);
    assert_eq!(RdtbBox::read(&data).unwrap_err(), ThetaError::TruncatedHeader);
    assert_eq!(RdtgBox::read(&data).unwrap_err(), ThetaError::TruncatedHeader);
    assert_eq!(RdtlBox::read(&data).unwrap_err(), ThetaError::TruncatedHeader);
    assert_eq!(Rdl2Box::read(&data).unwrap_err(), ThetaError::TruncatedHeader);
    assert_eq!(RdtgBox::read(&[]).unwrap_err(), ThetaError::TruncatedHeader);
}

#[test]
fn unknown_endian_marker_is_rejected() {
    let data = header(0, 0xbeef);
    assert_eq!(RdtbBox::read(&data).unwrap_err(), ThetaError::UnknownEndianness);
    assert_eq!(RdtgBox::read(&data).unwrap_err(), ThetaError::UnknownEndianness);
    assert_eq!(Rdl2Box::read(&data).unwrap_err(), ThetaError::UnknownEndianness);
}

/// A header claiming more entries than the payload supplies fails with
/// a truncation error rather than reading out of bounds.
#[test]
fn overclaiming_header_is_truncated_payload() {
    // Three 8-byte entries claimed, bytes for two supplied.
    let mut data = header(3, 0x0123);
    data.extend_from_slice(&[0u8; 16]);
    assert_eq!(RdtgBox::read(&data).unwrap_err(), ThetaError::TruncatedPayload);

    // One 24-byte entry claimed, none supplied.
    let data = header(1, 0x0123);
    assert_eq!(RdtbBox::read(&data).unwrap_err(), ThetaError::TruncatedPayload);

    // One 54-byte entry claimed, 53 bytes supplied.
    let mut data = header(1, 0x0123);
    data.extend_from_slice(&[0u8; 53]);
    assert_eq!(Rdl2Box::read(&data).unwrap_err(), ThetaError::TruncatedPayload);
}

/// A header whose byte count works out exactly decodes, and a
/// zero-entry payload is a valid empty result, not an error.
#[test]
fn exact_and_empty_payloads_decode() {
    let mut data = header(2, 0x0123);
    data.extend_from_slice(&[0u8; 16]);
    let b = RdtgBox::read(&data).unwrap();
    assert_eq!(b.data_table.len(), 2);

    let empty = header(0, 0x0123);
    let b = RdtbBox::read(&empty).unwrap();
    assert_eq!(b.data_table.len(), 0);
}

/// The legacy GPS box reads its header big-endian, so an entry count
/// written little-endian overclaims wildly and must be rejected.
#[test]
fn rdtl_header_is_big_endian() {
    // number_of_entries = 1 in big-endian, marker 0x0123 stored
    // big-endian, one 32-byte record.
    let mut data = vec![
        0x00, 0x00, 0x00, 0x01, 0x00, 0x01, 0x00, 0x02, 0x01, 0x23, 0, 0, 0, 0, 0, 0,
    ];
    data.extend_from_slice(&[0u8; 32]);
    let b = RdtlBox::read(&data).unwrap();
    assert_eq!(b.data_table.len(), 1);
    assert_eq!(b.base.number_of_entries, 1);

    // The same bytes with the count written little-endian claim
    // 16777216 entries: truncated.
    let mut bad = vec![
        0x01, 0x00, 0x00, 0x00, 0x00, 0x01, 0x00, 0x02, 0x01, 0x23, 0, 0, 0, 0, 0, 0,
    ];
    bad.extend_from_slice(&[0u8; 32]);
    assert_eq!(RdtlBox::read(&bad).unwrap_err(), ThetaError::TruncatedPayload);
}
