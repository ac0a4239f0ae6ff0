//! Record decoding against hand-laid-out payload bytes.

use theta_mp4::theta::rdl2::Rdl2Box;
use theta_mp4::theta::rdt::RdtBox;
use theta_mp4::theta::rdtb::RdtbBox;
use theta_mp4::theta::rdtg::RdtgBox;
use theta_mp4::theta::rdtl::RdtlBox;

fn rdtb_setup() -> Vec<u8> {
    vec![
        0x02, 0x00, 0x00, 0x00, // number_of_entries
        0x01, 0x00, // sampling_rate
        0x02, 0x00, // sample_size
        0x23, 0x01, // endian (LE: 0x0123)
        0x00, 0x00, 0x00, 0x00, 0x00, 0x00, // reserve (6 bytes)
        // Data Table
        0x00, 0x00, 0x20, 0x41, // x = 10.0
        0x00, 0x00, 0x40, 0x41, // y = 12.0
        0x00, 0x00, 0x60, 0x41, // z = 14.0
        0x00, 0x00, 0x00, 0x00, // reserve
        0x01, 0x00, 0x00, 0x00, 0x00, 0x00, 0x00, 0x00, // timestamp = 1
        0x00, 0x00, 0xa0, 0x41, // x = 20.0
        0x00, 0x00, 0xb0, 0x41, // y = 22.0
        0x00, 0x00, 0xc0, 0x41, // z = 24.0
        0x00, 0x00, 0x00, 0x00, // reserve
        0x02, 0x00, 0x00, 0x00, 0x00, 0x00, 0x00, 0x00, // timestamp = 2
    ]
}

#[test]
fn test_rdtbbox_read() {
    let data: Vec<u8> = rdtb_setup();

    let rdtb_box = RdtbBox::read(&data).unwrap();
    assert_eq!(rdtb_box.data_table.len(), 2);

    assert_eq!(f32::from_bits(rdtb_box.data_table[0].x), 10.0);
    assert_eq!(f32::from_bits(rdtb_box.data_table[0].y), 12.0);
    assert_eq!(f32::from_bits(rdtb_box.data_table[0].z), 14.0);
    assert_eq!(rdtb_box.data_table[0].timestamp, 1);

    assert_eq!(f32::from_bits(rdtb_box.data_table[1].x), 20.0);
    assert_eq!(f32::from_bits(rdtb_box.data_table[1].y), 22.0);
    assert_eq!(f32::from_bits(rdtb_box.data_table[1].z), 24.0);
    assert_eq!(rdtb_box.data_table[1].timestamp, 2);
}

fn rdtg_setup() -> Vec<u8> {
    vec![
        0x02, 0x00, 0x00, 0x00, // number_of_entries
        0x01, 0x00, // sampling_rate
        0x02, 0x00, // sample_size
        0x23, 0x01, // endian (LE: 0x0123)
        0x00, 0x00, 0x00, 0x00, 0x00, 0x00, // reserve (6 bytes)
        // Data Table
        0x01, 0x00, 0x00, 0x00, 0x00, 0x00, 0x00, 0x00, // timestamp (1)
        0x04, 0x00, 0x00, 0x00, 0x00, 0x00, 0x00, 0x00, // timestamp (4)
    ]
}

#[test]
fn test_rdtg_box_read() {
    let data: Vec<u8> = rdtg_setup();
    let rdtg_box = RdtgBox::read(&data).unwrap();
    assert_eq!(rdtg_box.data_table.len(), 2);
    assert_eq!(rdtg_box.data_table[0].timestamp, 1);
    assert_eq!(rdtg_box.data_table[1].timestamp, 4);
}

/// The timestamp-log external projection is the bare ordered sequence
/// of integers.
#[test]
fn rdtg_projection_is_bare_sequence() {
    let data: Vec<u8> = rdtg_setup();
    let rdtg_box = RdtgBox::read(&data).unwrap();
    let ts = rdtg_box.timestamps();
    assert_eq!(ts, vec![1u64, 4u64]);
    let rendered = serde_json::to_string(&ts).unwrap();
    assert_eq!(rendered, "[1,4]");
}

fn rdtl_setup() -> Vec<u8> {
    vec![
        0x00, 0x00, 0x00, 0x02, // number_of_entries
        0x00, 0x01, // sampling_rate
        0x00, 0x02, // sample_size
        0x01, 0x23, // endian (LE: 0x0123)
        0x00, 0x00, 0x00, 0x00, 0x00, 0x00, // reserve (6 bytes)
        // Data Table
        0x00, 0x00, 0x00, 0x00, 0x00, 0x00, 0x00, 0x00, // timestamp
        0x78, 0xb7, 0xb2, 0x44, 0x67, 0xd7, 0x41, 0x40, // latitude
        0x14, 0x79, 0x92, 0x74, 0x4d, 0x78, 0x61, 0x40, // longitude
        0x00, 0x00, 0x00, 0x00, 0x00, 0x60, 0x60, 0x40, // altitude
        0x00, 0x00, 0x00, 0x00, 0x00, 0x00, 0x24, 0x40, // timestamp
        0x48, 0x33, 0x16, 0x4d, 0x67, 0xd7, 0x41, 0x40, // latitude
        0x20, 0x9a, 0x79, 0x72, 0x4d, 0x78, 0x61, 0x40, // longitude
        0x33, 0x33, 0x33, 0x33, 0x33, 0x63, 0x60, 0x40, // altitude
    ]
}

#[test]
fn test_rdtl_box_read() {
    let data: Vec<u8> = rdtl_setup();

    let rdtl_box = RdtlBox::read(&data).unwrap();
    assert_eq!(rdtl_box.data_table.len(), 2);

    assert_eq!(f64::from_bits(rdtl_box.data_table[0].timestamp), 0.0);
    assert_eq!(f64::from_bits(rdtl_box.data_table[0].latitude), 35.682839);
    assert_eq!(f64::from_bits(rdtl_box.data_table[0].longitude), 139.759455);
    assert_eq!(f64::from_bits(rdtl_box.data_table[0].altitude), 131.0);

    assert_eq!(f64::from_bits(rdtl_box.data_table[1].timestamp), 10.0);
    assert_eq!(f64::from_bits(rdtl_box.data_table[1].latitude), 35.682840);
    assert_eq!(f64::from_bits(rdtl_box.data_table[1].longitude), 139.759454);
    assert_eq!(f64::from_bits(rdtl_box.data_table[1].altitude), 131.1);
}

fn rdl2_setup() -> Vec<u8> {
    vec![
        0x02, 0x00, 0x00, 0x00, // number_of_entries
        0x01, 0x00, // sampling_rate
        0x02, 0x00, // sample_size
        0x23, 0x01, // endian (LE: 0x0123)
        0x00, 0x00, 0x00, 0x00, 0x00, 0x00, // reserve (6 bytes)
        // Data Table
        0x00, 0x00, 0x00, 0x00, 0x00, 0x00, 0x00, 0x00, // timestamp
        0x01, 0x00, // gps_fix_type = 1
        0x78, 0xb7, 0xb2, 0x44, 0x67, 0xd7, 0x41, 0x40, // latitude
        0x14, 0x79, 0x92, 0x74, 0x4d, 0x78, 0x61, 0x40, // longitude
        0x00, 0x00, 0x03, 0x43, // altitude
        0x00, 0x00, 0x80, 0x3f, // horizontal_accuracy = 1.0
        0xcd, 0xcc, 0x8c, 0x3f, // vertical_accuracy = 1.1
        0x9a, 0x99, 0x99, 0x3f, // velocity_east = 1.2
        0x66, 0x66, 0xa6, 0x3f, // velocity_north = 1.3
        0x33, 0x33, 0xb3, 0x3f, // velocity_up = 1.4
        0x00, 0x00, 0xc0, 0x3f, // speed_accuracy = 1.5
        0x00, 0x00, 0x00, 0x00, 0x00, 0x00, 0x24, 0x40, // timestamp
        0x02, 0x00, // gps_fix_type = 2
        0x48, 0x33, 0x16, 0x4d, 0x67, 0xd7, 0x41, 0x40, // latitude
        0x20, 0x9a, 0x79, 0x72, 0x4d, 0x78, 0x61, 0x40, // longitude
        0x9a, 0x19, 0x03, 0x43, // altitude
        0x00, 0x00, 0x00, 0x40, // horizontal_accuracy = 2.0
        0x66, 0x66, 0x06, 0x40, // vertical_accuracy = 2.1
        0xcd, 0xcc, 0x0c, 0x40, // velocity_east = 2.2
        0x33, 0x33, 0x13, 0x40, // velocity_north = 2.3
        0x9a, 0x99, 0x19, 0x40, // velocity_up = 2.4
        0x00, 0x00, 0x20, 0x40, // speed_accuracy = 2.5
    ]
}

#[test]
fn test_rdl2box_read() {
    let data: Vec<u8> = rdl2_setup();

    let rdl2_box = Rdl2Box::read(&data).unwrap();
    assert_eq!(rdl2_box.data_table.len(), 2);

    assert_eq!(f64::from_bits(rdl2_box.data_table[0].timestamp), 0.0);
    assert_eq!(rdl2_box.data_table[0].gps_fix_type, 1);
    assert_eq!(f64::from_bits(rdl2_box.data_table[0].latitude), 35.682839);
    assert_eq!(f64::from_bits(rdl2_box.data_table[0].longitude), 139.759455);
    assert_eq!(f32::from_bits(rdl2_box.data_table[0].altitude), 131.0);
    assert_eq!(f32::from_bits(rdl2_box.data_table[0].horizontal_accuracy), 1.0);
    assert_eq!(f32::from_bits(rdl2_box.data_table[0].vertical_accuracy), 1.1);
    assert_eq!(f32::from_bits(rdl2_box.data_table[0].velocity_east), 1.2);
    assert_eq!(f32::from_bits(rdl2_box.data_table[0].velocity_north), 1.3);
    assert_eq!(f32::from_bits(rdl2_box.data_table[0].velocity_up), 1.4);
    assert_eq!(f32::from_bits(rdl2_box.data_table[0].speed_accuracy), 1.5);

    assert_eq!(f64::from_bits(rdl2_box.data_table[1].timestamp), 10.0);
    assert_eq!(rdl2_box.data_table[1].gps_fix_type, 2);
    assert_eq!(f64::from_bits(rdl2_box.data_table[1].latitude), 35.682840);
    assert_eq!(f64::from_bits(rdl2_box.data_table[1].longitude), 139.759454);
    assert_eq!(f32::from_bits(rdl2_box.data_table[1].altitude), 131.1);
    assert_eq!(f32::from_bits(rdl2_box.data_table[1].horizontal_accuracy), 2.0);
    assert_eq!(f32::from_bits(rdl2_box.data_table[1].vertical_accuracy), 2.1);
    assert_eq!(f32::from_bits(rdl2_box.data_table[1].velocity_east), 2.2);
    assert_eq!(f32::from_bits(rdl2_box.data_table[1].velocity_north), 2.3);
    assert_eq!(f32::from_bits(rdl2_box.data_table[1].velocity_up), 2.4);
    assert_eq!(f32::from_bits(rdl2_box.data_table[1].speed_accuracy), 2.5);
}

/// A negative gps_fix_type comes out as a signed value.
#[test]
fn rdl2_negative_fix_type() {
    let mut data = rdl2_setup();
    // gps_fix_type of entry 0 sits at offset 16 + 8; -1 is 0xffff.
    data[24] = 0xff;
    data[25] = 0xff;
    let rdl2_box = Rdl2Box::read(&data).unwrap();
    assert_eq!(rdl2_box.data_table[0].gps_fix_type, -1);
}

/// The rendered decimal form of the decoded position fields matches
/// the values the payload was built from, after the decimal round trip.
#[test]
fn rdl2_decimal_round_trip() {
    let data: Vec<u8> = rdl2_setup();
    let rdl2_box = Rdl2Box::read(&data).unwrap();
    let e = &rdl2_box.data_table[0];
    assert_eq!(f64::from_bits(e.latitude).to_string(), "35.682839");
    assert_eq!(f64::from_bits(e.longitude).to_string(), "139.759455");
    let altitude: f64 = f32::from_bits(e.altitude).to_string().parse().unwrap();
    assert_eq!(altitude, 131.0);
    let vertical: f64 = f32::from_bits(e.vertical_accuracy).to_string().parse().unwrap();
    assert_eq!(vertical, 1.1);
}

/// The shared header reader decodes its fields little-endian, and the
/// legacy reader decodes the same fields big-endian.
#[test]
fn header_both_byte_orders() {
    let data: Vec<u8> = vec![
        0x02, 0x00, 0x00, 0x00, 0x01, 0x00, 0x02, 0x00, 0x23, 0x01, 0, 0, 0, 0, 0, 0,
    ];
    let h = RdtBox::read(&data).unwrap();
    assert_eq!(h._size, 16);
    assert_eq!(h.number_of_entries, 2);
    assert_eq!(h.sampling_rate, 1);
    assert_eq!(h.sample_size, 2);
    assert_eq!(h.endian, 0x0123);

    let data_be: Vec<u8> = vec![
        0x00, 0x00, 0x00, 0x02, 0x00, 0x01, 0x00, 0x02, 0x01, 0x23, 0, 0, 0, 0, 0, 0,
    ];
    let hb = RdtBox::read_be(&data_be).unwrap();
    assert_eq!(hb.number_of_entries, 2);
    assert_eq!(hb.sampling_rate, 1);
    assert_eq!(hb.sample_size, 2);
    assert_eq!(hb.endian, 0x0123);
}

/// Big-endian records decode to the same logical values as their
/// little-endian counterparts.
#[test]
fn rdtg_big_endian_records() {
    let data: Vec<u8> = vec![
        0x02, 0x00, 0x00, 0x00, // number_of_entries (header stays little-endian)
        0x01, 0x00, 0x02, 0x00, //
        0x10, 0x32, // endian (BE: 0x3210)
        0x00, 0x00, 0x00, 0x00, 0x00, 0x00, //
        0x00, 0x00, 0x00, 0x00, 0x00, 0x00, 0x00, 0x01, // timestamp (1), big-endian
        0x00, 0x00, 0x00, 0x00, 0x00, 0x00, 0x00, 0x04, // timestamp (4), big-endian
    ];
    let rdtg_box = RdtgBox::read(&data).unwrap();
    assert_eq!(rdtg_box.timestamps(), vec![1u64, 4u64]);
}

/// Decoding the same bytes twice yields identical output.
#[test]
fn decoding_is_idempotent() {
    let data: Vec<u8> = rdtb_setup();
    let first = RdtbBox::read(&data).unwrap();
    let second = RdtbBox::read(&data).unwrap();
    assert_eq!(first, second);

    let gps = rdl2_setup();
    assert_eq!(Rdl2Box::read(&gps).unwrap(), Rdl2Box::read(&gps).unwrap());
}

/// `get_entry` and `duplicate` hand out the same records the decoder
/// produced.
#[test]
fn copies_preserve_records() {
    let data: Vec<u8> = rdtb_setup();
    let b = RdtbBox::read(&data).unwrap();
    assert_eq!(b.get_entry(), b.data_table);
    assert_eq!(b.duplicate(), b);
}
