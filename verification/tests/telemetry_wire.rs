use bandwidth::telemetry::{decode_event, encode_event, is_pass, offset_secs, PacketLog, EVENT_BYTES};

#[test]
fn encoded_layout_is_fixed_little_endian() {
    let e = PacketLog { now: 0x0102_0304_0506_0708, action: 0x1122_3344, tot_len: 0xAABB_CCDD };
    let bytes = encode_event(&e);
    assert_eq!(bytes.len(), EVENT_BYTES);
    assert_eq!(
        bytes,
        vec![
            0x08, 0x07, 0x06, 0x05, 0x04, 0x03, 0x02, 0x01, // offset, 8-byte unsigned
            0x44, 0x33, 0x22, 0x11, // action, 4-byte signed
            0xDD, 0xCC, 0xBB, 0xAA, // length, 4-byte unsigned
        ]
    );
}

#[test]
fn round_trip_preserves_records() {
    let samples = [
        PacketLog { now: 0, action: 0, tot_len: 0 },
        PacketLog { now: 143_051, action: 1, tot_len: 1500 },
        PacketLog { now: u64::MAX, action: -7, tot_len: u32::MAX },
    ];
    for e in samples {
        let bytes = encode_event(&e);
        assert_eq!(decode_event(&bytes), Some(e));
    }
}

#[test]
fn malformed_records_yield_none() {
    assert_eq!(decode_event(&[]), None);
    assert_eq!(decode_event(&[0u8; 15]), None);
    assert_eq!(decode_event(&[0u8; 17]), None);
}

#[test]
fn collector_line_parts() {
    let e = PacketLog { now: 2_500_000_000, action: 1, tot_len: 1500 };
    assert_eq!(offset_secs(&e), 2);
    assert!(is_pass(&e));
    let d = PacketLog { now: 0, action: 0, tot_len: 9000 };
    assert!(!is_pass(&d));
}
