use voice_probe::codec::{DecodeError, PingRecord, FRAME_LEN, MAGIC_BYTE, RECORD_LEN};

const PROTOCOL_BYTES: [u8; 16] = [
    0x58, 0xbc, 0x9a, 0xe9, 0xc7, 0xa8, 0x45, 0xe4, 0xa1, 0x1c, 0xef, 0xbb, 0x67, 0x19, 0x94, 0x25,
];

#[test]
fn encodes_id_then_big_endian_timestamp() {
    let r = PingRecord::new(0x000102030405060708090a0b0c0d0e0f, 0x1122334455667788);
    let b = r.to_bytes();
    assert_eq!(b.len(), RECORD_LEN);
    let expected: Vec<u8> = vec![
        0x00, 0x01, 0x02, 0x03, 0x04, 0x05, 0x06, 0x07, 0x08, 0x09, 0x0a, 0x0b, 0x0c, 0x0d, 0x0e,
        0x0f, 0x11, 0x22, 0x33, 0x44, 0x55, 0x66, 0x77, 0x88,
    ];
    assert_eq!(b, expected);
}

#[test]
fn encodes_negative_timestamp_in_twos_complement() {
    let b = PingRecord::new(0, -2).to_bytes();
    assert_eq!(&b[16..], &[0xff, 0xff, 0xff, 0xff, 0xff, 0xff, 0xff, 0xfe]);
}

#[test]
fn decode_of_encode_gives_record_back() {
    for r in [
        PingRecord::new(0, 0),
        PingRecord::new(u128::MAX, i64::MIN),
        PingRecord::new(0x58bc9ae9c7a845e4a11cefbb67199425, i64::MAX),
        PingRecord::new(12345, 1_700_000_000_123),
        PingRecord::fresh(-1),
    ] {
        assert_eq!(PingRecord::from_bytes(&r.to_bytes()), Ok(r));
    }
}

#[test]
fn decode_short_input_is_truncated() {
    assert_eq!(PingRecord::from_bytes(&[]), Err(DecodeError::Truncated));
    assert_eq!(PingRecord::from_bytes(&[0u8; 23]), Err(DecodeError::Truncated));
}

#[test]
fn decode_ignores_trailing_bytes() {
    let r = PingRecord::new(7, 9);
    let mut b = r.to_bytes();
    b.extend_from_slice(&[1, 2, 3]);
    assert_eq!(PingRecord::from_bytes(&b), Ok(r));
}

#[test]
fn frame_is_forty_two_bytes_with_envelope() {
    let r = PingRecord::new(0xaabb, 1_000);
    let f = r.frame();
    assert_eq!(f.len(), FRAME_LEN);
    assert_eq!(f.len(), 42);
    assert_eq!(f[0], MAGIC_BYTE);
    assert_eq!(f[0], 0xff);
    assert_eq!(&f[1..17], &PROTOCOL_BYTES);
    assert_eq!(f[17], 24);
    assert_eq!(&f[18..], &r.to_bytes()[..]);
}

#[test]
fn fresh_records_have_distinct_ids() {
    let a = PingRecord::fresh(5);
    let b = PingRecord::fresh(5);
    assert_eq!(a.timestamp, 5);
    assert_ne!(a.id, b.id);
}

#[test]
fn unframe_of_frame_gives_record_back() {
    let r = PingRecord::new(0xdead_beef, -123_456);
    assert_eq!(PingRecord::unframe(&r.frame()), Ok(r));
}

#[test]
fn unframe_tolerates_trailing_bytes() {
    let r = PingRecord::new(1, 2);
    let mut f = r.frame();
    f.extend_from_slice(&[0u8; 100]);
    assert_eq!(PingRecord::unframe(&f), Ok(r));
}

#[test]
fn unframe_rejects_wrong_magic_or_protocol() {
    let r = PingRecord::new(1, 2);
    let mut f = r.frame();
    f[0] = 0xfe;
    assert_eq!(PingRecord::unframe(&f), Err(DecodeError::BadEnvelope));
    let mut g = r.frame();
    g[5] ^= 1;
    assert_eq!(PingRecord::unframe(&g), Err(DecodeError::BadEnvelope));
    let mut h = r.frame();
    h[17] = 25;
    assert_eq!(PingRecord::unframe(&h), Err(DecodeError::BadEnvelope));
}

#[test]
fn unframe_short_input_is_truncated() {
    let f = PingRecord::new(1, 2).frame();
    assert_eq!(PingRecord::unframe(&f[..10]), Err(DecodeError::Truncated));
    assert_eq!(PingRecord::unframe(&f[..41]), Err(DecodeError::Truncated));
}
