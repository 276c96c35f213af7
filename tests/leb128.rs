use lepton::codec::formats::lep::leb128_utils::{read_leb128, write_leb128};
use lepton::error::LeptonError;

#[test]
fn test_leb128_small_values() {
    for val in 0..=127 {
        let mut buf = Vec::new();
        write_leb128(val, &mut buf);
        assert_eq!(buf.len(), 1);

        let mut pos = 0usize;
        let decoded = read_leb128(&buf, &mut pos).unwrap();
        assert_eq!(decoded, val);
    }
}

#[test]
fn test_leb128_large_values() {
    let test_cases = vec![
        (128, 2),
        (255, 2),
        (16383, 2),
        (16384, 3),
        (100_000, 3),
        (1_000_000, 3),
    ];

    for (val, expected_bytes) in test_cases {
        let mut buf = Vec::new();
        write_leb128(val, &mut buf);
        assert_eq!(
            buf.len(),
            expected_bytes,
            "Value {} should encode to {} bytes",
            val,
            expected_bytes
        );

        let mut pos = 0usize;
        let decoded = read_leb128(&buf, &mut pos).unwrap();
        assert_eq!(decoded, val);
    }
}

#[test]
fn test_leb128_roundtrip() {
    let test_values = vec![
        0,
        1,
        127,
        128,
        255,
        256,
        1000,
        10_000,
        100_000,
        1_000_000,
        u64::MAX,
    ];

    for val in test_values {
        let mut buf = Vec::new();
        write_leb128(val, &mut buf);

        let mut pos = 0usize;
        let decoded = read_leb128(&buf, &mut pos).unwrap();
        assert_eq!(decoded, val, "Roundtrip failed for value {}", val);
    }
}

#[test]
fn test_leb128_empty_buffer() {
    let buf: Vec<u8> = vec![];
    let mut pos = 0usize;
    let result = read_leb128(&buf, &mut pos);
    assert!(result.is_err());
}

#[test]
fn test_leb128_truncated() {
    let buf = vec![0x80];
    let mut pos = 0usize;
    let result = read_leb128(&buf, &mut pos);
    assert!(result.is_err());
}

#[test]
fn leb128_exact_bytes() {
    let mut buf = vec![0xEE];
    write_leb128(300, &mut buf);
    assert_eq!(buf, vec![0xEE, 0xAC, 0x02]);
    let mut max = Vec::new();
    write_leb128(u64::MAX, &mut max);
    assert_eq!(max.len(), 10);
    assert_eq!(max[9], 0x01);
}

#[test]
fn leb128_read_advances_past_value() {
    let buf = vec![0x05, 0xAC, 0x02, 0x7F];
    let mut pos = 1usize;
    assert_eq!(read_leb128(&buf, &mut pos), Ok(300));
    assert_eq!(pos, 3);
    assert_eq!(read_leb128(&buf, &mut pos), Ok(127));
    assert_eq!(pos, 4);
}

#[test]
fn leb128_errors_leave_position() {
    let buf = vec![0x01];
    let mut pos = 2usize;
    assert_eq!(read_leb128(&buf, &mut pos), Err(LeptonError::Leb128Read));
    assert_eq!(pos, 2);
}

#[test]
fn leb128_overflow_rejected() {
    let mut buf = vec![0xFF; 9];
    buf.push(0x02);
    let mut pos = 0usize;
    assert_eq!(read_leb128(&buf, &mut pos), Err(LeptonError::Leb128Read));
    let mut eleven = vec![0x80; 10];
    eleven.push(0x00);
    let mut pos = 0usize;
    assert_eq!(read_leb128(&eleven, &mut pos), Err(LeptonError::Leb128Read));
    let mut ten = vec![0x80; 9];
    ten.push(0x00);
    let mut pos = 0usize;
    assert_eq!(read_leb128(&ten, &mut pos), Ok(0));
    assert_eq!(pos, 10);
}
