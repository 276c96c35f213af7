use lepton::codec::formats::lep::decoder::decode_layout;
use lepton::codec::formats::lep::encoder::{encode_layout, write_hash};
use lepton::codec::formats::lep::{LepDecoder, LepEncoder};
use lepton::codec::traits::{Decoder, Encoder};
use lepton::error::LeptonError;
use lepton::model::{ReplayData, ReplayInput};

#[test]
fn test_decode_empty_replay() {
    let replay = ReplayData::new(vec![]);
    let encoded = LepEncoder::encode(&replay).unwrap();
    let decoded = LepDecoder::decode(&encoded).unwrap();

    assert_eq!(decoded.version, 1);
    assert_eq!(f64::from_bits(decoded.rate_bits), 1.0);
    assert_eq!(decoded.hash, None);
    assert_eq!(decoded.inputs.len(), 0);
}

#[test]
fn test_roundtrip_with_hash() {
    let replay = ReplayData::with_params(1.5f64.to_bits(), Some("test_hash_123".to_string()), vec![]);
    let encoded = LepEncoder::encode(&replay).unwrap();
    let decoded = LepDecoder::decode(&encoded).unwrap();

    assert_eq!(f64::from_bits(decoded.rate_bits), 1.5);
    assert_eq!(decoded.hash, Some("test_hash_123".to_string()));
}

#[test]
fn test_roundtrip_with_inputs() {
    let inputs = vec![
        ReplayInput::new(1000, 0, true, false),
        ReplayInput::new(500, 2, false, false),
        ReplayInput::new(2000, 5, true, true),
    ];
    let replay = ReplayData::new(inputs.clone());
    let encoded = LepEncoder::encode(&replay).unwrap();
    let decoded = LepDecoder::decode(&encoded).unwrap();

    assert_eq!(decoded.inputs.len(), 3);
    assert_eq!(decoded.inputs[0].delta_us, 1000);
    assert_eq!(decoded.inputs[1].delta_us, 500);
    assert_eq!(decoded.inputs[2].delta_us, 2000);

    assert_eq!(decoded.inputs[0].column(), 0);
    assert_eq!(decoded.inputs[0].is_press(), true);
    assert_eq!(decoded.inputs[0].is_auto(), false);

    assert_eq!(decoded.inputs[2].is_auto(), true);
}

#[test]
fn test_invalid_magic() {
    let bad_data = b"BAD\0data";
    let result = LepDecoder::decode(bad_data);
    assert!(result.is_err());
}

#[test]
fn test_truncated_data() {
    let bad_data = b"LEP\0";
    let result = LepDecoder::decode(bad_data);
    assert!(result.is_err());
}

#[test]
fn test_roundtrip_complete() {
    let inputs = vec![
        ReplayInput::new(0, 0, true, false),
        ReplayInput::new(100_000, 0, false, false),
        ReplayInput::new(50_000, 1, true, false),
        ReplayInput::new(150_000, 1, false, false),
    ];
    let replay = ReplayData::with_params(1.0f64.to_bits(), Some("chart_hash_abc".to_string()), inputs);

    let encoded = LepEncoder::encode(&replay).unwrap();
    let decoded = LepDecoder::decode(&encoded).unwrap();

    assert_eq!(decoded, replay);
}

#[test]
fn test_encode_empty_replay() {
    let replay = ReplayData::new(vec![]);
    let data = LepEncoder::encode(&replay).unwrap();
    assert!(!data.is_empty());
}

#[test]
fn test_encode_with_hash() {
    let replay = ReplayData::with_params(1.0f64.to_bits(), Some("abc123".to_string()), vec![]);
    let data = LepEncoder::encode(&replay).unwrap();
    assert!(!data.is_empty());
}

#[test]
fn test_encode_simple_inputs() {
    let inputs = vec![
        ReplayInput::new(1000, 0, true, false),
        ReplayInput::new(500, 2, false, false),
    ];
    let replay = ReplayData::new(inputs);
    let data = LepEncoder::encode(&replay).unwrap();
    assert!(!data.is_empty());
}

#[test]
fn test_encode_with_rate() {
    let replay = ReplayData::with_params(1.5f64.to_bits(), None, vec![]);
    let data = LepEncoder::encode(&replay).unwrap();
    assert!(!data.is_empty());
}

#[test]
fn test_encode_auto_flag() {
    let inputs = vec![ReplayInput::new(100, 5, true, true)];
    let replay = ReplayData::new(inputs);
    let data = LepEncoder::encode(&replay).unwrap();
    assert!(!data.is_empty());
}

#[test]
fn layout_exact_bytes() {
    let inputs = vec![ReplayInput::new(300, 2, true, false)];
    let replay = ReplayData::with_params(1.0f64.to_bits(), Some("ab".to_string()), inputs);
    let raw = encode_layout(&replay);
    let mut want = b"LEP\0".to_vec();
    want.push(1);
    want.extend_from_slice(&1.0f64.to_le_bytes());
    want.extend_from_slice(&[2, b'a', b'b', 1, 0xAC, 0x02, 0x12]);
    assert_eq!(raw, want);
}

#[test]
fn write_hash_bytes() {
    let mut buf = Vec::new();
    write_hash(&None, &mut buf);
    assert_eq!(buf, vec![0]);
    let mut buf = vec![9];
    write_hash(&Some("é".to_string()), &mut buf);
    assert_eq!(buf, vec![9, 2, 0xC3, 0xA9]);
}

#[test]
fn encode_compresses_the_layout() {
    let replay = ReplayData::new(vec![ReplayInput::new(1, 1, true, false)]);
    let encoded = LepEncoder::encode(&replay).unwrap();
    assert_ne!(encoded, encode_layout(&replay));
    assert_eq!(&encoded[0..4], &[0x28, 0xB5, 0x2F, 0xFD]);
}

#[test]
fn layout_round_trip_exact() {
    let inputs = vec![
        ReplayInput::new(1000, 0, true, false),
        ReplayInput::new(500, 2, false, false),
        ReplayInput::new(2000, 5, true, true),
        ReplayInput { delta_us: u64::MAX, packed: 0xFF },
    ];
    let replay = ReplayData::with_params(0.75f64.to_bits(), Some("ハッシュ".to_string()), inputs);
    let raw = encode_layout(&replay);
    let mut cleared = replay.clone();
    cleared.inputs[3].packed = 0x3F;
    assert_eq!(decode_layout(&raw), Ok(cleared.clone()));
    let decoded = LepDecoder::decode(&LepEncoder::encode(&replay).unwrap()).unwrap();
    assert_eq!(decoded, cleared);
}

#[test]
fn reserved_bits_written_as_zero() {
    let replay = ReplayData::new(vec![ReplayInput { delta_us: 5, packed: 0xD7 }]);
    let raw = encode_layout(&replay);
    assert_eq!(*raw.last().unwrap(), 0x17);
    let decoded = LepDecoder::decode(&LepEncoder::encode(&replay).unwrap()).unwrap();
    assert_eq!(decoded.inputs[0].packed, 0x17);
    assert_eq!(decoded.inputs[0].unpack(), (7, true, false));
}

#[test]
fn layout_rejects_bad_magic() {
    assert_eq!(decode_layout(b"BAD\0data"), Err(LeptonError::InvalidMagic));
    assert_eq!(decode_layout(b"LE"), Err(LeptonError::InvalidMagic));
}

#[test]
fn layout_rejects_truncation() {
    assert_eq!(decode_layout(b"LEP\0"), Err(LeptonError::Truncated));
    let mut raw = b"LEP\0".to_vec();
    raw.push(1);
    raw.extend_from_slice(&1.0f64.to_le_bytes());
    assert_eq!(decode_layout(&raw), Err(LeptonError::Leb128Read));
    let mut long_hash = raw.clone();
    long_hash.extend_from_slice(&[5, b'a']);
    assert_eq!(decode_layout(&long_hash), Err(LeptonError::Truncated));
    let mut missing_packed = raw.clone();
    missing_packed.extend_from_slice(&[0, 1, 0x10]);
    assert_eq!(decode_layout(&missing_packed), Err(LeptonError::Truncated));
    let mut missing_delta = raw.clone();
    missing_delta.extend_from_slice(&[0, 2, 0x10, 0x01]);
    assert_eq!(decode_layout(&missing_delta), Err(LeptonError::Leb128Read));
}

#[test]
fn layout_rejects_invalid_utf8_hash() {
    let mut raw = b"LEP\0".to_vec();
    raw.push(1);
    raw.extend_from_slice(&1.0f64.to_le_bytes());
    raw.extend_from_slice(&[1, 0xFF, 0]);
    assert_eq!(decode_layout(&raw), Err(LeptonError::Utf8));
}

#[test]
fn layout_keeps_version_byte_and_ignores_trailing_bytes() {
    let mut raw = b"LEP\0".to_vec();
    raw.push(7);
    raw.extend_from_slice(&2.0f64.to_le_bytes());
    raw.extend_from_slice(&[0, 0, 0xAA, 0xBB]);
    let decoded = decode_layout(&raw).unwrap();
    assert_eq!(decoded.version, 7);
    assert_eq!(f64::from_bits(decoded.rate_bits), 2.0);
    assert_eq!(decoded.hash, None);
    assert!(decoded.inputs.is_empty());
}

#[test]
fn empty_hash_comes_back_absent() {
    let replay = ReplayData::with_params(1.0f64.to_bits(), Some(String::new()), vec![]);
    let decoded = LepDecoder::decode(&LepEncoder::encode(&replay).unwrap()).unwrap();
    assert_eq!(decoded.hash, None);
}

#[test]
fn decode_rejects_corrupt_frame() {
    assert_eq!(LepDecoder::decode(b"BAD\0data"), Err(LeptonError::InvalidMagic));
    assert_eq!(LepDecoder::decode(b""), Err(LeptonError::InvalidMagic));
}
