use lepton::codec::formats::lep::{LepDecoder, LepEncoder};
use lepton::codec::formats::osu::actions::{
    encode_mania_data, parse_action, parse_i64, parse_mania_data, parse_u32, split_bytes,
};
use lepton::codec::formats::osu::decoder::events_to_inputs;
use lepton::codec::formats::osu::encoder::inputs_to_events;
use lepton::codec::formats::osu::parser::OsuParser;
use lepton::codec::formats::osu::types::{GameMode, KeyMania, ReplayEventMania};
use lepton::codec::formats::osu::{OsuDecoder, OsuEncoder, OsuFormat};
use lepton::codec::traits::{convert, Decoder, Encoder, Format};
use lepton::error::LeptonError;
use lepton::model::{ReplayData, ReplayInput};

#[test]
fn test_osu_roundtrip() {
    let inputs = vec![
        ReplayInput::new(10000, 0, true, false),
        ReplayInput::new(5000, 1, true, false),
        ReplayInput::new(10000, 0, false, false),
        ReplayInput::new(5000, 1, false, false),
    ];

    let original_data = ReplayData::with_params(1.0f64.to_bits(), Some("hash".to_string()), inputs.clone());

    let encoded_bytes = OsuEncoder::encode(&original_data).expect("Encoding failed");
    let decoded_data = OsuDecoder::decode(&encoded_bytes).expect("Decoding failed");

    assert_eq!(decoded_data.hash, original_data.hash);
    assert_eq!(decoded_data.inputs.len(), original_data.inputs.len());

    for (i, (orig, dec)) in original_data
        .inputs
        .iter()
        .zip(decoded_data.inputs.iter())
        .enumerate()
    {
        assert_eq!(orig.delta_us, dec.delta_us, "Mismatch at input {} (delta)", i);
        assert_eq!(orig.column(), dec.column(), "Mismatch at input {} (column)", i);
        assert_eq!(orig.is_press(), dec.is_press(), "Mismatch at input {} (press)", i);
    }
}

#[test]
fn test_mania_key_limit() {
    let inputs = vec![ReplayInput::new(1000, 15, true, false)];
    let original = ReplayData::with_params(1.0f64.to_bits(), None, inputs);
    let encoded = OsuEncoder::encode(&original).expect("Encoding failed");
    let decoded = OsuDecoder::decode(&encoded).expect("Decoding failed");

    assert_eq!(decoded.inputs[0].column(), 15);
}

fn mania_replay(events: Vec<ReplayEventMania>) -> lepton::codec::formats::osu::types::OsuReplay {
    lepton::codec::formats::osu::types::OsuReplay {
        mode: GameMode::Mania,
        game_version: 20240101,
        beatmap_hash: "map".to_string(),
        username: "player".to_string(),
        replay_hash: String::new(),
        count_300: 1,
        count_100: 2,
        count_50: 3,
        count_geki: 4,
        count_katu: 5,
        count_miss: 6,
        score: 123456,
        max_combo: 77,
        perfect: false,
        mods: 64,
        life_bar_graph: String::new(),
        timestamp: 638000000000000000,
        replay_data: events,
        replay_id: -5,
    }
}

#[test]
fn parser_round_trip_every_field() {
    let events = vec![
        ReplayEventMania { time_delta: 10, keys: KeyMania(1) },
        ReplayEventMania { time_delta: -3, keys: KeyMania(0) },
    ];
    let replay = mania_replay(events.clone());
    let bytes = OsuParser::encode(&replay).unwrap();
    assert_eq!(bytes[0], 3);
    assert_eq!(&bytes[1..5], &20240101u32.to_le_bytes());
    assert_eq!(&bytes[5..10], &[0x0b, 3, b'm', b'a', b'p']);
    let back = OsuParser::parse(&bytes).unwrap();
    assert_eq!(back.mode, GameMode::Mania);
    assert_eq!(back.game_version, 20240101);
    assert_eq!(back.beatmap_hash, "map");
    assert_eq!(back.username, "player");
    assert_eq!(back.replay_hash, "");
    assert_eq!(
        (back.count_300, back.count_100, back.count_50, back.count_geki, back.count_katu, back.count_miss),
        (1, 2, 3, 4, 5, 6)
    );
    assert_eq!(back.score, 123456);
    assert_eq!(back.max_combo, 77);
    assert_eq!(back.perfect, false);
    assert_eq!(back.mods, 64);
    assert_eq!(back.life_bar_graph, "");
    assert_eq!(back.timestamp, 638000000000000000);
    assert_eq!(back.replay_data, events);
    assert_eq!(back.replay_id, -5);
}

#[test]
fn parser_payload_is_compressed() {
    let replay = mania_replay(vec![ReplayEventMania { time_delta: 10, keys: KeyMania(1) }]);
    let bytes = OsuParser::encode(&replay).unwrap();
    let text = encode_mania_data(&replay.replay_data);
    let len = u32::from_le_bytes([bytes[51], bytes[52], bytes[53], bytes[54]]) as usize;
    let payload = &bytes[55..55 + len];
    assert_ne!(payload, text.as_slice());
    assert_eq!(&payload[..6], &[0xFD, b'7', b'z', b'X', b'Z', 0x00]);
    assert_eq!(bytes.len(), 55 + len + 8);
}

#[test]
fn parser_rejects_bad_string_marker() {
    let mut bytes = vec![3, 0, 0, 0, 0];
    bytes.push(0x07);
    assert_eq!(OsuParser::parse(&bytes).err(), Some(LeptonError::InvalidStringMarker(0x07)));
}

#[test]
fn parser_rejects_truncation() {
    assert_eq!(OsuParser::parse(&[]).err(), Some(LeptonError::Truncated));
    assert_eq!(OsuParser::parse(&[3, 1, 2]).err(), Some(LeptonError::Truncated));
    assert_eq!(OsuParser::parse(&[3, 0, 0, 0, 0, 0x0b, 9, b'a']).err(), Some(LeptonError::Truncated));
    let replay = mania_replay(vec![]);
    let bytes = OsuParser::encode(&replay).unwrap();
    let cut = bytes.len() - 8 - 2;
    assert_eq!(OsuParser::parse(&bytes[..cut]).err(), Some(LeptonError::Truncated));
}

#[test]
fn parser_optional_replay_id() {
    let replay = mania_replay(vec![]);
    let bytes = OsuParser::encode(&replay).unwrap();
    let without_id = &bytes[..bytes.len() - 8];
    assert_eq!(OsuParser::parse(without_id).unwrap().replay_id, 0);
    let partial_id = &bytes[..bytes.len() - 3];
    assert_eq!(OsuParser::parse(partial_id).unwrap().replay_id, 0);
}

#[test]
fn parser_rejects_bad_lzma_and_utf8() {
    let mut bytes = vec![3, 0, 0, 0, 0, 0, 0, 0];
    bytes.extend_from_slice(&[0u8; 23]);
    bytes.push(0);
    bytes.extend_from_slice(&[0u8; 8]);
    bytes.extend_from_slice(&3u32.to_le_bytes());
    bytes.extend_from_slice(&[1, 2, 3]);
    assert_eq!(OsuParser::parse(&bytes).err(), Some(LeptonError::Lzma));
    let mut bad_name = vec![3, 0, 0, 0, 0, 0, 0x0b, 1, 0xFF];
    bad_name.extend_from_slice(&[0u8; 40]);
    assert_eq!(OsuParser::parse(&bad_name).err(), Some(LeptonError::Utf8));
}

#[test]
fn parser_empty_payload_has_no_frames() {
    let mut bytes = vec![3, 0, 0, 0, 0, 0, 0, 0];
    bytes.extend_from_slice(&[0u8; 23]);
    bytes.push(0);
    bytes.extend_from_slice(&[0u8; 8]);
    bytes.extend_from_slice(&0u32.to_le_bytes());
    let parsed = OsuParser::parse(&bytes).unwrap();
    assert!(parsed.replay_data.is_empty());
    assert_eq!(parsed.replay_id, 0);
}

#[test]
fn mode_gate_names_the_mode() {
    let replay = ReplayData::with_params(1.0f64.to_bits(), Some("h".to_string()), vec![ReplayInput::new(1000, 0, true, false)]);
    let mut bytes = OsuEncoder::encode(&replay).unwrap();
    bytes[0] = 1;
    assert_eq!(OsuDecoder::decode(&bytes), Err(LeptonError::UnsupportedMode(1)));
    bytes[0] = 0;
    assert_eq!(OsuDecoder::decode(&bytes), Err(LeptonError::UnsupportedMode(0)));
    bytes[0] = 9;
    assert_eq!(OsuDecoder::decode(&bytes), Err(LeptonError::UnsupportedMode(9)));
    assert_eq!(OsuParser::parse(&bytes).unwrap().mode, GameMode::Std);
    bytes[0] = 3;
    assert!(OsuDecoder::decode(&bytes).is_ok());
}

#[test]
fn game_mode_conversions() {
    assert_eq!(GameMode::from(2u8), GameMode::Catch);
    assert_eq!(GameMode::from(200u8), GameMode::Std);
    assert_eq!(GameMode::Mania.to_byte(), 3);
    assert_eq!(KeyMania::from(5u32).value(), 5);
}

#[test]
fn stream_text_exact() {
    let events = vec![
        ReplayEventMania { time_delta: 10, keys: KeyMania(1) },
        ReplayEventMania { time_delta: -7, keys: KeyMania(4294967295) },
    ];
    let text = encode_mania_data(&events);
    assert_eq!(text, b"-12345|0|0|0,10|0|0|1,-7|0|0|4294967295,".to_vec());
    assert_eq!(parse_mania_data(&text), events);
}

#[test]
fn stream_parse_leniency() {
    let text = b"-12345|0|0|0,5|1|2|3,bad,,x|0|0|y,9|0|0,+4|0|0|+2,99999999999|0|0|1";
    let events = parse_mania_data(text);
    assert_eq!(
        events,
        vec![
            ReplayEventMania { time_delta: 5, keys: KeyMania(3) },
            ReplayEventMania { time_delta: 0, keys: KeyMania(0) },
            ReplayEventMania { time_delta: 4, keys: KeyMania(2) },
            ReplayEventMania { time_delta: 99999999999i64 as i32, keys: KeyMania(1) },
        ]
    );
}

#[test]
fn decimal_parsing_matches_std() {
    let cases: Vec<&[u8]> = vec![
        b"0", b"-0", b"+0", b"-", b"+", b"", b"12a", b"9223372036854775807",
        b"9223372036854775808", b"-9223372036854775808", b"-9223372036854775809",
        b"00042", b" 1", b"4294967295", b"4294967296", b"-1",
    ];
    for c in cases {
        let s = std::str::from_utf8(c).unwrap();
        assert_eq!(parse_i64(c), s.parse::<i64>().ok(), "i64 {:?}", s);
        assert_eq!(parse_u32(c), s.parse::<u32>().ok(), "u32 {:?}", s);
    }
}

#[test]
fn action_fields() {
    assert_eq!(parse_action(b"-12345|0|0|0"), None);
    assert_eq!(parse_action(b"1|2|3"), None);
    assert_eq!(parse_action(b"1|2|3|4|5"), Some(ReplayEventMania { time_delta: 1, keys: KeyMania(4) }));
    assert_eq!(split_bytes(b"a||b|", b'|'), vec![b"a".to_vec(), vec![], b"b".to_vec(), vec![]]);
    assert_eq!(split_bytes(b"", b','), vec![Vec::<u8>::new()]);
}

#[test]
fn frames_from_inputs() {
    let inputs = vec![
        ReplayInput::new(1500, 2, true, false),
        ReplayInput::new(999, 0, true, false),
        ReplayInput::new(2000, 2, false, false),
        ReplayInput::new(0, 2, false, false),
    ];
    let events = inputs_to_events(&inputs).unwrap();
    assert_eq!(
        events,
        vec![
            ReplayEventMania { time_delta: 1, keys: KeyMania(4) },
            ReplayEventMania { time_delta: 0, keys: KeyMania(5) },
            ReplayEventMania { time_delta: 2, keys: KeyMania(1) },
            ReplayEventMania { time_delta: 0, keys: KeyMania(1) },
        ]
    );
}

#[test]
fn inputs_from_frames() {
    let events = vec![
        ReplayEventMania { time_delta: 5, keys: KeyMania(0) },
        ReplayEventMania { time_delta: 3, keys: KeyMania(0b1010) },
        ReplayEventMania { time_delta: 2, keys: KeyMania(0b1010) },
        ReplayEventMania { time_delta: -1, keys: KeyMania(0b0011) },
        ReplayEventMania { time_delta: -20, keys: KeyMania(0) },
    ];
    let inputs = events_to_inputs(&events).unwrap();
    let seen: Vec<(u64, u8, bool, bool)> =
        inputs.iter().map(|i| (i.delta_us, i.column(), i.is_press(), i.is_auto())).collect();
    assert_eq!(
        seen,
        vec![
            (8000, 1, true, false),
            (0, 3, true, false),
            (1000, 0, true, false),
            (0, 3, false, false),
            (0, 0, false, false),
            (0, 1, false, false),
        ]
    );
}

#[test]
fn frames_beyond_sixteen_keys_rejected() {
    let events = vec![ReplayEventMania { time_delta: 1, keys: KeyMania(0x1_0000) }];
    assert_eq!(events_to_inputs(&events), Err(LeptonError::KeyLimit));
    let unchanged = vec![ReplayEventMania { time_delta: 1, keys: KeyMania(0) }];
    assert_eq!(events_to_inputs(&unchanged), Ok(vec![]));
}

#[test]
fn accumulated_delta_overflow_rejected() {
    let mut events = vec![ReplayEventMania { time_delta: i32::MAX, keys: KeyMania(0) }; 8_600_000];
    events.push(ReplayEventMania { time_delta: 0, keys: KeyMania(1) });
    assert_eq!(events_to_inputs(&events), Err(LeptonError::DeltaOverflow));
}

#[test]
fn osu_decoder_uses_beatmap_hash_and_normal_rate() {
    let replay = ReplayData::with_params(2.0f64.to_bits(), None, vec![ReplayInput::new(3000, 4, true, true)]);
    let decoded = OsuDecoder::decode(&OsuEncoder::encode(&replay).unwrap()).unwrap();
    assert_eq!(decoded.hash, Some(String::new()));
    assert_eq!(f64::from_bits(decoded.rate_bits), 1.0);
    assert_eq!(decoded.version, 1);
    assert_eq!(decoded.inputs, vec![ReplayInput::new(3000, 4, true, false)]);
}

#[test]
fn osu_encoder_placeholders() {
    let replay = ReplayData::with_params(1.0f64.to_bits(), Some("abc".to_string()), vec![]);
    let parsed = OsuParser::parse(&OsuEncoder::encode(&replay).unwrap()).unwrap();
    assert_eq!(parsed.username, "LeptonUser");
    assert_eq!(parsed.beatmap_hash, "abc");
    assert_eq!(parsed.perfect, true);
    assert_eq!(parsed.score, 0);
    assert_eq!(parsed.game_version, 20240101);
}

#[test]
fn cross_format_drops_sub_millisecond_and_redundant_inputs() {
    let replay = ReplayData::new(vec![
        ReplayInput::new(1500, 0, true, false),
        ReplayInput::new(2000, 0, true, false),
        ReplayInput::new(1000, 0, false, false),
    ]);
    let decoded = OsuDecoder::decode(&OsuEncoder::encode(&replay).unwrap()).unwrap();
    let seen: Vec<(u64, u8, bool)> = decoded.inputs.iter().map(|i| (i.delta_us, i.column(), i.is_press())).collect();
    assert_eq!(seen, vec![(1000, 0, true), (3000, 0, false)]);
}

#[test]
fn convert_between_formats() {
    let replay = ReplayData::with_params(1.0f64.to_bits(), Some("c".to_string()), vec![
        ReplayInput::new(4000, 1, true, false),
        ReplayInput::new(6000, 1, false, false),
    ]);
    let lep = LepEncoder::encode(&replay).unwrap();
    let osr = convert::<LepDecoder, OsuEncoder>(&lep).unwrap();
    let back = convert::<OsuDecoder, LepEncoder>(&osr).unwrap();
    assert_eq!(LepDecoder::decode(&back).unwrap(), replay);
    assert_eq!(convert::<LepDecoder, OsuEncoder>(b"junk"), Err(LeptonError::InvalidMagic));
}

#[test]
fn encode_to_string_rejects_binary() {
    let replay = ReplayData::new(vec![]);
    let bytes = OsuEncoder::encode(&replay).unwrap();
    let text = OsuEncoder::encode_to_string(&replay);
    match std::str::from_utf8(&bytes) {
        Ok(s) => assert_eq!(text, Ok(s.to_string())),
        Err(_) => assert_eq!(text, Err(LeptonError::Utf8)),
    }
}

#[test]
fn osr_extension_matches_any_case() {
    assert!(OsuFormat::supports_extension("osr"));
    assert!(OsuFormat::supports_extension("OSR"));
    assert!(OsuFormat::supports_extension("Osr"));
    assert!(!OsuFormat::supports_extension("osu"));
    assert!(!OsuFormat::supports_extension(""));
}

#[test]
fn encoder_refuses_deltas_beyond_32_bit_milliseconds() {
    let at_limit = ReplayData::new(vec![ReplayInput::new(i32::MAX as u64 * 1000 + 999, 0, true, false)]);
    let decoded = OsuDecoder::decode(&OsuEncoder::encode(&at_limit).unwrap()).unwrap();
    assert_eq!(decoded.inputs[0].delta_us, i32::MAX as u64 * 1000);
    let over = ReplayData::new(vec![
        ReplayInput::new(0, 1, true, false),
        ReplayInput::new((i32::MAX as u64 + 1) * 1000, 0, true, false),
    ]);
    assert_eq!(OsuEncoder::encode(&over), Err(LeptonError::DeltaOverflow));
    assert_eq!(inputs_to_events(&over.inputs), Err(LeptonError::DeltaOverflow));
}

#[test]
fn osr_extension_list() {
    assert_eq!(OsuFormat::extensions(), vec!["osr".to_string()]);
}
