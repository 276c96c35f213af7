use lepton::model::input::ReplayInput;
use lepton::model::replay::{ReplayData, RATE_ONE_BITS};

#[test]
fn test_pack_unpack_roundtrip() {
    let packed = ReplayInput::pack(7, true, false);
    let input = ReplayInput {
        delta_us: 1000,
        packed,
    };
    let (col, press, auto) = input.unpack();
    assert_eq!(col, 7);
    assert_eq!(press, true);
    assert_eq!(auto, false);
}

#[test]
fn test_column_bounds() {
    for col in 0..=15 {
        let packed = ReplayInput::pack(col, false, false);
        let input = ReplayInput {
            delta_us: 0,
            packed,
        };
        assert_eq!(input.column(), col);
    }
}

#[test]
fn test_all_flags() {
    let input = ReplayInput::new(500, 3, true, true);
    assert_eq!(input.column(), 3);
    assert_eq!(input.is_press(), true);
    assert_eq!(input.is_auto(), true);
    assert_eq!(input.delta_us, 500);
}

#[test]
fn pack_exact_bytes() {
    assert_eq!(ReplayInput::pack(0, false, false), 0x00);
    assert_eq!(ReplayInput::pack(15, false, false), 0x0F);
    assert_eq!(ReplayInput::pack(5, true, false), 0x15);
    assert_eq!(ReplayInput::pack(5, false, true), 0x25);
    assert_eq!(ReplayInput::pack(15, true, true), 0x3F);
}

#[test]
fn unpack_pack_every_combination() {
    for col in 0..=15u8 {
        for press in [false, true] {
            for auto in [false, true] {
                let input = ReplayInput::new(0, col, press, auto);
                assert_eq!(input.unpack(), (col, press, auto));
                assert_eq!(input.packed & 0xC0, 0);
            }
        }
    }
}

#[test]
fn reserved_bits_ignored_on_read() {
    let input = ReplayInput { delta_us: 0, packed: 0xC0 | 0x10 | 9 };
    assert_eq!(input.unpack(), (9, true, false));
}

#[test]
fn replay_new_defaults() {
    let replay = ReplayData::new(vec![]);
    assert_eq!(replay.version, 1);
    assert_eq!(replay.rate_bits, RATE_ONE_BITS);
    assert_eq!(f64::from_bits(replay.rate_bits), 1.0);
    assert_eq!(replay.hash, None);
    assert!(replay.inputs.is_empty());
}

#[test]
fn replay_with_params_keeps_values() {
    let inputs = vec![ReplayInput::new(10, 1, true, false)];
    let replay = ReplayData::with_params(0.5f64.to_bits(), Some("h".to_string()), inputs.clone());
    assert_eq!(replay.version, 1);
    assert_eq!(f64::from_bits(replay.rate_bits), 0.5);
    assert_eq!(replay.hash, Some("h".to_string()));
    assert_eq!(replay.inputs, inputs);
}
