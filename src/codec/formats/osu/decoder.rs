//! Decoder for osu! replays: key-bitmask frames become press and release inputs.
use vstd::prelude::*;

use crate::codec::formats::osu::parser::{osu_parse, OsuParser};
use crate::codec::formats::osu::types::{GameMode, ReplayEventMania};
use crate::codec::traits::Decoder;
use crate::error::{LeptonError, LeptonResult};
use crate::model::input::{pack_spec, ReplayInput};
use crate::model::replay::{ReplayData, ReplayDataView, CURRENT_VERSION, RATE_ONE_BITS};

verus! {

/// osu! replay decoder.
pub struct OsuDecoder;

/// The columns the replay model can hold.
pub const KEY_COLUMNS: u32 = 16;

/// Keys held so far, milliseconds since the last emitted input, and the
/// inputs emitted so far.
pub struct KeyState {
    pub keys: u32,
    pub acc_ms: int,
    pub inputs: Seq<ReplayInput>,
}

/// The inputs for the bits of `changed` from column `col` up, lowest first:
/// a press where the bit is set in `keys`, else a release. The first carries
/// `delta_us`, the rest 0.
pub open spec fn frame_inputs(changed: u32, keys: u32, delta_us: u64, col: int) -> Seq<ReplayInput>
    decreases 16 - col,
{
    if col >= 16 || col < 0 {
        Seq::empty()
    } else if changed & (1u32 << (col as u32)) != 0 {
        seq![
            ReplayInput {
                delta_us,
                packed: pack_spec(col as u8, keys & (1u32 << (col as u32)) != 0, false),
            },
        ] + frame_inputs(changed, keys, 0, col + 1)
    } else {
        frame_inputs(changed, keys, delta_us, col + 1)
    }
}

/// The state before any frame.
pub open spec fn key_state_init() -> KeyState {
    KeyState { keys: 0, acc_ms: 0, inputs: Seq::empty() }
}

/// One frame: time accumulates; a frame that changes no key emits nothing;
/// a key above the sixteenth column is refused; otherwise the changed keys
/// are emitted and the accumulated time is spent on the first of them.
pub open spec fn key_step(st: KeyState, e: ReplayEventMania) -> Result<KeyState, LeptonError> {
    let acc = st.acc_ms + e.time_delta;
    let changed = st.keys ^ e.keys.0;
    if changed == 0 {
        Ok(KeyState { keys: st.keys, acc_ms: acc, inputs: st.inputs })
    } else if e.keys.0 > 0xFFFF {
        Err(LeptonError::KeyLimit)
    } else {
        let delta: int = if acc < 0 {
            0
        } else {
            acc * 1000
        };
        if delta > u64::MAX {
            Err(LeptonError::DeltaOverflow)
        } else {
            Ok(
                KeyState {
                    keys: e.keys.0,
                    acc_ms: 0,
                    inputs: st.inputs + frame_inputs(changed, e.keys.0, delta as u64, 0),
                },
            )
        }
    }
}

/// All frames in order.
pub open spec fn key_fold(events: Seq<ReplayEventMania>) -> Result<KeyState, LeptonError>
    decreases events.len(),
{
    if events.len() == 0 {
        Ok(key_state_init())
    } else {
        match key_fold(events.drop_last()) {
            Err(e) => Err(e),
            Ok(st) => key_step(st, events.last()),
        }
    }
}

/// Decoding an osu! replay: only mania replays are accepted, and any other
/// is refused with the mode byte found; the chart hash is the beatmap hash
/// and the rate is 1.0.
pub open spec fn osu_decode(data: Seq<u8>) -> Result<ReplayDataView, LeptonError> {
    match osu_parse(data) {
        Err(e) => Err(e),
        Ok(r) => if r.mode != GameMode::Mania {
            Err(LeptonError::UnsupportedMode(data[0]))
        } else {
            match key_fold(r.replay_data) {
                Err(e) => Err(e),
                Ok(st) => Ok(
                    ReplayDataView {
                        version: CURRENT_VERSION,
                        rate_bits: RATE_ONE_BITS,
                        hash: Some(r.beatmap_hash),
                        inputs: st.inputs,
                    },
                ),
            }
        },
    }
}

proof fn lemma_key_fold_err(events: Seq<ReplayEventMania>, i: int, e: LeptonError)
    requires
        0 <= i <= events.len(),
        key_fold(events.subrange(0, i)) == Err::<KeyState, LeptonError>(e),
    ensures
        key_fold(events) == Err::<KeyState, LeptonError>(e),
    decreases events.len() - i,
{
    if i < events.len() {
        let next = events.subrange(0, i + 1);
        assert(next.drop_last() =~= events.subrange(0, i));
        lemma_key_fold_err(events, i + 1, e);
    } else {
        assert(events.subrange(0, i) =~= events);
    }
}

/// Turns key-bitmask frames into press and release inputs.
pub fn events_to_inputs(events: &[ReplayEventMania]) -> (r: LeptonResult<Vec<ReplayInput>>)
    ensures
        match key_fold(events@) {
            Ok(st) => r is Ok && r->Ok_0@ == st.inputs,
            Err(e) => r == Err::<Vec<ReplayInput>, LeptonError>(e),
        },
{
    let mut inputs: Vec<ReplayInput> = Vec::new();
    let mut current_keys: u32 = 0;
    let mut accumulated_delta_ms: i128 = 0;
    let n = events.len();
    let mut i: usize = 0;
    while i < n
        invariant
            i <= events@.len(),
            n == events@.len(),
            key_fold(events@.subrange(0, i as int)) == Ok::<KeyState, LeptonError>(
                KeyState { keys: current_keys, acc_ms: accumulated_delta_ms as int, inputs: inputs@ },
            ),
            -(i as int) * 0x8000_0000 <= accumulated_delta_ms <= (i as int) * 0x8000_0000,
        decreases events@.len() - i,
    {
        let ghost prefix1 = events@.subrange(0, i + 1);
        assert(prefix1.drop_last() =~= events@.subrange(0, i as int));
        let event = events[i];
        accumulated_delta_ms = accumulated_delta_ms + event.time_delta as i128;
        let new_keys = event.keys.0;
        let changed_keys = current_keys ^ new_keys;
        if changed_keys != 0 {
            if new_keys > 0xFFFF {
                proof {
                    lemma_key_fold_err(events@, i + 1, LeptonError::KeyLimit);
                }
                return Err(LeptonError::KeyLimit);
            }
            let delta_us: u64 = if accumulated_delta_ms < 0 {
                0
            } else if accumulated_delta_ms > 18_446_744_073_709_551 {
                proof {
                    lemma_key_fold_err(events@, i + 1, LeptonError::DeltaOverflow);
                }
                return Err(LeptonError::DeltaOverflow);
            } else {
                (accumulated_delta_ms * 1000) as u64
            };
            let ghost base = inputs@;
            let mut first_event_in_frame = true;
            let mut col: u32 = 0;
            while col < KEY_COLUMNS
                invariant
                    col <= 16,
                    base + frame_inputs(changed_keys, new_keys, delta_us, 0) == inputs@
                        + frame_inputs(
                        changed_keys,
                        new_keys,
                        if first_event_in_frame {
                            delta_us
                        } else {
                            0
                        },
                        col as int,
                    ),
                decreases 16 - col,
            {
                let mask = 1u32 << col;
                if (changed_keys & mask) != 0 {
                    let is_press = (new_keys & mask) != 0;
                    let d = if first_event_in_frame {
                        delta_us
                    } else {
                        0
                    };
                    let input = ReplayInput::new(d, col as u8, is_press, false);
                    let ghost before = inputs@;
                    inputs.push(input);
                    assert(before + frame_inputs(changed_keys, new_keys, d, col as int) =~= inputs@
                        + frame_inputs(changed_keys, new_keys, 0, col + 1));
                    first_event_in_frame = false;
                }
                col = col + 1;
            }
            assert(inputs@ + frame_inputs(changed_keys, new_keys, 0, 16) =~= inputs@);
            assert(inputs@ + frame_inputs(changed_keys, new_keys, delta_us, 16) =~= inputs@);
            accumulated_delta_ms = 0;
            current_keys = new_keys;
        }
        i = i + 1;
    }
    assert(events@.subrange(0, i as int) =~= events@);
    Ok(inputs)
}

impl Decoder for OsuDecoder {
    open spec fn decode_spec(data: Seq<u8>) -> Result<ReplayDataView, LeptonError> {
        osu_decode(data)
    }

    fn decode(data: &[u8]) -> (r: LeptonResult<ReplayData>) {
        let osu_replay = OsuParser::parse(data)?;
        if osu_replay.mode != GameMode::Mania {
            return Err(LeptonError::UnsupportedMode(data[0]));
        }
        let inputs = events_to_inputs(osu_replay.replay_data.as_slice())?;
        Ok(ReplayData::with_params(RATE_ONE_BITS, Some(osu_replay.beatmap_hash), inputs))
    }
}

} // verus!
