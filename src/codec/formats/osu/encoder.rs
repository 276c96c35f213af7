//! Encoder for osu! replays: press and release inputs become key-bitmask frames.
use vstd::prelude::*;
use vstd::string::StringExecFns;

use crate::codec::formats::osu::parser::{osu_encodes_to, OsuParser};
use crate::codec::formats::osu::types::{
    GameMode, KeyMania, OsuReplay, OsuReplayView, ReplayEventMania,
};
use crate::codec::traits::{bytes_result_view, Encoder};
use crate::error::{LeptonError, LeptonResult};
use crate::model::input::ReplayInput;
use crate::model::replay::{ReplayData, ReplayDataView};

verus! {

/// osu! replay encoder.
pub struct OsuEncoder;

/// The game version written into every replay.
pub const GAME_VERSION: u32 = 20240101;

/// The keys held after `input`, starting from `keys`: its column's bit set
/// for a press, cleared for a release.
pub open spec fn apply_input(keys: u32, input: ReplayInput) -> u32 {
    let mask = 1u32 << (input.spec_column() as u32);
    if input.spec_is_press() {
        keys | mask
    } else {
        keys & !mask
    }
}

/// The keys held after all of `inputs`, starting from none.
pub open spec fn keys_after(inputs: Seq<ReplayInput>) -> u32
    decreases inputs.len(),
{
    if inputs.len() == 0 {
        0
    } else {
        apply_input(keys_after(inputs.drop_last()), inputs.last())
    }
}

/// Whole milliseconds of a microsecond delta, rounded toward zero.
pub open spec fn ms_of(delta_us: u64) -> i32 {
    (delta_us / 1000) as i32
}

/// Every delta is at most `i32::MAX` whole milliseconds, the most a frame can hold.
pub open spec fn deltas_fit(inputs: Seq<ReplayInput>) -> bool {
    forall|i: int| 0 <= i < inputs.len() ==> (#[trigger] inputs[i]).delta_us / 1000 <= i32::MAX
}

/// One frame per input: its delta in milliseconds and the keys held after it.
pub open spec fn frames_of(inputs: Seq<ReplayInput>) -> Seq<ReplayEventMania>
    decreases inputs.len(),
{
    if inputs.len() == 0 {
        Seq::empty()
    } else {
        frames_of(inputs.drop_last()).push(
            ReplayEventMania {
                time_delta: ms_of(inputs.last().delta_us),
                keys: KeyMania(keys_after(inputs)),
            },
        )
    }
}

/// The osu! replay written for a replay: its frames and chart hash, with
/// placeholders for the scoring fields the replay model does not carry.
pub open spec fn placeholder_replay(chart: ReplayDataView) -> OsuReplayView {
    OsuReplayView {
        mode: GameMode::Mania,
        game_version: GAME_VERSION,
        beatmap_hash: match chart.hash {
            Some(h) => h,
            None => Seq::empty(),
        },
        username: "LeptonUser"@,
        replay_hash: Seq::empty(),
        count_300: 0,
        count_100: 0,
        count_50: 0,
        count_geki: 0,
        count_katu: 0,
        count_miss: 0,
        score: 0,
        max_combo: 0,
        perfect: true,
        mods: 0,
        life_bar_graph: Seq::empty(),
        timestamp: 0,
        replay_data: frames_of(chart.inputs),
        replay_id: 0,
    }
}

/// Turns press and release inputs into key-bitmask frames. A delta of more
/// than `i32::MAX` milliseconds is refused.
pub fn inputs_to_events(inputs: &[ReplayInput]) -> (r: LeptonResult<Vec<ReplayEventMania>>)
    ensures
        deltas_fit(inputs@) ==> r is Ok && r->Ok_0@ == frames_of(inputs@),
        !deltas_fit(inputs@) ==> r == Err::<Vec<ReplayEventMania>, LeptonError>(
            LeptonError::DeltaOverflow,
        ),
{
    let mut events: Vec<ReplayEventMania> = Vec::new();
    let mut current_keys: u32 = 0;
    let mut i: usize = 0;
    while i < inputs.len()
        invariant
            i <= inputs@.len(),
            events@ == frames_of(inputs@.subrange(0, i as int)),
            current_keys == keys_after(inputs@.subrange(0, i as int)),
            forall|j: int| 0 <= j < i ==> (#[trigger] inputs@[j]).delta_us / 1000 <= i32::MAX,
        decreases inputs@.len() - i,
    {
        let ghost prefix1 = inputs@.subrange(0, i + 1);
        assert(prefix1.drop_last() =~= inputs@.subrange(0, i as int));
        let input = inputs[i];
        if input.delta_us / 1000 > i32::MAX as u64 {
            assert(!deltas_fit(inputs@));
            return Err(LeptonError::DeltaOverflow);
        }
        let col = input.column();
        let mask = 1u32 << (col as u32);
        if input.is_press() {
            current_keys = current_keys | mask;
        } else {
            current_keys = current_keys & !mask;
        }
        events.push(
            ReplayEventMania {
                time_delta: (input.delta_us / 1000) as i32,
                keys: KeyMania(current_keys),
            },
        );
        i = i + 1;
    }
    assert(inputs@.subrange(0, i as int) =~= inputs@);
    Ok(events)
}

impl Encoder for OsuEncoder {
    /// A delta beyond 32-bit milliseconds is refused; otherwise the replay is
    /// written as its placeholder osu! replay.
    open spec fn encodes_to(chart: ReplayDataView, out: Result<Seq<u8>, LeptonError>) -> bool {
        if deltas_fit(chart.inputs) {
            osu_encodes_to(placeholder_replay(chart), out)
        } else {
            out == Err::<Seq<u8>, LeptonError>(LeptonError::DeltaOverflow)
        }
    }

    fn encode(chart: &ReplayData) -> (r: LeptonResult<Vec<u8>>) {
        let events = inputs_to_events(chart.inputs.as_slice())?;
        let beatmap_hash = match &chart.hash {
            Some(h) => h.clone(),
            None => String::new(),
        };
        let osu_replay = OsuReplay {
            mode: GameMode::Mania,
            game_version: GAME_VERSION,
            beatmap_hash,
            username: String::from_str("LeptonUser"),
            replay_hash: String::new(),
            count_300: 0,
            count_100: 0,
            count_50: 0,
            count_geki: 0,
            count_katu: 0,
            count_miss: 0,
            score: 0,
            max_combo: 0,
            perfect: true,
            mods: 0,
            life_bar_graph: String::new(),
            timestamp: 0,
            replay_data: events,
            replay_id: 0,
        };
        assert(osu_replay@ == placeholder_replay(chart@));
        let r = OsuParser::encode(&osu_replay);
        assert(bytes_result_view(r) == match r {
            Ok(b) => Ok::<Seq<u8>, LeptonError>(b@),
            Err(e) => Err(e),
        });
        r
    }
}

} // verus!
