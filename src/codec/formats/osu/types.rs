//! Core types for osu! replay data.
use vstd::prelude::*;

verus! {

/// The game mode tag at the start of an osu! replay.
#[derive(Debug, Clone, Copy, PartialEq, Eq, Structural)]
pub enum GameMode {
    Std,
    Taiko,
    Catch,
    Mania,
}

/// The mode a tag byte names; unknown tags fall back to standard.
pub open spec fn game_mode_of(value: u8) -> GameMode {
    if value == 1 {
        GameMode::Taiko
    } else if value == 2 {
        GameMode::Catch
    } else if value == 3 {
        GameMode::Mania
    } else {
        GameMode::Std
    }
}

/// The tag byte of a mode.
pub open spec fn game_mode_byte(mode: GameMode) -> u8 {
    match mode {
        GameMode::Std => 0,
        GameMode::Taiko => 1,
        GameMode::Catch => 2,
        GameMode::Mania => 3,
    }
}

impl GameMode {
    /// The tag byte of this mode.
    pub fn to_byte(self) -> (r: u8)
        ensures
            r == game_mode_byte(self),
    {
        match self {
            GameMode::Std => 0,
            GameMode::Taiko => 1,
            GameMode::Catch => 2,
            GameMode::Mania => 3,
        }
    }
}

impl From<u8> for GameMode {
    fn from(value: u8) -> (r: Self) {
        match value {
            1 => GameMode::Taiko,
            2 => GameMode::Catch,
            3 => GameMode::Mania,
            _ => GameMode::Std,
        }
    }
}

impl vstd::std_specs::convert::FromSpecImpl<u8> for GameMode {
    open spec fn obeys_from_spec() -> bool {
        true
    }

    open spec fn from_spec(v: u8) -> GameMode {
        game_mode_of(v)
    }
}

/// The set of mania keys held in one replay frame, one bit per column.
#[derive(Debug, Clone, Copy, PartialEq, Eq, Structural)]
pub struct KeyMania(pub u32);

impl KeyMania {
    /// The raw bitmask.
    pub fn value(&self) -> (r: u32)
        ensures
            r == self.0,
    {
        self.0
    }
}

impl From<u32> for KeyMania {
    fn from(value: u32) -> (r: Self) {
        KeyMania(value)
    }
}

impl vstd::std_specs::convert::FromSpecImpl<u32> for KeyMania {
    open spec fn obeys_from_spec() -> bool {
        true
    }

    open spec fn from_spec(v: u32) -> KeyMania {
        KeyMania(v)
    }
}

/// One replay frame: milliseconds since the previous frame and the keys held.
#[derive(Debug, Clone, Copy, PartialEq, Eq, Structural)]
pub struct ReplayEventMania {
    pub time_delta: i32,
    pub keys: KeyMania,
}

/// A whole osu! replay as the wire format carries it.
#[derive(Debug, Clone)]
pub struct OsuReplay {
    pub mode: GameMode,
    pub game_version: u32,
    pub beatmap_hash: String,
    pub username: String,
    pub replay_hash: String,
    pub count_300: u16,
    pub count_100: u16,
    pub count_50: u16,
    pub count_geki: u16,
    pub count_katu: u16,
    pub count_miss: u16,
    pub score: u32,
    pub max_combo: u16,
    pub perfect: bool,
    pub mods: u32,
    pub life_bar_graph: String,
    /// Windows ticks.
    pub timestamp: u64,
    pub replay_data: Vec<ReplayEventMania>,
    pub replay_id: i64,
}

/// The mathematical value of an osu! replay.
pub struct OsuReplayView {
    pub mode: GameMode,
    pub game_version: u32,
    pub beatmap_hash: Seq<char>,
    pub username: Seq<char>,
    pub replay_hash: Seq<char>,
    pub count_300: u16,
    pub count_100: u16,
    pub count_50: u16,
    pub count_geki: u16,
    pub count_katu: u16,
    pub count_miss: u16,
    pub score: u32,
    pub max_combo: u16,
    pub perfect: bool,
    pub mods: u32,
    pub life_bar_graph: Seq<char>,
    pub timestamp: u64,
    pub replay_data: Seq<ReplayEventMania>,
    pub replay_id: i64,
}

impl View for OsuReplay {
    type V = OsuReplayView;

    open spec fn view(&self) -> OsuReplayView {
        OsuReplayView {
            mode: self.mode,
            game_version: self.game_version,
            beatmap_hash: self.beatmap_hash@,
            username: self.username@,
            replay_hash: self.replay_hash@,
            count_300: self.count_300,
            count_100: self.count_100,
            count_50: self.count_50,
            count_geki: self.count_geki,
            count_katu: self.count_katu,
            count_miss: self.count_miss,
            score: self.score,
            max_combo: self.max_combo,
            perfect: self.perfect,
            mods: self.mods,
            life_bar_graph: self.life_bar_graph@,
            timestamp: self.timestamp,
            replay_data: self.replay_data@,
            replay_id: self.replay_id,
        }
    }
}

} // verus!
