//! Hit windows of particular games, built as ordered rules.

pub mod etterna;
pub mod guitar_hero;
pub mod osu;

pub use etterna::{create_etterna_windows, EtternaHitWindows, EtternaJudgement};
pub use guitar_hero::{create_gh_windows, GhHitWindows, GhJudgement};
pub use osu::{create_osu_windows, OsuHitWindows, OsuJudgement};
