//! The two supported formats: the native LEP container and osu!mania replays.

pub mod lep;
pub mod osu;
