//! Replay-data interchange for vertically-scrolling rhythm games: the native
//! LEP container, the osu!mania replay format, and conversion between them,
//! with hit-window judging for the decoded inputs.

pub mod codec;
pub mod engine;
pub mod error;
pub mod model;
