//! The in-memory replay model that every format converts through.

pub mod input;
pub mod replay;

pub use input::ReplayInput;
pub use replay::{ReplayData, ReplayDataView};
