//! Judging of input timing against hit windows.

pub mod timing;
