//! The native LEP container format.

pub mod compression;
pub mod decoder;
pub mod encoder;
pub mod laws;
pub mod leb128_utils;

pub use decoder::LepDecoder;
pub use encoder::LepEncoder;
