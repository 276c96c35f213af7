//! Format codecs and the capability traits that drive them.

pub mod bytes;
pub mod formats;
pub mod text;
pub mod traits;

pub use traits::{convert, Decoder, Encoder, Format};
