//! Errors reported by the codecs.
use vstd::prelude::*;

verus! {

/// Every way a decode or an encode can fail. All are recoverable.
#[derive(Debug, Clone, Copy, PartialEq, Eq, Structural)]
pub enum LeptonError {
    /// Bytes that should hold UTF-8 text do not.
    Utf8,
    /// A varint is truncated or does not fit in 64 bits.
    Leb128Read,
    /// The container does not decompress, or its magic tag is wrong.
    InvalidMagic,
    /// A field reaches past the end of the buffer.
    Truncated,
    /// The replay is for a game mode other than mania; holds the mode byte found.
    UnsupportedMode(u8),
    /// A key above the sixteenth column is held.
    KeyLimit,
    /// A length-prefixed string starts with a marker other than 0x00 or 0x0b.
    InvalidStringMarker(u8),
    /// The LZMA payload does not decompress.
    Lzma,
    /// An accumulated time delta does not fit in 64 bits of microseconds.
    DeltaOverflow,
    /// The compressed replay stream is longer than a 32-bit length can state.
    PayloadTooLarge,
}

/// Result of a codec operation.
pub type LeptonResult<T> = Result<T, LeptonError>;

} // verus!
