//! The whole-buffer zstd pass around every LEP container.
use vstd::prelude::*;

verus! {

/// The zstd frame that `zstd::encode_all` produces for `data` at `level`.
pub uninterp spec fn zstd_frame(data: Seq<u8>, level: i32) -> Seq<u8>;

/// What `zstd::decode_all` yields for `frame`: `None` where it fails.
pub uninterp spec fn zstd_content(frame: Seq<u8>) -> Option<Seq<u8>>;

/// Relies on `zstd::encode_all`: it returns the frame for the data at that
/// level, and decompressing that frame gives the data back. Reading from a
/// byte slice into a `Vec`, it fails only when memory runs out; zstd clamps
/// the level to its range.
#[verifier::external_body]
pub(crate) fn zstd_compress(data: &[u8], level: i32) -> (r: Option<Vec<u8>>)
    ensures
        r is Some,
        r is Some ==> r->0@ == zstd_frame(data@, level),
        r is Some ==> zstd_content(r->0@) == Some(data@),
{
    zstd::encode_all(data, level).ok()
}

/// Relies on `zstd::decode_all`.
#[verifier::external_body]
pub(crate) fn zstd_decompress(frame: &[u8]) -> (r: Option<Vec<u8>>)
    ensures
        match r {
            Some(v) => zstd_content(frame@) == Some(v@),
            None => zstd_content(frame@) is None,
        },
{
    zstd::decode_all(frame).ok()
}

} // verus!
