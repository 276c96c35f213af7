//! The LZMA pass around the replay stream of an osu! replay.
use vstd::prelude::*;

verus! {

/// The xz stream that `liblzma::encode_all` produces for `data` at `level`.
pub uninterp spec fn lzma_stream(data: Seq<u8>, level: u32) -> Seq<u8>;

/// What `liblzma::decode_all` yields for `stream`: `None` where it fails.
pub uninterp spec fn lzma_content(stream: Seq<u8>) -> Option<Seq<u8>>;

/// Relies on `liblzma::encode_all`: it returns the stream for the data at
/// that level, and decompressing that stream gives the data back. Presets
/// 0 to 9 are accepted (a higher one makes `XzEncoder::new` panic); the
/// encoder then fails only when memory runs out. The result is one .xz
/// stream (`Stream::new_easy_encoder`), which always begins with a stream
/// header, so it is never empty.
#[verifier::external_body]
pub(crate) fn lzma_compress(data: &[u8], level: u32) -> (r: Option<Vec<u8>>)
    requires
        level <= 9,
    ensures
        r is Some,
        r is Some ==> r->0@ == lzma_stream(data@, level),
        r is Some ==> lzma_content(r->0@) == Some(data@),
        r is Some ==> r->0@.len() > 0,
{
    liblzma::encode_all(data, level).ok()
}

/// Relies on `liblzma::decode_all`.
#[verifier::external_body]
pub(crate) fn lzma_decompress(stream: &[u8]) -> (r: Option<Vec<u8>>)
    ensures
        match r {
            Some(v) => lzma_content(stream@) == Some(v@),
            None => lzma_content(stream@) is None,
        },
{
    liblzma::decode_all(stream).ok()
}

} // verus!
