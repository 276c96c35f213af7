//! Capability traits for format conversion.
use vstd::prelude::*;
use vstd::utf8::{encode_utf8, valid_utf8};

use crate::codec::text::string_from_utf8;
use crate::error::{LeptonError, LeptonResult};
use crate::model::replay::{replay_result_view, ReplayData, ReplayDataView};

verus! {

/// The byte view of an encode result.
pub open spec fn bytes_result_view(r: LeptonResult<Vec<u8>>) -> Result<Seq<u8>, LeptonError> {
    match r {
        Ok(b) => Ok(b@),
        Err(e) => Err(e),
    }
}

/// Decoding from a format into the replay model.
pub trait Decoder {
    /// What decoding `data` yields.
    spec fn decode_spec(data: Seq<u8>) -> Result<ReplayDataView, LeptonError>;

    /// Decodes a replay from raw bytes.
    fn decode(data: &[u8]) -> (r: LeptonResult<ReplayData>)
        ensures
            replay_result_view(r) == Self::decode_spec(data@),
    ;
}

/// Encoding from the replay model into a format.
pub trait Encoder {
    /// Whether `out` is an outcome that encoding `chart` may have.
    spec fn encodes_to(chart: ReplayDataView, out: Result<Seq<u8>, LeptonError>) -> bool;

    /// Encodes a replay to raw bytes.
    fn encode(chart: &ReplayData) -> (r: LeptonResult<Vec<u8>>)
        ensures
            Self::encodes_to(chart@, bytes_result_view(r)),
    ;

    /// Encodes a replay to a string, for formats whose bytes are UTF-8 text.
    fn encode_to_string(chart: &ReplayData) -> (r: LeptonResult<String>)
        ensures
            match r {
                Ok(s) => Self::encodes_to(chart@, Ok(encode_utf8(s@))),
                Err(LeptonError::Utf8) => Self::encodes_to(chart@, Err(LeptonError::Utf8)) || exists|b: Seq<u8>|
                    Self::encodes_to(chart@, Ok(b)) && !valid_utf8(b),
                Err(e) => Self::encodes_to(chart@, Err(e)),
            },
    {
        let data = Self::encode(chart);
        match data {
            Ok(bytes) => {
                let ghost b = bytes@;
                match string_from_utf8(bytes) {
                    Some(s) => {
                        proof {
                            vstd::utf8::decode_utf8_encode_utf8(b);
                        }
                        Ok(s)
                    },
                    None => Err(LeptonError::Utf8),
                }
            },
            Err(e) => Err(e),
        }
    }
}

/// A format recognised by file extension.
pub trait Format {
    /// The extensions of the format, lower case, without the leading dot.
    spec fn extension_list() -> Seq<Seq<char>>;

    /// The extensions of the format, lower case, without the leading dot.
    fn extensions() -> (r: Vec<String>)
        ensures
            r@.len() == Self::extension_list().len(),
            forall|i: int| 0 <= i < r@.len() ==> (#[trigger] r@[i])@ == Self::extension_list()[i],
    ;

    /// Whether the format uses the extension `ext`, ignoring case.
    fn supports_extension(ext: &str) -> (r: bool)
        ensures
            r == Self::extension_list().contains(crate::codec::text::lower_of(ext@)),
    ;
}

/// Converts bytes of one format to bytes of another through the replay model.
pub fn convert<D: Decoder, E: Encoder>(data: &[u8]) -> (r: LeptonResult<Vec<u8>>)
    ensures
        match D::decode_spec(data@) {
            Ok(chart) => E::encodes_to(chart, bytes_result_view(r)),
            Err(e) => r == Err::<Vec<u8>, LeptonError>(e),
        },
{
    let chart = D::decode(data)?;
    E::encode(&chart)
}

} // verus!
