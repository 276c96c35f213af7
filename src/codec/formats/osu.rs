//! The osu!mania replay format.
use vstd::prelude::*;

use crate::codec::text::{lower_of, lowercase};
use crate::codec::traits::Format;

pub mod actions;
pub mod compression;
pub mod decoder;
pub mod encoder;
pub mod laws;
pub mod parser;
pub mod types;

pub use decoder::OsuDecoder;
pub use encoder::OsuEncoder;

verus! {

/// The osu! replay format, recognised by the `osr` extension.
pub struct OsuFormat;

impl Format for OsuFormat {
    open spec fn extension_list() -> Seq<Seq<char>> {
        seq!["osr"@]
    }

    fn extensions() -> (r: Vec<String>) {
        let mut r: Vec<String> = Vec::new();
        r.push(String::from_str("osr"));
        r
    }

    fn supports_extension(ext: &str) -> (r: bool) {
        let lower = lowercase(ext);
        let r = lower.eq(&String::from_str("osr"));
        assert(seq!["osr"@].contains(lower_of(ext@)) == (lower_of(ext@) == "osr"@)) by {
            if lower_of(ext@) == "osr"@ {
                assert(seq!["osr"@][0] == lower_of(ext@));
            }
        }
        r
    }
}

} // verus!
