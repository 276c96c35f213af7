//! Replay data structure.
use vstd::prelude::*;

use crate::model::input::ReplayInput;

verus! {

/// Current revision of the replay model and of the LEP container.
pub const CURRENT_VERSION: u8 = 1;

/// The IEEE-754 double-precision bits of the rate 1.0 (normal speed).
pub const RATE_ONE_BITS: u64 = 0x3FF0_0000_0000_0000;

/// Complete replay data.
///
/// The playback rate is held as the bits of an IEEE-754 double
/// (`f64::to_bits`): 1.0 is normal speed, 0.5 half speed, 2.0 double speed.
#[derive(Debug, Clone, PartialEq)]
pub struct ReplayData {
    /// Format revision (currently 1).
    pub version: u8,
    /// Bits of the playback rate as an IEEE-754 double.
    pub rate_bits: u64,
    /// Optional hash of the chart the replay belongs to.
    pub hash: Option<String>,
    /// Inputs in chronological order; each delta is relative to its predecessor.
    pub inputs: Vec<ReplayInput>,
}

/// The mathematical value of a replay.
pub struct ReplayDataView {
    pub version: u8,
    pub rate_bits: u64,
    pub hash: Option<Seq<char>>,
    pub inputs: Seq<ReplayInput>,
}

/// The characters of an optional string.
pub open spec fn opt_string_view(s: Option<String>) -> Option<Seq<char>> {
    match s {
        Some(h) => Some(h@),
        None => None,
    }
}

impl View for ReplayData {
    type V = ReplayDataView;

    open spec fn view(&self) -> ReplayDataView {
        ReplayDataView {
            version: self.version,
            rate_bits: self.rate_bits,
            hash: opt_string_view(self.hash),
            inputs: self.inputs@,
        }
    }
}

/// The view of a replay result.
pub open spec fn replay_result_view<E>(r: Result<ReplayData, E>) -> Result<ReplayDataView, E> {
    match r {
        Ok(x) => Ok(x@),
        Err(e) => Err(e),
    }
}

impl ReplayData {
    /// Creates a replay at the current version, normal rate and without a chart hash.
    pub fn new(inputs: Vec<ReplayInput>) -> (r: Self)
        ensures
            r.version == CURRENT_VERSION,
            r.rate_bits == RATE_ONE_BITS,
            r.hash is None,
            r.inputs@ == inputs@,
    {
        ReplayData { version: CURRENT_VERSION, rate_bits: RATE_ONE_BITS, hash: None, inputs }
    }

    /// Creates a replay at the current version with the given rate bits, hash and inputs.
    pub fn with_params(rate_bits: u64, hash: Option<String>, inputs: Vec<ReplayInput>) -> (r: Self)
        ensures
            r.version == CURRENT_VERSION,
            r.rate_bits == rate_bits,
            r.hash == hash,
            r.inputs@ == inputs@,
    {
        ReplayData { version: CURRENT_VERSION, rate_bits, hash, inputs }
    }
}

} // verus!
