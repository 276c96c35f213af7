//! LEP format encoder.
//!
//! Layout before compression: magic `"LEP\0"`, version byte, rate as eight
//! little-endian bytes, varint hash length and UTF-8 hash bytes (length 0 for
//! no hash), varint input count, then a varint delta and a packed byte per input.
use vstd::prelude::*;
use vstd::utf8::encode_utf8;

use crate::codec::bytes::{append_bytes, le_bytes, write_le};
use crate::codec::formats::lep::compression::{zstd_compress, zstd_content, zstd_frame};
use crate::codec::formats::lep::leb128_utils::{leb128_bytes, write_leb128};
use crate::codec::text::string_bytes;
use crate::codec::traits::Encoder;
use crate::error::{LeptonError, LeptonResult};
use crate::model::input::ReplayInput;
use crate::model::replay::{opt_string_view, ReplayData, ReplayDataView, CURRENT_VERSION};

verus! {

/// LEP format encoder.
pub struct LepEncoder;

/// The zstd level the container is compressed at.
pub const ZSTD_LEVEL: i32 = 3;

/// The magic tag `"LEP\0"`.
pub open spec fn lep_magic() -> Seq<u8> {
    seq![0x4Cu8, 0x45u8, 0x50u8, 0x00u8]
}

/// Varint length and UTF-8 bytes of the hash; a lone zero for no hash.
pub open spec fn lep_hash_bytes(hash: Option<Seq<char>>) -> Seq<u8> {
    match hash {
        Some(h) => leb128_bytes(encode_utf8(h).len()) + encode_utf8(h),
        None => leb128_bytes(0),
    }
}

/// A varint delta and the packed byte of each input, in order; the two
/// reserved bits of the packed byte are written as zero.
pub open spec fn lep_inputs_bytes(inputs: Seq<ReplayInput>) -> Seq<u8>
    decreases inputs.len(),
{
    if inputs.len() == 0 {
        Seq::empty()
    } else {
        lep_inputs_bytes(inputs.drop_last()) + leb128_bytes(inputs.last().delta_us as nat) + seq![
            (inputs.last().packed % 64) as u8,
        ]
    }
}

/// The uncompressed container for a replay. The version byte is always the current one.
pub open spec fn lep_layout(x: ReplayDataView) -> Seq<u8> {
    lep_magic() + seq![CURRENT_VERSION] + le_bytes(x.rate_bits as nat, 8) + lep_hash_bytes(x.hash)
        + leb128_bytes(x.inputs.len()) + lep_inputs_bytes(x.inputs)
}

/// Writes the header (magic, version, rate) to the buffer.
fn write_header(replay: &ReplayData, buffer: &mut Vec<u8>)
    ensures
        final(buffer)@ == old(buffer)@ + lep_magic() + seq![CURRENT_VERSION] + le_bytes(
            replay.rate_bits as nat,
            8,
        ),
{
    buffer.push(0x4C);
    buffer.push(0x45);
    buffer.push(0x50);
    buffer.push(0x00);
    buffer.push(CURRENT_VERSION);
    let ghost mid = buffer@;
    write_le(buffer, replay.rate_bits, 8);
    assert(mid =~= old(buffer)@ + lep_magic() + seq![CURRENT_VERSION]);
}

/// Writes the hash (varint length and UTF-8 bytes) to the buffer.
pub fn write_hash(hash: &Option<String>, buffer: &mut Vec<u8>)
    ensures
        final(buffer)@ == old(buffer)@ + lep_hash_bytes(opt_string_view(*hash)),
{
    match hash {
        Some(h) => {
            let bytes = string_bytes(h);
            write_leb128(bytes.len() as u64, buffer);
            append_bytes(buffer, bytes);
            assert(final(buffer)@ =~= old(buffer)@ + lep_hash_bytes(opt_string_view(*hash)));
        },
        None => {
            write_leb128(0, buffer);
        },
    }
}

/// Writes all inputs (count, then delta and packed byte per input) to the buffer.
fn write_inputs(replay: &ReplayData, buffer: &mut Vec<u8>)
    ensures
        final(buffer)@ == old(buffer)@ + leb128_bytes(replay.inputs@.len()) + lep_inputs_bytes(
            replay.inputs@,
        ),
{
    write_leb128(replay.inputs.len() as u64, buffer);
    let ghost start = buffer@;
    let mut i: usize = 0;
    while i < replay.inputs.len()
        invariant
            i <= replay.inputs@.len(),
            buffer@ == start + lep_inputs_bytes(replay.inputs@.subrange(0, i as int)),
        decreases replay.inputs@.len() - i,
    {
        let input = replay.inputs[i];
        write_leb128(input.delta_us, buffer);
        let p = input.packed;
        assert(p & 0x3F == p % 64) by (bit_vector);
        buffer.push(p & 0x3F);
        let ghost prefix = replay.inputs@.subrange(0, i + 1);
        assert(prefix.drop_last() =~= replay.inputs@.subrange(0, i as int));
        i = i + 1;
        assert(buffer@ =~= start + lep_inputs_bytes(replay.inputs@.subrange(0, i as int)));
    }
    assert(replay.inputs@.subrange(0, i as int) =~= replay.inputs@);
    assert(buffer@ =~= old(buffer)@ + leb128_bytes(replay.inputs@.len()) + lep_inputs_bytes(
        replay.inputs@,
    ));
}

/// Builds the uncompressed container for a replay.
pub fn encode_layout(replay: &ReplayData) -> (r: Vec<u8>)
    ensures
        r@ == lep_layout(replay@),
{
    let mut buffer: Vec<u8> = Vec::new();
    write_header(replay, &mut buffer);
    write_hash(&replay.hash, &mut buffer);
    write_inputs(replay, &mut buffer);
    assert(buffer@ =~= lep_layout(replay@));
    buffer
}

impl Encoder for LepEncoder {
    /// Always the zstd frame of the layout, which decompresses to the layout.
    open spec fn encodes_to(chart: ReplayDataView, out: Result<Seq<u8>, LeptonError>) -> bool {
        &&& out == Ok::<Seq<u8>, LeptonError>(zstd_frame(lep_layout(chart), ZSTD_LEVEL))
        &&& zstd_content(zstd_frame(lep_layout(chart), ZSTD_LEVEL)) == Some(lep_layout(chart))
    }

    fn encode(replay: &ReplayData) -> (r: LeptonResult<Vec<u8>>) {
        let buffer = encode_layout(replay);
        let compressed = zstd_compress(buffer.as_slice(), ZSTD_LEVEL).unwrap();
        Ok(compressed)
    }
}

} // verus!
