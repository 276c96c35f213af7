//! LEP format decoder: decompresses, then reads the container back into a replay.
use vstd::prelude::*;
use vstd::utf8::{decode_utf8, valid_utf8};

use crate::codec::bytes::{copy_range, le_value, read_le};
use crate::codec::formats::lep::compression::{zstd_content, zstd_decompress};
use crate::codec::formats::lep::encoder::lep_magic;
use crate::codec::formats::lep::leb128_utils::{leb128_read, read_leb128};
use crate::codec::text::string_from_utf8;
use crate::codec::traits::Decoder;
use crate::error::{LeptonError, LeptonResult};
use crate::model::input::ReplayInput;
use crate::model::replay::{opt_string_view, replay_result_view, ReplayData, ReplayDataView};

verus! {

/// LEP format decoder.
pub struct LepDecoder;

/// Magic, version and rate: the fixed part of the container.
pub const HEADER_LEN: usize = 13;

/// Reading the optional hash at `pos`: the hash and the position past it.
pub open spec fn lep_parse_hash(raw: Seq<u8>, pos: int) -> Result<(Option<Seq<char>>, int), LeptonError> {
    match leb128_read(raw, pos) {
        None => Err(LeptonError::Leb128Read),
        Some((n, p)) => if n == 0 {
            Ok((None, p))
        } else if p + n > raw.len() {
            Err(LeptonError::Truncated)
        } else if !valid_utf8(raw.subrange(p, p + n)) {
            Err(LeptonError::Utf8)
        } else {
            Ok((Some(decode_utf8(raw.subrange(p, p + n))), p + n))
        },
    }
}

/// Reading `count` inputs at `pos`: the inputs and the position past them.
pub open spec fn lep_parse_inputs(raw: Seq<u8>, pos: int, count: nat) -> Result<
    (Seq<ReplayInput>, int),
    LeptonError,
>
    decreases count,
{
    if count == 0 {
        Ok((Seq::empty(), pos))
    } else {
        match leb128_read(raw, pos) {
            None => Err(LeptonError::Leb128Read),
            Some((d, p)) => if p + 1 > raw.len() {
                Err(LeptonError::Truncated)
            } else {
                match lep_parse_inputs(raw, p + 1, (count - 1) as nat) {
                    Ok((rest, e)) => Ok((seq![ReplayInput { delta_us: d, packed: raw[p] }] + rest, e)),
                    Err(err) => Err(err),
                }
            },
        }
    }
}

/// Reading the varint input count at `pos` and then that many inputs.
pub open spec fn lep_parse_input_list(raw: Seq<u8>, pos: int) -> Result<
    (Seq<ReplayInput>, int),
    LeptonError,
> {
    match leb128_read(raw, pos) {
        None => Err(LeptonError::Leb128Read),
        Some((count, p)) => lep_parse_inputs(raw, p, count as nat),
    }
}

/// Reading a whole uncompressed container. Bytes after the last input are ignored.
pub open spec fn lep_parse(raw: Seq<u8>) -> Result<ReplayDataView, LeptonError> {
    if raw.len() < 4 || raw.subrange(0, 4) != lep_magic() {
        Err(LeptonError::InvalidMagic)
    } else if raw.len() < HEADER_LEN {
        Err(LeptonError::Truncated)
    } else {
        match lep_parse_hash(raw, HEADER_LEN as int) {
            Err(e) => Err(e),
            Ok((hash, p)) => match lep_parse_input_list(raw, p) {
                Err(e) => Err(e),
                Ok((inputs, _)) => Ok(
                    ReplayDataView {
                        version: raw[4],
                        rate_bits: le_value(raw.subrange(5, 13)) as u64,
                        hash,
                        inputs,
                    },
                ),
            },
        }
    }
}

/// Decoding a compressed container: a frame that does not decompress is corrupt.
pub open spec fn lep_decode(data: Seq<u8>) -> Result<ReplayDataView, LeptonError> {
    match zstd_content(data) {
        None => Err(LeptonError::InvalidMagic),
        Some(raw) => lep_parse(raw),
    }
}

/// Checks the magic tag at the start of the data and moves past it.
fn read_magic(data: &[u8], pos: &mut usize) -> (r: LeptonResult<()>)
    requires
        *old(pos) == 0,
    ensures
        r is Ok <==> (data@.len() >= 4 && data@.subrange(0, 4) == lep_magic()),
        r is Ok ==> *final(pos) == 4,
        r is Err ==> r == Err::<(), LeptonError>(LeptonError::InvalidMagic),
{
    if data.len() < 4 {
        return Err(LeptonError::InvalidMagic);
    }
    if data[0] != 0x4C || data[1] != 0x45 || data[2] != 0x50 || data[3] != 0x00 {
        assert(data@.subrange(0, 4)[0] == data@[0]);
        assert(data@.subrange(0, 4)[1] == data@[1]);
        assert(data@.subrange(0, 4)[2] == data@[2]);
        assert(data@.subrange(0, 4)[3] == data@[3]);
        return Err(LeptonError::InvalidMagic);
    }
    assert(data@.subrange(0, 4) =~= lep_magic());
    *pos = 4;
    Ok(())
}

/// Reads the version byte.
fn read_version(data: &[u8], pos: &mut usize) -> (r: LeptonResult<u8>)
    ensures
        *old(pos) < data@.len() ==> r == Ok::<u8, LeptonError>(data@[*old(pos) as int])
            && *final(pos) == *old(pos) + 1,
        *old(pos) >= data@.len() ==> r == Err::<u8, LeptonError>(LeptonError::Truncated),
{
    if *pos >= data.len() {
        return Err(LeptonError::Truncated);
    }
    let version = data[*pos];
    *pos = *pos + 1;
    Ok(version)
}

/// Reads the rate bits (eight little-endian bytes).
fn read_rate(data: &[u8], pos: &mut usize) -> (r: LeptonResult<u64>)
    ensures
        *old(pos) + 8 <= data@.len() ==> r == Ok::<u64, LeptonError>(
            le_value(data@.subrange(*old(pos) as int, *old(pos) + 8)) as u64,
        ) && *final(pos) == *old(pos) + 8,
        *old(pos) + 8 > data@.len() ==> r == Err::<u64, LeptonError>(LeptonError::Truncated),
{
    if data.len() < 8 || *pos > data.len() - 8 {
        return Err(LeptonError::Truncated);
    }
    let rate = read_le(data, *pos, 8);
    *pos = *pos + 8;
    Ok(rate)
}

/// Reads the optional hash.
fn read_hash(data: &[u8], pos: &mut usize) -> (r: LeptonResult<Option<String>>)
    ensures
        match lep_parse_hash(data@, *old(pos) as int) {
            Ok((h, p)) => r is Ok && opt_string_view(r->Ok_0) == h && *final(pos) == p,
            Err(e) => r == Err::<Option<String>, LeptonError>(e),
        },
{
    let hash_len = read_leb128(data, pos)?;
    if hash_len == 0 {
        return Ok(None);
    }
    if hash_len > (data.len() - *pos) as u64 {
        return Err(LeptonError::Truncated);
    }
    let end = *pos + hash_len as usize;
    let bytes = copy_range(data, *pos, end);
    match string_from_utf8(bytes) {
        Some(s) => {
            *pos = end;
            Ok(Some(s))
        },
        None => Err(LeptonError::Utf8),
    }
}

/// Reads the input count and then every input.
fn read_inputs(data: &[u8], pos: &mut usize) -> (r: LeptonResult<Vec<ReplayInput>>)
    ensures
        match lep_parse_input_list(data@, *old(pos) as int) {
            Ok((v, p)) => r is Ok && r->Ok_0@ == v && *final(pos) == p,
            Err(e) => r == Err::<Vec<ReplayInput>, LeptonError>(e),
        },
{
    let input_count = read_leb128(data, pos)?;
    let ghost start = *pos;
    assert(lep_parse_input_list(data@, *old(pos) as int) == lep_parse_inputs(
        data@,
        start as int,
        input_count as nat,
    ));
    let mut inputs: Vec<ReplayInput> = Vec::new();
    let mut i: u64 = 0;
    while i < input_count
        invariant
            i <= input_count,
            lep_parse_input_list(data@, *old(pos) as int) == lep_parse_inputs(
                data@,
                start as int,
                input_count as nat,
            ),
            lep_parse_inputs(data@, start as int, input_count as nat) == match lep_parse_inputs(
                data@,
                *pos as int,
                (input_count - i) as nat,
            ) {
                Ok((rest, e)) => Ok((inputs@ + rest, e)),
                Err(x) => Err(x),
            },
        decreases input_count - i,
    {
        let ghost before = inputs@;
        let ghost p0 = *pos as int;
        let delta_us = match read_leb128(data, pos) {
            Ok(d) => d,
            Err(e) => {
                assert(lep_parse_inputs(data@, p0, (input_count - i) as nat) == Err::<
                    (Seq<ReplayInput>, int),
                    LeptonError,
                >(e));
                return Err(e);
            },
        };
        if *pos >= data.len() {
            assert(lep_parse_inputs(data@, p0, (input_count - i) as nat) == Err::<
                (Seq<ReplayInput>, int),
                LeptonError,
            >(LeptonError::Truncated));
            return Err(LeptonError::Truncated);
        }
        let packed = data[*pos];
        *pos = *pos + 1;
        inputs.push(ReplayInput { delta_us, packed });
        i = i + 1;
        proof {
            let item = ReplayInput { delta_us, packed };
            match lep_parse_inputs(data@, *pos as int, (input_count - i) as nat) {
                Ok((rest, e)) => {
                    assert(before + (seq![item] + rest) =~= inputs@ + rest);
                },
                Err(x) => {},
            }
        }
    }
    assert(inputs@ + Seq::<ReplayInput>::empty() =~= inputs@);
    Ok(inputs)
}

/// Reads a whole uncompressed container.
pub fn decode_layout(raw: &[u8]) -> (r: LeptonResult<ReplayData>)
    ensures
        replay_result_view(r) == lep_parse(raw@),
{
    let mut pos: usize = 0;
    read_magic(raw, &mut pos)?;
    if raw.len() < HEADER_LEN {
        return Err(LeptonError::Truncated);
    }
    let version = read_version(raw, &mut pos)?;
    let rate_bits = read_rate(raw, &mut pos)?;
    let hash = read_hash(raw, &mut pos)?;
    let inputs = read_inputs(raw, &mut pos)?;
    Ok(ReplayData { version, rate_bits, hash, inputs })
}

impl Decoder for LepDecoder {
    open spec fn decode_spec(data: Seq<u8>) -> Result<ReplayDataView, LeptonError> {
        lep_decode(data)
    }

    fn decode(data: &[u8]) -> (r: LeptonResult<ReplayData>) {
        match zstd_decompress(data) {
            Some(raw) => decode_layout(raw.as_slice()),
            None => Err(LeptonError::InvalidMagic),
        }
    }
}

} // verus!
