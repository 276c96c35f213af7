//! The binary layout of an osu! replay.
//!
//! Fields in order, integers little-endian: mode (u8), game version (u32),
//! beatmap hash, player name and replay hash (strings), six judgement counts
//! (u16 each), score (u32), max combo (u16), perfect flag (u8), mods (u32),
//! life-bar graph (string), timestamp (u64), payload length (u32), the LZMA
//! payload, and an optional trailing replay id (u64). A string is a `0x00`
//! byte when empty, else `0x0b`, a varint byte length and the UTF-8 bytes.
use vstd::prelude::*;
use vstd::utf8::{decode_utf8, encode_utf8, valid_utf8};

use crate::codec::bytes::{
    append_bytes, copy_range, le_bytes, le_value, lemma_le_value_bound, lemma_pow256_values,
    read_le, write_le,
};
use crate::codec::formats::lep::leb128_utils::{leb128_bytes, leb128_read, read_leb128, write_leb128};
use crate::codec::formats::osu::actions::{encode_mania_data, mania_events, mania_text, parse_mania_data};
use crate::codec::formats::osu::compression::{
    lzma_compress, lzma_content, lzma_decompress, lzma_stream,
};
use crate::codec::formats::osu::types::{
    game_mode_byte, game_mode_of, GameMode, OsuReplay, OsuReplayView,
};
use crate::codec::text::{is_valid_utf8, string_bytes, string_from_utf8};
use crate::error::{LeptonError, LeptonResult};

verus! {

/// Reads and writes the osu! replay layout.
pub struct OsuParser;

/// The LZMA preset the replay stream is compressed at.
pub const LZMA_LEVEL: u32 = 6;

/// Marker byte of an empty string.
pub const STRING_EMPTY: u8 = 0x00;

/// Marker byte of a non-empty string.
pub const STRING_PRESENT: u8 = 0x0b;

/// Judgement counts, score, max combo, perfect flag and mods: a fixed block.
pub const SCORE_BLOCK_LEN: usize = 23;

/// The number read from the `n` bytes at `pos`.
pub open spec fn le_at(data: Seq<u8>, pos: int, n: int) -> nat {
    le_value(data.subrange(pos, pos + n))
}

/// Reading a string at `pos`: its characters and the position past it.
pub open spec fn osu_read_string(data: Seq<u8>, pos: int) -> Result<(Seq<char>, int), LeptonError> {
    if pos < 0 || pos >= data.len() {
        Err(LeptonError::Truncated)
    } else if data[pos] == STRING_EMPTY {
        Ok((Seq::empty(), pos + 1))
    } else if data[pos] != STRING_PRESENT {
        Err(LeptonError::InvalidStringMarker(data[pos]))
    } else {
        match leb128_read(data, pos + 1) {
            None => Err(LeptonError::Leb128Read),
            Some((n, p)) => if p + n > data.len() {
                Err(LeptonError::Truncated)
            } else if !valid_utf8(data.subrange(p, p + n)) {
                Err(LeptonError::Utf8)
            } else {
                Ok((decode_utf8(data.subrange(p, p + n)), p + n))
            },
        }
    }
}

/// The replay id after the payload: read when eight bytes remain, else 0.
pub open spec fn trailing_id(data: Seq<u8>, pos: int) -> i64 {
    if pos + 8 <= data.len() {
        le_at(data, pos, 8) as u64 as i64
    } else {
        0
    }
}

/// Reading a whole osu! replay. Only a mania replay has its stream read
/// into frames; any other mode gets none.
pub open spec fn osu_parse(data: Seq<u8>) -> Result<OsuReplayView, LeptonError> {
    if data.len() < 5 {
        Err(LeptonError::Truncated)
    } else {
        match osu_read_string(data, 5) {
            Err(e) => Err(e),
            Ok((beatmap_hash, p1)) => match osu_read_string(data, p1) {
                Err(e) => Err(e),
                Ok((username, p2)) => match osu_read_string(data, p2) {
                    Err(e) => Err(e),
                    Ok((replay_hash, p3)) => if p3 + SCORE_BLOCK_LEN > data.len() {
                        Err(LeptonError::Truncated)
                    } else {
                        match osu_read_string(data, p3 + SCORE_BLOCK_LEN) {
                            Err(e) => Err(e),
                            Ok((life_bar_graph, p4)) => if p4 + 12 > data.len() {
                                Err(LeptonError::Truncated)
                            } else {
                                let data_len = le_at(data, p4 + 8, 4);
                                let p5 = p4 + 12;
                                if p5 + data_len > data.len() {
                                    Err(LeptonError::Truncated)
                                } else {
                                    let payload = data.subrange(p5, p5 + data_len);
                                    let text = if data_len == 0 {
                                        Some(Seq::<u8>::empty())
                                    } else {
                                        lzma_content(payload)
                                    };
                                    match text {
                                        None => Err(LeptonError::Lzma),
                                        Some(t) => if !valid_utf8(t) {
                                            Err(LeptonError::Utf8)
                                        } else {
                                            let mode = game_mode_of(data[0]);
                                            Ok(
                                                OsuReplayView {
                                                    mode,
                                                    game_version: le_at(data, 1, 4) as u32,
                                                    beatmap_hash,
                                                    username,
                                                    replay_hash,
                                                    count_300: le_at(data, p3, 2) as u16,
                                                    count_100: le_at(data, p3 + 2, 2) as u16,
                                                    count_50: le_at(data, p3 + 4, 2) as u16,
                                                    count_geki: le_at(data, p3 + 6, 2) as u16,
                                                    count_katu: le_at(data, p3 + 8, 2) as u16,
                                                    count_miss: le_at(data, p3 + 10, 2) as u16,
                                                    score: le_at(data, p3 + 12, 4) as u32,
                                                    max_combo: le_at(data, p3 + 16, 2) as u16,
                                                    perfect: data[p3 + 18] != 0,
                                                    mods: le_at(data, p3 + 19, 4) as u32,
                                                    life_bar_graph,
                                                    timestamp: le_at(data, p4, 8) as u64,
                                                    replay_data: if mode == GameMode::Mania {
                                                        mania_events(t)
                                                    } else {
                                                        Seq::empty()
                                                    },
                                                    replay_id: trailing_id(data, p5 + data_len),
                                                },
                                            )
                                        },
                                    }
                                }
                            },
                        }
                    },
                },
            },
        }
    }
}

/// The bytes of a string: `0x00` when empty, else `0x0b`, varint length, UTF-8.
pub open spec fn osu_string_bytes(s: Seq<char>) -> Seq<u8> {
    if s.len() == 0 {
        seq![STRING_EMPTY]
    } else {
        seq![STRING_PRESENT] + leb128_bytes(encode_utf8(s).len()) + encode_utf8(s)
    }
}

/// Everything before the beatmap hash: mode and game version.
pub open spec fn osu_head_bytes(r: OsuReplayView) -> Seq<u8> {
    seq![game_mode_byte(r.mode)] + le_bytes(r.game_version as nat, 4)
}

/// The judgement counts, score, max combo, perfect flag and mods.
pub open spec fn osu_score_bytes(r: OsuReplayView) -> Seq<u8> {
    le_bytes(r.count_300 as nat, 2) + le_bytes(r.count_100 as nat, 2) + le_bytes(
        r.count_50 as nat,
        2,
    ) + le_bytes(r.count_geki as nat, 2) + le_bytes(r.count_katu as nat, 2) + le_bytes(
        r.count_miss as nat,
        2,
    ) + le_bytes(r.score as nat, 4) + le_bytes(r.max_combo as nat, 2) + seq![
        if r.perfect {
            1u8
        } else {
            0u8
        },
    ] + le_bytes(r.mods as nat, 4)
}

/// The bytes written for a replay whose compressed stream is `payload`.
pub open spec fn osu_layout(r: OsuReplayView, payload: Seq<u8>) -> Seq<u8> {
    osu_head_bytes(r) + osu_string_bytes(r.beatmap_hash) + osu_string_bytes(r.username)
        + osu_string_bytes(r.replay_hash) + osu_score_bytes(r) + osu_string_bytes(r.life_bar_graph)
        + le_bytes(r.timestamp as nat, 8) + le_bytes(payload.len(), 4) + payload + le_bytes(
        r.replay_id as u64 as nat,
        8,
    )
}

/// The compressed stream written for a replay's frames.
pub open spec fn osu_payload(r: OsuReplayView) -> Seq<u8> {
    lzma_stream(mania_text(r.replay_data), LZMA_LEVEL)
}

/// Writing `r`: the layout around the compressed stream of its frames, or
/// `PayloadTooLarge` exactly when that stream is too long for its 32-bit
/// length. Either way the stream decompresses to the text of the frames and
/// is not empty.
pub open spec fn osu_encodes_to(r: OsuReplayView, out: Result<Seq<u8>, LeptonError>) -> bool {
    &&& lzma_content(osu_payload(r)) == Some(mania_text(r.replay_data))
    &&& osu_payload(r).len() > 0
    &&& out == if osu_payload(r).len() <= u32::MAX {
        Ok::<Seq<u8>, LeptonError>(osu_layout(r, osu_payload(r)))
    } else {
        Err(LeptonError::PayloadTooLarge)
    }
}

/// Reads one byte.
fn read_u8(data: &[u8], pos: &mut usize) -> (r: LeptonResult<u8>)
    ensures
        *old(pos) + 1 <= data@.len() ==> r == Ok::<u8, LeptonError>(data@[*old(pos) as int])
            && *final(pos) == *old(pos) + 1,
        *old(pos) + 1 > data@.len() ==> r == Err::<u8, LeptonError>(LeptonError::Truncated),
{
    if *pos >= data.len() {
        return Err(LeptonError::Truncated);
    }
    let b = data[*pos];
    *pos = *pos + 1;
    Ok(b)
}

/// Reads `n` little-endian bytes.
fn read_fixed(data: &[u8], pos: &mut usize, n: usize) -> (r: LeptonResult<u64>)
    requires
        n <= 8,
    ensures
        *old(pos) + n <= data@.len() ==> r == Ok::<u64, LeptonError>(
            le_at(data@, *old(pos) as int, n as int) as u64,
        ) && *final(pos) == *old(pos) + n && le_at(data@, *old(pos) as int, n as int)
            < crate::codec::bytes::pow256(n as nat),
        *old(pos) + n > data@.len() ==> r == Err::<u64, LeptonError>(LeptonError::Truncated),
{
    if data.len() < n || *pos > data.len() - n {
        return Err(LeptonError::Truncated);
    }
    let v = read_le(data, *pos, n);
    proof {
        lemma_le_value_bound(data@.subrange(*pos as int, *pos + n));
    }
    *pos = *pos + n;
    Ok(v)
}

/// Reads a little-endian u16.
fn read_u16(data: &[u8], pos: &mut usize) -> (r: LeptonResult<u16>)
    ensures
        *old(pos) + 2 <= data@.len() ==> r == Ok::<u16, LeptonError>(
            le_at(data@, *old(pos) as int, 2) as u16,
        ) && *final(pos) == *old(pos) + 2 && le_at(data@, *old(pos) as int, 2) <= u16::MAX,
        *old(pos) + 2 > data@.len() ==> r == Err::<u16, LeptonError>(LeptonError::Truncated),
{
    proof {
        lemma_pow256_values();
    }
    let v = read_fixed(data, pos, 2)?;
    Ok(v as u16)
}

/// Reads a little-endian u32.
fn read_u32(data: &[u8], pos: &mut usize) -> (r: LeptonResult<u32>)
    ensures
        *old(pos) + 4 <= data@.len() ==> r == Ok::<u32, LeptonError>(
            le_at(data@, *old(pos) as int, 4) as u32,
        ) && *final(pos) == *old(pos) + 4 && le_at(data@, *old(pos) as int, 4) <= u32::MAX,
        *old(pos) + 4 > data@.len() ==> r == Err::<u32, LeptonError>(LeptonError::Truncated),
{
    proof {
        lemma_pow256_values();
    }
    let v = read_fixed(data, pos, 4)?;
    Ok(v as u32)
}

/// Reads a little-endian u64.
fn read_u64(data: &[u8], pos: &mut usize) -> (r: LeptonResult<u64>)
    ensures
        *old(pos) + 8 <= data@.len() ==> r == Ok::<u64, LeptonError>(
            le_at(data@, *old(pos) as int, 8) as u64,
        ) && *final(pos) == *old(pos) + 8,
        *old(pos) + 8 > data@.len() ==> r == Err::<u64, LeptonError>(LeptonError::Truncated),
{
    read_fixed(data, pos, 8)
}

/// Reads a length-prefixed string.
fn read_string(data: &[u8], pos: &mut usize) -> (r: LeptonResult<String>)
    ensures
        match osu_read_string(data@, *old(pos) as int) {
            Ok((s, p)) => r is Ok && r->Ok_0@ == s && *final(pos) == p,
            Err(e) => r == Err::<String, LeptonError>(e),
        },
{
    let b = read_u8(data, pos)?;
    if b == STRING_EMPTY {
        return Ok(String::new());
    }
    if b != STRING_PRESENT {
        return Err(LeptonError::InvalidStringMarker(b));
    }
    let len = read_leb128(data, pos)?;
    if len > (data.len() - *pos) as u64 {
        return Err(LeptonError::Truncated);
    }
    let end = *pos + len as usize;
    let bytes = copy_range(data, *pos, end);
    match string_from_utf8(bytes) {
        Some(s) => {
            *pos = end;
            Ok(s)
        },
        None => Err(LeptonError::Utf8),
    }
}

/// Writes one byte.
fn write_u8(buffer: &mut Vec<u8>, val: u8)
    ensures
        final(buffer)@ == old(buffer)@.push(val),
{
    buffer.push(val);
}

/// Writes a little-endian u16.
fn write_u16(buffer: &mut Vec<u8>, val: u16)
    ensures
        final(buffer)@ == old(buffer)@ + le_bytes(val as nat, 2),
{
    write_le(buffer, val as u64, 2);
}

/// Writes a little-endian u32.
fn write_u32(buffer: &mut Vec<u8>, val: u32)
    ensures
        final(buffer)@ == old(buffer)@ + le_bytes(val as nat, 4),
{
    write_le(buffer, val as u64, 4);
}

/// Writes a little-endian u64.
fn write_u64(buffer: &mut Vec<u8>, val: u64)
    ensures
        final(buffer)@ == old(buffer)@ + le_bytes(val as nat, 8),
{
    write_le(buffer, val, 8);
}

/// Writes a length-prefixed string.
fn write_string(buffer: &mut Vec<u8>, val: &String)
    ensures
        final(buffer)@ == old(buffer)@ + osu_string_bytes(val@),
{
    if val.as_str().is_empty() {
        write_u8(buffer, STRING_EMPTY);
    } else {
        write_u8(buffer, STRING_PRESENT);
        let bytes = string_bytes(val);
        write_leb128(bytes.len() as u64, buffer);
        append_bytes(buffer, bytes);
        assert(final(buffer)@ =~= old(buffer)@ + osu_string_bytes(val@));
    }
}

impl OsuParser {
    /// Reads an osu! replay.
    pub fn parse(data: &[u8]) -> (r: LeptonResult<OsuReplay>)
        ensures
            match osu_parse(data@) {
                Ok(v) => r is Ok && r->Ok_0@ == v,
                Err(e) => r is Err && r->Err_0 == e,
            },
    {
        let mut pos: usize = 0;
        let mode_byte = read_u8(data, &mut pos)?;
        let mode = GameMode::from(mode_byte);
        let version = read_u32(data, &mut pos)?;
        let beatmap_hash = read_string(data, &mut pos)?;
        let ghost p1 = pos as int;
        let username = read_string(data, &mut pos)?;
        let ghost p2 = pos as int;
        let replay_hash = read_string(data, &mut pos)?;
        let ghost p3 = pos as int;
        assert(osu_read_string(data@, 5) == Ok::<(Seq<char>, int), LeptonError>((beatmap_hash@, p1)));
        assert(osu_read_string(data@, p1) == Ok::<(Seq<char>, int), LeptonError>((username@, p2)));
        assert(osu_read_string(data@, p2) == Ok::<(Seq<char>, int), LeptonError>((replay_hash@, p3)));
        let count_300 = read_u16(data, &mut pos)?;
        let count_100 = read_u16(data, &mut pos)?;
        let count_50 = read_u16(data, &mut pos)?;
        let count_geki = read_u16(data, &mut pos)?;
        let count_katu = read_u16(data, &mut pos)?;
        let count_miss = read_u16(data, &mut pos)?;
        let score = read_u32(data, &mut pos)?;
        let max_combo = read_u16(data, &mut pos)?;
        let perfect = read_u8(data, &mut pos)? != 0;
        let mods = read_u32(data, &mut pos)?;
        let life_bar_graph = read_string(data, &mut pos)?;
        let ghost p4 = pos as int;
        assert(p3 + SCORE_BLOCK_LEN <= data@.len());
        assert(osu_read_string(data@, p3 + SCORE_BLOCK_LEN) == Ok::<(Seq<char>, int), LeptonError>(
            (life_bar_graph@, p4),
        ));
        let timestamp = read_u64(data, &mut pos)?;
        let data_len = read_u32(data, &mut pos)?;
        if data_len as usize > data.len() - pos {
            return Err(LeptonError::Truncated);
        }
        let end = pos + data_len as usize;
        let compressed = copy_range(data, pos, end);
        let ghost p5 = pos as int;
        assert(p5 == p4 + 12);
        assert(data_len as nat == le_at(data@, p4 + 8, 4));
        assert(compressed@ == data@.subrange(p5, p5 + data_len as nat));
        pos = end;
        let text: Vec<u8> = if data_len > 0 {
            match lzma_decompress(compressed.as_slice()) {
                Some(t) => t,
                None => {
                    return Err(LeptonError::Lzma);
                },
            }
        } else {
            Vec::new()
        };
        let replay_id: u64 = if pos < data.len() {
            match read_u64(data, &mut pos) {
                Ok(v) => v,
                Err(_) => 0,
            }
        } else {
            0
        };
        if !is_valid_utf8(text.as_slice()) {
            return Err(LeptonError::Utf8);
        }
        let replay_data = if mode == GameMode::Mania {
            parse_mania_data(text.as_slice())
        } else {
            Vec::new()
        };
        Ok(
            OsuReplay {
                mode,
                game_version: version,
                beatmap_hash,
                username,
                replay_hash,
                count_300,
                count_100,
                count_50,
                count_geki,
                count_katu,
                count_miss,
                score,
                max_combo,
                perfect,
                mods,
                life_bar_graph,
                timestamp,
                replay_data,
                replay_id: #[verifier::truncate] (replay_id as i64),
            },
        )
    }

    /// Writes an osu! replay; its frames are written as text and LZMA-compressed.
    pub fn encode(replay: &OsuReplay) -> (r: LeptonResult<Vec<u8>>)
        ensures
            osu_encodes_to(
                replay@,
                match r {
                    Ok(b) => Ok(b@),
                    Err(e) => Err(e),
                },
            ),
    {
        let mut buffer: Vec<u8> = Vec::new();
        write_u8(&mut buffer, replay.mode.to_byte());
        write_u32(&mut buffer, replay.game_version);
        write_string(&mut buffer, &replay.beatmap_hash);
        write_string(&mut buffer, &replay.username);
        write_string(&mut buffer, &replay.replay_hash);
        let ghost head = buffer@;
        write_u16(&mut buffer, replay.count_300);
        write_u16(&mut buffer, replay.count_100);
        write_u16(&mut buffer, replay.count_50);
        write_u16(&mut buffer, replay.count_geki);
        write_u16(&mut buffer, replay.count_katu);
        write_u16(&mut buffer, replay.count_miss);
        write_u32(&mut buffer, replay.score);
        write_u16(&mut buffer, replay.max_combo);
        write_u8(&mut buffer, if replay.perfect { 1 } else { 0 });
        write_u32(&mut buffer, replay.mods);
        assert(buffer@ =~= head + osu_score_bytes(replay@));
        write_string(&mut buffer, &replay.life_bar_graph);
        write_u64(&mut buffer, replay.timestamp);
        let text = encode_mania_data(replay.replay_data.as_slice());
        let compressed = lzma_compress(text.as_slice(), LZMA_LEVEL).unwrap();
        if compressed.len() > 0xFFFF_FFFF {
            return Err(LeptonError::PayloadTooLarge);
        }
        write_u32(&mut buffer, compressed.len() as u32);
        append_bytes(&mut buffer, compressed.as_slice());
        write_u64(&mut buffer, replay.replay_id as u64);
        assert(buffer@ =~= osu_layout(replay@, compressed@));
        Ok(buffer)
    }
}

} // verus!
