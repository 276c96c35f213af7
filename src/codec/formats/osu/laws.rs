//! What holds across the osu! encoder and decoder.
use vstd::prelude::*;
use vstd::utf8::{encode_utf8, encode_utf8_decode_utf8, encode_utf8_valid_utf8};

use crate::codec::bytes::{le_bytes, lemma_le_round_trip, lemma_pow256_values};
use crate::codec::formats::lep::leb128_utils::{leb128_bytes, lemma_leb128_round_trip};
use crate::codec::formats::osu::actions::{
    lemma_mania_text_round_trip, lemma_mania_text_valid_utf8, mania_text, SEED_DELTA,
};
use crate::codec::formats::osu::compression::lzma_content;
use crate::codec::formats::osu::decoder::{frame_inputs, key_fold, KeyState, OsuDecoder};
use crate::codec::formats::osu::encoder::{
    apply_input, frames_of, keys_after, placeholder_replay, OsuEncoder,
};
use crate::codec::formats::osu::parser::{
    le_at, osu_head_bytes, osu_layout, osu_parse, osu_read_string, osu_score_bytes,
    osu_string_bytes, SCORE_BLOCK_LEN,
};
use crate::codec::formats::osu::types::{
    game_mode_byte, GameMode, OsuReplayView,
};
use crate::codec::traits::{Decoder, Encoder};
use crate::error::LeptonError;
use crate::model::input::{pack_spec, ReplayInput};
use crate::model::replay::ReplayDataView;

verus! {

proof fn lemma_osu_string_round_trip(before: Seq<u8>, s: Seq<char>, after: Seq<u8>)
    requires
        encode_utf8(s).len() <= u64::MAX,
    ensures
        osu_read_string(before + osu_string_bytes(s) + after, before.len() as int) == Ok::<
            (Seq<char>, int),
            LeptonError,
        >((s, (before.len() + osu_string_bytes(s).len()) as int)),
{
    broadcast use {encode_utf8_decode_utf8, encode_utf8_valid_utf8};

    let data = before + osu_string_bytes(s) + after;
    let pos = before.len() as int;
    if s.len() == 0 {
        assert(data[pos] == 0);
        assert(s =~= Seq::<char>::empty());
    } else {
        let u = encode_utf8(s);
        let b1 = before.push(0x0bu8);
        assert(data =~= b1 + leb128_bytes(u.len() as u64 as nat) + (u + after));
        lemma_leb128_round_trip(u.len() as u64, b1, u + after);
        let p = pos + 1 + leb128_bytes(u.len()).len() as int;
        assert(data.subrange(p, p + u.len() as int) =~= u);
        assert(data[pos] == 0x0b);
    }
}

/// The fields that the layout round trip needs to be readable back.
pub open spec fn strings_fit(r: OsuReplayView) -> bool {
    &&& encode_utf8(r.beatmap_hash).len() <= u64::MAX
    &&& encode_utf8(r.username).len() <= u64::MAX
    &&& encode_utf8(r.replay_hash).len() <= u64::MAX
    &&& encode_utf8(r.life_bar_graph).len() <= u64::MAX
}

/// Position of the score block in the bytes written for `r`.
spec fn score_pos(r: OsuReplayView) -> int {
    (5 + osu_string_bytes(r.beatmap_hash).len() + osu_string_bytes(r.username).len()
        + osu_string_bytes(r.replay_hash).len()) as int
}

/// Position of the timestamp in the bytes written for `r`.
spec fn stamp_pos(r: OsuReplayView) -> int {
    score_pos(r) + SCORE_BLOCK_LEN + osu_string_bytes(r.life_bar_graph).len()
}

/// Reading the string that stands after `before` in `before + mid + after`,
/// where `mid` begins with the bytes of `s`.
proof fn lemma_read_string_in(before: Seq<u8>, s: Seq<char>, rest: Seq<u8>, data: Seq<u8>)
    requires
        encode_utf8(s).len() <= u64::MAX,
        data == before + (osu_string_bytes(s) + rest),
    ensures
        osu_read_string(data, before.len() as int) == Ok::<(Seq<char>, int), LeptonError>(
            (s, (before.len() + osu_string_bytes(s).len()) as int),
        ),
{
    assert(data =~= before + osu_string_bytes(s) + rest);
    lemma_osu_string_round_trip(before, s, rest);
}

proof fn lemma_layout_shapes(
    h: Seq<u8>,
    s1: Seq<u8>,
    s2: Seq<u8>,
    s3: Seq<u8>,
    sc: Seq<u8>,
    s4: Seq<u8>,
    ts: Seq<u8>,
    ln: Seq<u8>,
    pl: Seq<u8>,
    id: Seq<u8>,
)
    ensures
        ({
            let d = h + s1 + s2 + s3 + sc + s4 + ts + ln + pl + id;
            let t4 = ts + ln + pl + id;
            &&& d == h + (s1 + (s2 + (s3 + (sc + (s4 + t4)))))
            &&& d == (h + s1) + (s2 + (s3 + (sc + (s4 + t4))))
            &&& d == (h + s1 + s2) + (s3 + (sc + (s4 + t4)))
            &&& d == (h + s1 + s2 + s3 + sc) + (s4 + t4)
        }),
{
    let d = h + s1 + s2 + s3 + sc + s4 + ts + ln + pl + id;
    let t4 = ts + ln + pl + id;
    assert(d =~= h + (s1 + (s2 + (s3 + (sc + (s4 + t4))))));
    assert(d =~= (h + s1) + (s2 + (s3 + (sc + (s4 + t4)))));
    assert(d =~= (h + s1 + s2) + (s3 + (sc + (s4 + t4))));
    assert(d =~= (h + s1 + s2 + s3 + sc) + (s4 + t4));
}

proof fn lemma_layout_strings(r: OsuReplayView, payload: Seq<u8>)
    requires
        strings_fit(r),
    ensures
        ({
            let data = osu_layout(r, payload);
            let p1 = 5 + osu_string_bytes(r.beatmap_hash).len() as int;
            let p2 = p1 + osu_string_bytes(r.username).len() as int;
            &&& osu_read_string(data, 5) == Ok::<(Seq<char>, int), LeptonError>(
                (r.beatmap_hash, p1),
            )
            &&& osu_read_string(data, p1) == Ok::<(Seq<char>, int), LeptonError>(
                (r.username, p2),
            )
            &&& osu_read_string(data, p2) == Ok::<(Seq<char>, int), LeptonError>(
                (r.replay_hash, score_pos(r)),
            )
            &&& osu_read_string(data, score_pos(r) + SCORE_BLOCK_LEN) == Ok::<
                (Seq<char>, int),
                LeptonError,
            >((r.life_bar_graph, stamp_pos(r)))
            &&& data.len() == stamp_pos(r) + 12 + payload.len() + 8
        }),
{
    let data = osu_layout(r, payload);
    let h = osu_head_bytes(r);
    let s1 = osu_string_bytes(r.beatmap_hash);
    let s2 = osu_string_bytes(r.username);
    let s3 = osu_string_bytes(r.replay_hash);
    let sc = osu_score_bytes(r);
    let s4 = osu_string_bytes(r.life_bar_graph);
    lemma_score_len(r);
    let tail4 = le_bytes(r.timestamp as nat, 8) + le_bytes(payload.len(), 4) + payload + le_bytes(
        r.replay_id as u64 as nat,
        8,
    );
    lemma_le_len(r.timestamp as nat, 8);
    lemma_le_len(r.replay_id as u64 as nat, 8);
    lemma_le_len(payload.len(), 4);
    let t4 = s4 + tail4;
    let t3 = sc + t4;
    let t2 = s3 + t3;
    let t1 = s2 + t2;
    lemma_layout_shapes(
        h,
        s1,
        s2,
        s3,
        sc,
        s4,
        le_bytes(r.timestamp as nat, 8),
        le_bytes(payload.len(), 4),
        payload,
        le_bytes(r.replay_id as u64 as nat, 8),
    );
    lemma_read_string_in(h, r.beatmap_hash, t1, data);
    lemma_read_string_in(h + s1, r.username, t2, data);
    lemma_read_string_in(h + s1 + s2, r.replay_hash, t3, data);
    lemma_read_string_in(h + s1 + s2 + s3 + sc, r.life_bar_graph, tail4, data);
}

proof fn lemma_le_len(v: nat, n: nat)
    ensures
        le_bytes(v, n).len() == n,
    decreases n,
{
    if n > 0 {
        lemma_le_len(v / 256, (n - 1) as nat);
    }
}

proof fn lemma_score_len(r: OsuReplayView)
    ensures
        osu_score_bytes(r).len() == SCORE_BLOCK_LEN,
        osu_head_bytes(r).len() == 5,
{
    lemma_le_len(r.game_version as nat, 4);
    lemma_le_len(r.count_300 as nat, 2);
    lemma_le_len(r.count_100 as nat, 2);
    lemma_le_len(r.count_50 as nat, 2);
    lemma_le_len(r.count_geki as nat, 2);
    lemma_le_len(r.count_katu as nat, 2);
    lemma_le_len(r.count_miss as nat, 2);
    lemma_le_len(r.score as nat, 4);
    lemma_le_len(r.max_combo as nat, 2);
    lemma_le_len(r.mods as nat, 4);
}

proof fn lemma_score_shape(
    h: Seq<u8>,
    s1: Seq<u8>,
    s2: Seq<u8>,
    s3: Seq<u8>,
    sc: Seq<u8>,
    s4: Seq<u8>,
    ts: Seq<u8>,
    ln: Seq<u8>,
    pl: Seq<u8>,
    id: Seq<u8>,
)
    ensures
        h + s1 + s2 + s3 + sc + s4 + ts + ln + pl + id == (h + s1 + s2 + s3) + sc + (s4 + ts + ln
            + pl + id),
{
    assert(h + s1 + s2 + s3 + sc + s4 + ts + ln + pl + id =~= (h + s1 + s2 + s3) + sc + (s4 + ts
        + ln + pl + id));
}

proof fn lemma_block_at(pre: Seq<u8>, block: Seq<u8>, rest: Seq<u8>, k: int, n: int)
    requires
        0 <= k,
        0 <= n,
        k + n <= block.len(),
    ensures
        (pre + block + rest).subrange(pre.len() + k, pre.len() + k + n) == block.subrange(k, k + n),
{
    assert((pre + block + rest).subrange(pre.len() + k, pre.len() + k + n) =~= block.subrange(
        k,
        k + n,
    ));
}

proof fn lemma_score_pieces(r: OsuReplayView)
    ensures
        osu_score_bytes(r).subrange(0, 2) == le_bytes(r.count_300 as nat, 2),
        osu_score_bytes(r).subrange(2, 4) == le_bytes(r.count_100 as nat, 2),
        osu_score_bytes(r).subrange(4, 6) == le_bytes(r.count_50 as nat, 2),
        osu_score_bytes(r).subrange(6, 8) == le_bytes(r.count_geki as nat, 2),
        osu_score_bytes(r).subrange(8, 10) == le_bytes(r.count_katu as nat, 2),
        osu_score_bytes(r).subrange(10, 12) == le_bytes(r.count_miss as nat, 2),
        osu_score_bytes(r).subrange(12, 16) == le_bytes(r.score as nat, 4),
        osu_score_bytes(r).subrange(16, 18) == le_bytes(r.max_combo as nat, 2),
        osu_score_bytes(r).subrange(19, 23) == le_bytes(r.mods as nat, 4),
{
    let sc = osu_score_bytes(r);
    lemma_le_len(r.count_300 as nat, 2);
    lemma_le_len(r.count_100 as nat, 2);
    lemma_le_len(r.count_50 as nat, 2);
    lemma_le_len(r.count_geki as nat, 2);
    lemma_le_len(r.count_katu as nat, 2);
    lemma_le_len(r.count_miss as nat, 2);
    lemma_le_len(r.score as nat, 4);
    lemma_le_len(r.max_combo as nat, 2);
    lemma_le_len(r.mods as nat, 4);
    assert(sc.subrange(0, 2) =~= le_bytes(r.count_300 as nat, 2));
    assert(sc.subrange(2, 4) =~= le_bytes(r.count_100 as nat, 2));
    assert(sc.subrange(4, 6) =~= le_bytes(r.count_50 as nat, 2));
    assert(sc.subrange(6, 8) =~= le_bytes(r.count_geki as nat, 2));
    assert(sc.subrange(8, 10) =~= le_bytes(r.count_katu as nat, 2));
    assert(sc.subrange(10, 12) =~= le_bytes(r.count_miss as nat, 2));
    assert(sc.subrange(12, 16) =~= le_bytes(r.score as nat, 4));
    assert(sc.subrange(16, 18) =~= le_bytes(r.max_combo as nat, 2));
    assert(sc.subrange(19, 23) =~= le_bytes(r.mods as nat, 4));
}

proof fn lemma_layout_score(r: OsuReplayView, payload: Seq<u8>)
    ensures
        ({
            let data = osu_layout(r, payload);
            let p3 = score_pos(r);
            &&& le_at(data, 1, 4) as u32 == r.game_version
            &&& data[0] == game_mode_byte(r.mode)
            &&& le_at(data, p3, 2) as u16 == r.count_300
            &&& le_at(data, p3 + 2, 2) as u16 == r.count_100
            &&& le_at(data, p3 + 4, 2) as u16 == r.count_50
            &&& le_at(data, p3 + 6, 2) as u16 == r.count_geki
            &&& le_at(data, p3 + 8, 2) as u16 == r.count_katu
            &&& le_at(data, p3 + 10, 2) as u16 == r.count_miss
            &&& le_at(data, p3 + 12, 4) as u32 == r.score
            &&& le_at(data, p3 + 16, 2) as u16 == r.max_combo
            &&& data[p3 + 18] == (if r.perfect {
                1u8
            } else {
                0u8
            })
            &&& le_at(data, p3 + 19, 4) as u32 == r.mods
        }),
{
    let data = osu_layout(r, payload);
    let h = osu_head_bytes(r);
    let sc = osu_score_bytes(r);
    let p3 = score_pos(r);
    lemma_pow256_values();
    lemma_score_len(r);
    lemma_le_round_trip(r.game_version as nat, 4);
    lemma_le_round_trip(r.count_300 as nat, 2);
    lemma_le_round_trip(r.count_100 as nat, 2);
    lemma_le_round_trip(r.count_50 as nat, 2);
    lemma_le_round_trip(r.count_geki as nat, 2);
    lemma_le_round_trip(r.count_katu as nat, 2);
    lemma_le_round_trip(r.count_miss as nat, 2);
    lemma_le_round_trip(r.score as nat, 4);
    lemma_le_round_trip(r.max_combo as nat, 2);
    lemma_le_round_trip(r.mods as nat, 4);
    let s1 = osu_string_bytes(r.beatmap_hash);
    let s2 = osu_string_bytes(r.username);
    let s3 = osu_string_bytes(r.replay_hash);
    let s4 = osu_string_bytes(r.life_bar_graph);
    let ts = le_bytes(r.timestamp as nat, 8);
    let ln = le_bytes(payload.len(), 4);
    let id = le_bytes(r.replay_id as u64 as nat, 8);
    lemma_score_shape(h, s1, s2, s3, sc, s4, ts, ln, payload, id);
    let pre = h + s1 + s2 + s3;
    let rest = s4 + ts + ln + payload + id;
    assert(pre.len() == p3);
    assert(data.subrange(1, 5) =~= le_bytes(r.game_version as nat, 4));
    lemma_block_at(pre, sc, rest, 0, 2);
    lemma_block_at(pre, sc, rest, 2, 2);
    lemma_block_at(pre, sc, rest, 4, 2);
    lemma_block_at(pre, sc, rest, 6, 2);
    lemma_block_at(pre, sc, rest, 8, 2);
    lemma_block_at(pre, sc, rest, 10, 2);
    lemma_block_at(pre, sc, rest, 12, 4);
    lemma_block_at(pre, sc, rest, 16, 2);
    lemma_block_at(pre, sc, rest, 19, 4);
    assert(data[p3 + 18] == sc[18]);
    lemma_score_pieces(r);
}

proof fn lemma_layout_tail(r: OsuReplayView, payload: Seq<u8>)
    requires
        payload.len() <= u32::MAX,
    ensures
        ({
            let data = osu_layout(r, payload);
            let p4 = stamp_pos(r);
            let p5 = p4 + 12;
            &&& le_at(data, p4, 8) as u64 == r.timestamp
            &&& le_at(data, p4 + 8, 4) == payload.len()
            &&& data.subrange(p5, p5 + payload.len()) == payload
            &&& le_at(data, p5 + payload.len(), 8) as u64 as i64 == r.replay_id
            &&& data.len() == p5 + payload.len() + 8
        }),
{
    let data = osu_layout(r, payload);
    lemma_pow256_values();
    lemma_score_len(r);
    lemma_le_round_trip(r.timestamp as nat, 8);
    lemma_le_round_trip(payload.len(), 4);
    lemma_le_round_trip(r.replay_id as u64 as nat, 8);
    let pre = osu_head_bytes(r) + osu_string_bytes(r.beatmap_hash) + osu_string_bytes(r.username)
        + osu_string_bytes(r.replay_hash) + osu_score_bytes(r) + osu_string_bytes(r.life_bar_graph);
    let ts = le_bytes(r.timestamp as nat, 8);
    let ln = le_bytes(payload.len(), 4);
    let id = le_bytes(r.replay_id as u64 as nat, 8);
    assert(data =~= pre + ts + ln + payload + id);
    let p4 = stamp_pos(r);
    assert(pre.len() == p4);
    let p5 = p4 + 12;
    assert(data.subrange(p4, p4 + 8) =~= ts);
    assert(data.subrange(p4 + 8, p4 + 12) =~= ln);
    assert(data.subrange(p5, p5 + payload.len()) =~= payload);
    assert(data.subrange(p5 + payload.len(), p5 + payload.len() + 8) =~= id);
    let x = r.replay_id;
    assert((x as u64) as i64 == x) by (bit_vector);
}

/// Reading back the bytes written for a mania replay gives the replay back,
/// every field of it, when its compressed stream decompresses to the text of
/// its frames and no frame carries the seed delta.
#[verifier::rlimit(100)]
pub proof fn lemma_osu_layout_round_trip(r: OsuReplayView, payload: Seq<u8>)
    requires
        r.mode == GameMode::Mania,
        strings_fit(r),
        0 < payload.len() <= u32::MAX,
        lzma_content(payload) == Some(mania_text(r.replay_data)),
        forall|i: int|
            0 <= i < r.replay_data.len() ==> (#[trigger] r.replay_data[i]).time_delta != SEED_DELTA,
    ensures
        osu_parse(osu_layout(r, payload)) == Ok::<OsuReplayView, LeptonError>(r),
{
    lemma_layout_strings(r, payload);
    lemma_layout_score(r, payload);
    lemma_layout_tail(r, payload);
    lemma_mania_text_valid_utf8(r.replay_data);
    lemma_mania_text_round_trip(r.replay_data);
}

/// Every input changes the keys held: no press of a held key, no release of
/// a key that is up.
pub open spec fn toggles_keys(inputs: Seq<ReplayInput>) -> bool {
    forall|i: int|
        0 <= i < inputs.len() ==> apply_input(keys_after(inputs.subrange(0, i)), #[trigger] inputs[i])
            != keys_after(inputs.subrange(0, i))
}

/// Every delta is a whole number of milliseconds that fits in 32 signed bits.
pub open spec fn whole_ms(inputs: Seq<ReplayInput>) -> bool {
    forall|i: int|
        0 <= i < inputs.len() ==> (#[trigger] inputs[i]).delta_us % 1000 == 0 && inputs[i].delta_us
            / 1000 <= i32::MAX
}

/// The input that decoding gives back for `a`: same delta, column and
/// press flag, not automatic.
pub open spec fn decoded_input(a: ReplayInput) -> ReplayInput {
    ReplayInput {
        delta_us: a.delta_us,
        packed: pack_spec(a.spec_column(), a.spec_is_press(), false),
    }
}

proof fn lemma_key_bits(k: u32, c: u32, press: bool)
    requires
        k <= 0xFFFF,
        c <= 15,
    ensures
        ({
            let m = 1u32 << c;
            let k2 = if press {
                k | m
            } else {
                k & !m
            };
            &&& k2 <= 0xFFFF
            &&& k2 != k ==> (k ^ k2) == m
            &&& (k2 & m != 0) == press
        }),
{
    let m = 1u32 << c;
    if press {
        assert((k | (1u32 << c)) <= 0xFFFF && ((k | (1u32 << c)) != k ==> (k ^ (k | (1u32 << c)))
            == (1u32 << c)) && ((k | (1u32 << c)) & (1u32 << c) != 0)) by (bit_vector)
            requires
                k <= 0xFFFF,
                c <= 15,
        ;
    } else {
        assert((k & !(1u32 << c)) <= 0xFFFF && ((k & !(1u32 << c)) != k ==> (k ^ (k & !(1u32 << c)))
            == (1u32 << c)) && ((k & !(1u32 << c)) & (1u32 << c) == 0)) by (bit_vector)
            requires
                k <= 0xFFFF,
                c <= 15,
        ;
    }
}

proof fn lemma_single_bit(c: u32, j: u32)
    requires
        c <= 15,
        j <= 15,
    ensures
        ((1u32 << c) & (1u32 << j) != 0) == (c == j),
{
    assert(((1u32 << c) & (1u32 << j) != 0) == (c == j)) by (bit_vector)
        requires
            c <= 15,
            j <= 15,
    ;
}

proof fn lemma_frame_single(c: u32, keys: u32, delta: u64, col: int)
    requires
        c <= 15,
        0 <= col <= 16,
    ensures
        col <= c ==> frame_inputs(1u32 << c, keys, delta, col) == seq![
            ReplayInput {
                delta_us: delta,
                packed: pack_spec(c as u8, keys & (1u32 << c) != 0, false),
            },
        ],
        col > c ==> frame_inputs(1u32 << c, keys, delta, col) == Seq::<ReplayInput>::empty(),
    decreases 16 - col,
{
    if col < 16 {
        lemma_frame_single(c, keys, delta, col + 1);
        lemma_frame_single(c, keys, 0, col + 1);
        lemma_single_bit(c, col as u32);
        if col == c {
            assert(frame_inputs(1u32 << c, keys, 0, col + 1) == Seq::<ReplayInput>::empty());
            assert(frame_inputs(1u32 << c, keys, delta, col) =~= seq![
                ReplayInput {
                    delta_us: delta,
                    packed: pack_spec(c as u8, keys & (1u32 << c) != 0, false),
                },
            ]);
        }
    }
}

proof fn lemma_keys_after_bound(inputs: Seq<ReplayInput>)
    ensures
        keys_after(inputs) <= 0xFFFF,
    decreases inputs.len(),
{
    if inputs.len() > 0 {
        lemma_keys_after_bound(inputs.drop_last());
        let a = inputs.last();
        lemma_key_bits(keys_after(inputs.drop_last()), a.spec_column() as u32, a.spec_is_press());
    }
}

/// Turning inputs into frames and back gives each input's delta, column
/// and press flag back, when every input changes the keys held and every
/// delta is a whole number of milliseconds within 32 signed bits.
pub proof fn lemma_key_conversion_round_trip(inputs: Seq<ReplayInput>)
    requires
        toggles_keys(inputs),
        whole_ms(inputs),
    ensures
        key_fold(frames_of(inputs)) == Ok::<KeyState, LeptonError>(
            KeyState {
                keys: keys_after(inputs),
                acc_ms: 0,
                inputs: inputs.map_values(|a: ReplayInput| decoded_input(a)),
            },
        ),
    decreases inputs.len(),
{
    if inputs.len() == 0 {
        assert(inputs.map_values(|a: ReplayInput| decoded_input(a)) =~= Seq::<ReplayInput>::empty());
    } else {
        let init = inputs.drop_last();
        let a = inputs.last();
        let n = inputs.len() - 1;
        assert(toggles_keys(init)) by {
            assert forall|i: int| 0 <= i < init.len() implies apply_input(
                keys_after(init.subrange(0, i)),
                #[trigger] init[i],
            ) != keys_after(init.subrange(0, i)) by {
                assert(init.subrange(0, i) =~= inputs.subrange(0, i));
                assert(init[i] == inputs[i]);
            }
        }
        assert(whole_ms(init)) by {
            assert forall|i: int| 0 <= i < init.len() implies (#[trigger] init[i]).delta_us % 1000
                == 0 && init[i].delta_us / 1000 <= i32::MAX by {
                assert(init[i] == inputs[i]);
            }
        }
        lemma_key_conversion_round_trip(init);
        let frames = frames_of(inputs);
        assert(frames.drop_last() =~= frames_of(init));
        let k = keys_after(init);
        let k2 = keys_after(inputs);
        lemma_keys_after_bound(init);
        let c = a.spec_column() as u32;
        lemma_key_bits(k, c, a.spec_is_press());
        assert(inputs.subrange(0, n) =~= init);
        assert(k2 != k);
        let ms = a.delta_us / 1000;
        assert(ms * 1000 == a.delta_us);
        assert((ms as i32) as int == ms);
        lemma_frame_single(c, k2, a.delta_us, 0);
        let ev = frames.last();
        assert(ev.keys.0 == k2);
        assert(ev.time_delta as int == ms);
        assert(c as u8 == a.spec_column());
        let init_mapped = init.map_values(|a: ReplayInput| decoded_input(a));
        let st0 = KeyState { keys: k, acc_ms: 0, inputs: init_mapped };
        assert(key_fold(frames) == crate::codec::formats::osu::decoder::key_step(st0, ev));
        assert(k2 == apply_input(k, a));
        assert((k ^ k2) == (1u32 << c));
        assert((k2 & (1u32 << c) != 0) == a.spec_is_press());
        let item = ReplayInput {
            delta_us: a.delta_us,
            packed: pack_spec(c as u8, k2 & (1u32 << c) != 0, false),
        };
        assert(item == decoded_input(a));
        assert(frame_inputs(k ^ k2, k2, a.delta_us, 0) == seq![item]);
        assert((1u32 << c) != 0) by (bit_vector)
            requires
                c <= 15,
        ;
        let acc = st0.acc_ms + ev.time_delta;
        assert(acc == ms);
        assert(acc * 1000 == a.delta_us);
        assert(((acc * 1000) as u64) == a.delta_us);
        let want = inputs.map_values(|a: ReplayInput| decoded_input(a));
        assert(want =~= init_mapped + seq![decoded_input(a)]);
        assert(key_fold(frames) == Ok::<KeyState, LeptonError>(
            KeyState { keys: k2, acc_ms: 0, inputs: init_mapped + seq![item] },
        ));
    }
}

/// Encoding a replay to the osu! format and decoding it back gives the same
/// number of inputs with the same deltas, columns and press flags, and the
/// chart hash back (an absent hash comes back empty). This holds when every
/// delta is a whole number of milliseconds within 32 signed bits and every
/// input changes the keys held; a second press of a held key, for one, is
/// not kept, since a frame that changes no key emits nothing.
pub proof fn lemma_osu_cross_format_round_trip(x: ReplayDataView, encoded: Seq<u8>)
    requires
        OsuEncoder::encodes_to(x, Ok(encoded)),
        whole_ms(x.inputs),
        toggles_keys(x.inputs),
        x.hash matches Some(h) ==> encode_utf8(h).len() <= u64::MAX,
    ensures
        OsuDecoder::decode_spec(encoded) is Ok,
        ({
            let y = OsuDecoder::decode_spec(encoded)->Ok_0;
            &&& y.inputs.len() == x.inputs.len()
            &&& forall|i: int|
                0 <= i < x.inputs.len() ==> {
                    &&& (#[trigger] y.inputs[i]).delta_us == x.inputs[i].delta_us
                    &&& y.inputs[i].spec_column() == x.inputs[i].spec_column()
                    &&& y.inputs[i].spec_is_press() == x.inputs[i].spec_is_press()
                }
            &&& y.hash == Some(
                match x.hash {
                    Some(h) => h,
                    None => Seq::<char>::empty(),
                },
            )
        }),
{
    let r = placeholder_replay(x);
    let frames = frames_of(x.inputs);
    let text = mania_text(frames);
    reveal_strlit("LeptonUser");
    assert(encode_utf8(Seq::<char>::empty()).len() == 0);
    assert(encode_utf8("LeptonUser"@).len() <= 40) by {
        reveal_with_fuel(encode_utf8, 11);
    }
    lemma_frames_deltas(x.inputs);
    lemma_osu_layout_round_trip(
        r,
        crate::codec::formats::osu::compression::lzma_stream(text, crate::codec::formats::osu::parser::LZMA_LEVEL),
    );
    lemma_key_conversion_round_trip(x.inputs);
    let y_inputs = x.inputs.map_values(|a: ReplayInput| decoded_input(a));
    assert forall|i: int| 0 <= i < x.inputs.len() implies {
        &&& (#[trigger] y_inputs[i]).delta_us == x.inputs[i].delta_us
        &&& y_inputs[i].spec_column() == x.inputs[i].spec_column()
        &&& y_inputs[i].spec_is_press() == x.inputs[i].spec_is_press()
    } by {
        crate::model::input::lemma_unpack_pack(
            x.inputs[i].spec_column(),
            x.inputs[i].spec_is_press(),
            false,
        );
    }
}

proof fn lemma_frames_deltas(inputs: Seq<ReplayInput>)
    requires
        whole_ms(inputs),
    ensures
        forall|i: int|
            0 <= i < frames_of(inputs).len() ==> (#[trigger] frames_of(inputs)[i]).time_delta
                != SEED_DELTA,
        frames_of(inputs).len() == inputs.len(),
    decreases inputs.len(),
{
    if inputs.len() > 0 {
        let init = inputs.drop_last();
        assert(whole_ms(init)) by {
            assert forall|i: int| 0 <= i < init.len() implies (#[trigger] init[i]).delta_us % 1000
                == 0 && init[i].delta_us / 1000 <= i32::MAX by {
                assert(init[i] == inputs[i]);
            }
        }
        lemma_frames_deltas(init);
        let f = frames_of(inputs);
        let ms = inputs.last().delta_us / 1000;
        assert((ms as i32) as int == ms);
        assert forall|i: int| 0 <= i < f.len() implies (#[trigger] f[i]).time_delta
            != SEED_DELTA by {
            if i < f.len() - 1 {
                assert(f[i] == frames_of(init)[i]);
            }
        }
    }
}

/// Decoding a readable osu! replay whose mode byte is not 3 (mania) fails
/// with the unsupported-mode error holding that byte.
pub proof fn lemma_osu_mode_gate(data: Seq<u8>)
    requires
        osu_parse(data) is Ok,
        data[0] != 3,
    ensures
        OsuDecoder::decode_spec(data) == Err::<ReplayDataView, LeptonError>(
            LeptonError::UnsupportedMode(data[0]),
        ),
{
}

} // verus!
