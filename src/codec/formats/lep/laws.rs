//! What holds across the LEP encoder and decoder.
use vstd::prelude::*;
use vstd::utf8::{encode_utf8, encode_utf8_decode_utf8, encode_utf8_valid_utf8};

use crate::codec::bytes::{le_bytes, lemma_le_round_trip, lemma_pow256_values};
use crate::codec::formats::lep::decoder::{
    lep_parse, lep_parse_hash, lep_parse_input_list, lep_parse_inputs, LepDecoder,
};
use crate::codec::formats::lep::compression::zstd_content;
use crate::codec::formats::lep::encoder::{
    lep_hash_bytes, lep_inputs_bytes, lep_layout, lep_magic, LepEncoder,
};
use crate::codec::formats::lep::leb128_utils::{leb128_bytes, lemma_leb128_round_trip};
use crate::codec::text::lemma_encode_utf8_nonempty;
use crate::codec::traits::{Decoder, Encoder};
use crate::error::LeptonError;
use crate::model::input::ReplayInput;
use crate::model::replay::{ReplayDataView, CURRENT_VERSION};

verus! {

broadcast use {encode_utf8_decode_utf8, encode_utf8_valid_utf8};

/// The bytes of one input: its varint delta and its packed byte.
spec fn input_bytes(a: ReplayInput) -> Seq<u8> {
    leb128_bytes(a.delta_us as nat) + seq![(a.packed % 64) as u8]
}

/// The reserved bits 6 and 7 of every packed byte are clear, as they are in
/// every input that `ReplayInput::new` builds.
pub open spec fn reserved_bits_clear(inputs: Seq<ReplayInput>) -> bool {
    forall|i: int| 0 <= i < inputs.len() ==> (#[trigger] inputs[i]).packed < 64
}

proof fn lemma_inputs_bytes_cons(a: ReplayInput, s: Seq<ReplayInput>)
    ensures
        lep_inputs_bytes(seq![a] + s) == input_bytes(a) + lep_inputs_bytes(s),
    decreases s.len(),
{
    let t = seq![a] + s;
    if s.len() == 0 {
        assert(t.drop_last() =~= Seq::<ReplayInput>::empty());
        assert(lep_inputs_bytes(t) =~= input_bytes(a) + lep_inputs_bytes(s));
    } else {
        assert(t.drop_last() =~= seq![a] + s.drop_last());
        assert(t.last() == s.last());
        lemma_inputs_bytes_cons(a, s.drop_last());
        assert(lep_inputs_bytes(t) == lep_inputs_bytes(t.drop_last()) + input_bytes(t.last()));
        assert(lep_inputs_bytes(s) == lep_inputs_bytes(s.drop_last()) + input_bytes(s.last()));
        assert(lep_inputs_bytes(t) =~= input_bytes(a) + lep_inputs_bytes(s));
    }
}

proof fn lemma_parse_inputs_of_bytes(before: Seq<u8>, s: Seq<ReplayInput>, after: Seq<u8>)
    requires
        reserved_bits_clear(s),
    ensures
        lep_parse_inputs(before + lep_inputs_bytes(s) + after, before.len() as int, s.len()) == Ok::<
            (Seq<ReplayInput>, int),
            LeptonError,
        >((s, (before.len() + lep_inputs_bytes(s).len()) as int)),
    decreases s.len(),
{
    let raw = before + lep_inputs_bytes(s) + after;
    if s.len() > 0 {
        let a = s[0];
        let t = s.drop_first();
        assert(s =~= seq![a] + t);
        assert(a.packed < 64);
        assert(reserved_bits_clear(t)) by {
            assert forall|i: int| 0 <= i < t.len() implies (#[trigger] t[i]).packed < 64 by {
                assert(t[i] == s[i + 1]);
            }
        }
        lemma_inputs_bytes_cons(a, t);
        let rest = seq![(a.packed % 64) as u8] + lep_inputs_bytes(t) + after;
        assert(raw =~= before + leb128_bytes(a.delta_us as nat) + rest);
        lemma_leb128_round_trip(a.delta_us, before, rest);
        let p = (before.len() + leb128_bytes(a.delta_us as nat).len()) as int;
        assert(raw[p] == a.packed);
        let before2 = before + input_bytes(a);
        assert(raw =~= before2 + lep_inputs_bytes(t) + after);
        lemma_parse_inputs_of_bytes(before2, t, after);
        assert(before2.len() == p + 1);
        assert((s.len() - 1) as nat == t.len());
        assert(seq![ReplayInput { delta_us: a.delta_us, packed: a.packed }] + t =~= s);
        assert(crate::codec::formats::lep::leb128_utils::leb128_read(raw, before.len() as int)
            == Some((a.delta_us, p)));
        assert(lep_inputs_bytes(s).len() == input_bytes(a).len() + lep_inputs_bytes(t).len());
    } else {
        assert(lep_inputs_bytes(s) =~= Seq::<u8>::empty());
        assert(s =~= Seq::<ReplayInput>::empty());
    }
}

/// Reading the uncompressed container written for a replay gives the replay
/// back: version, rate bits, hash and every input in order. The container
/// always carries the current version, an empty hash is written as no hash,
/// and reserved bits are written as zero, so those three are left out.
pub proof fn lemma_lep_layout_round_trip(x: ReplayDataView)
    requires
        x.version == CURRENT_VERSION,
        x.hash != Some(Seq::<char>::empty()),
        x.inputs.len() <= u64::MAX,
        reserved_bits_clear(x.inputs),
        x.hash matches Some(h) ==> encode_utf8(h).len() <= u64::MAX,
    ensures
        lep_parse(lep_layout(x)) == Ok::<ReplayDataView, LeptonError>(x),
{
    let raw = lep_layout(x);
    let head = lep_magic() + seq![CURRENT_VERSION] + le_bytes(x.rate_bits as nat, 8);
    let hb = lep_hash_bytes(x.hash);
    let tail = leb128_bytes(x.inputs.len()) + lep_inputs_bytes(x.inputs);
    assert(raw =~= head + hb + tail);
    lemma_pow256_values();
    lemma_le_round_trip(x.rate_bits as nat, 8);
    assert(head.len() == 13);
    assert(raw.subrange(0, 4) =~= lep_magic());
    assert(raw.subrange(5, 13) =~= le_bytes(x.rate_bits as nat, 8));
    let p = (13 + hb.len()) as int;
    match x.hash {
        None => {
            lemma_leb128_round_trip(0, head, tail);
            assert(lep_parse_hash(raw, 13) == Ok::<(Option<Seq<char>>, int), LeptonError>(
                (None, p),
            ));
        },
        Some(h) => {
            let hu = encode_utf8(h);
            lemma_encode_utf8_nonempty(h);
            lemma_leb128_round_trip(hu.len() as u64, head, hu + tail);
            assert(raw =~= head + leb128_bytes(hu.len() as u64 as nat) + (hu + tail));
            let q = (13 + leb128_bytes(hu.len()).len()) as int;
            assert(raw.subrange(q, q + hu.len() as int) =~= hu);
            assert(lep_parse_hash(raw, 13) == Ok::<(Option<Seq<char>>, int), LeptonError>(
                (Some(h), p),
            ));
        },
    }
    let after_count = lep_inputs_bytes(x.inputs);
    lemma_leb128_round_trip(x.inputs.len() as u64, head + hb, after_count);
    assert(raw =~= (head + hb) + leb128_bytes(x.inputs.len() as u64 as nat) + after_count);
    let before = head + hb + leb128_bytes(x.inputs.len());
    assert(raw =~= before + lep_inputs_bytes(x.inputs) + Seq::<u8>::empty());
    lemma_parse_inputs_of_bytes(before, x.inputs, Seq::<u8>::empty());
    assert(lep_parse_input_list(raw, p) == Ok::<(Seq<ReplayInput>, int), LeptonError>(
        (x.inputs, raw.len() as int),
    ));
}

/// Decoding what the LEP encoder produced gives the replay back, exactly,
/// on the replays that the uncompressed round trip covers.
pub proof fn lemma_lep_round_trip(x: ReplayDataView, encoded: Seq<u8>)
    requires
        x.version == CURRENT_VERSION,
        x.hash != Some(Seq::<char>::empty()),
        x.inputs.len() <= u64::MAX,
        reserved_bits_clear(x.inputs),
        x.hash matches Some(h) ==> encode_utf8(h).len() <= u64::MAX,
        LepEncoder::encodes_to(x, Ok(encoded)),
    ensures
        LepDecoder::decode_spec(encoded) == Ok::<ReplayDataView, LeptonError>(x),
{
    lemma_lep_layout_round_trip(x);
}

/// A container whose first four bytes are `"BAD\0"` is refused for its magic
/// tag, and one holding only the magic tag is refused as truncated. Input
/// that does not decompress at all is refused as corrupt, like a bad tag.
pub proof fn lemma_lep_rejects_malformed(raw: Seq<u8>, data: Seq<u8>)
    ensures
        zstd_content(data) is None ==> LepDecoder::decode_spec(data) == Err::<
            ReplayDataView,
            LeptonError,
        >(LeptonError::InvalidMagic),
        raw.len() >= 4 && raw.subrange(0, 4) == seq![0x42u8, 0x41u8, 0x44u8, 0x00u8] ==> lep_parse(
            raw,
        ) == Err::<ReplayDataView, LeptonError>(LeptonError::InvalidMagic),
        lep_parse(lep_magic()) == Err::<ReplayDataView, LeptonError>(LeptonError::Truncated),
{
    if raw.len() >= 4 && raw.subrange(0, 4) == seq![0x42u8, 0x41u8, 0x44u8, 0x00u8] {
        assert(raw.subrange(0, 4)[0] != lep_magic()[0]);
    }
    assert(lep_magic().subrange(0, 4) =~= lep_magic());
}

} // verus!
