//! The decompressed replay stream: comma-separated actions, each holding
//! pipe-separated fields `time_delta|x|y|keys`.
use vstd::prelude::*;

use vstd::utf8::{
    is_leading_byte_width_1, partial_valid_utf8, partial_valid_utf8_extend_ascii_block,
    valid_utf8,
};

use crate::codec::formats::osu::types::{KeyMania, ReplayEventMania};

verus! {

/// The pieces of `s` between occurrences of `sep`, as `str::split` yields them:
/// always at least one, empty pieces included.
pub open spec fn split_on(s: Seq<u8>, sep: u8) -> Seq<Seq<u8>>
    decreases s.len(),
{
    if s.len() == 0 {
        seq![Seq::empty()]
    } else {
        let p = split_on(s.drop_last(), sep);
        if s.last() == sep {
            p.push(Seq::empty())
        } else {
            p.update(p.len() - 1, p.last().push(s.last()))
        }
    }
}

/// An ASCII decimal digit.
pub open spec fn is_digit(b: u8) -> bool {
    0x30 <= b <= 0x39
}

/// Every byte of `s` is a decimal digit.
pub open spec fn all_digits(s: Seq<u8>) -> bool {
    forall|i: int| 0 <= i < s.len() ==> is_digit(#[trigger] s[i])
}

/// The number that the decimal digits `s` spell.
pub open spec fn digits_value(s: Seq<u8>) -> nat
    decreases s.len(),
{
    if s.len() == 0 {
        0
    } else {
        (digits_value(s.drop_last()) * 10 + (s.last() - 0x30)) as nat
    }
}

/// The byte `-`.
pub const MINUS: u8 = 0x2D;

/// The byte `+`.
pub const PLUS: u8 = 0x2B;

/// What `str::parse::<i64>` yields: an optional sign, then one or more
/// digits, within range.
pub open spec fn parse_i64_spec(s: Seq<u8>) -> Option<i64> {
    if s.len() == 0 || ((s[0] == PLUS || s[0] == MINUS) && s.len() == 1) {
        None
    } else {
        let d = if s[0] == PLUS || s[0] == MINUS {
            s.drop_first()
        } else {
            s
        };
        if !all_digits(d) {
            None
        } else if s[0] == MINUS {
            if digits_value(d) <= 0x8000_0000_0000_0000 {
                Some((-digits_value(d)) as i64)
            } else {
                None
            }
        } else if digits_value(d) <= i64::MAX {
            Some(digits_value(d) as i64)
        } else {
            None
        }
    }
}

/// What `str::parse::<u32>` yields: an optional `+`, then one or more
/// digits, within range.
pub open spec fn parse_u32_spec(s: Seq<u8>) -> Option<u32> {
    if s.len() == 0 || (s[0] == PLUS && s.len() == 1) {
        None
    } else {
        let d = if s[0] == PLUS {
            s.drop_first()
        } else {
            s
        };
        if all_digits(d) && digits_value(d) <= u32::MAX {
            Some(digits_value(d) as u32)
        } else {
            None
        }
    }
}

/// The field separator inside an action.
pub const PIPE: u8 = 0x7C;

/// The separator between actions.
pub const COMMA: u8 = 0x2C;

/// The time delta that marks the seed action at the head of a stream.
pub const SEED_DELTA: i32 = -12345;

/// The frame an action describes, if any: an action with fewer than four
/// fields, or the seed action, gives none; an unreadable delta or key field
/// counts as 0, and the delta keeps its low 32 bits.
pub open spec fn action_event(a: Seq<u8>) -> Option<ReplayEventMania> {
    let parts = split_on(a, PIPE);
    if a.len() == 0 || parts.len() < 4 {
        None
    } else {
        let delta: i64 = match parse_i64_spec(parts[0]) {
            Some(v) => v,
            None => 0,
        };
        if delta == SEED_DELTA {
            None
        } else {
            let keys: u32 = match parse_u32_spec(parts[3]) {
                Some(k) => k,
                None => 0,
            };
            Some(ReplayEventMania { time_delta: delta as i32, keys: KeyMania(keys) })
        }
    }
}

/// The frames of a list of actions, in order.
pub open spec fn events_of_actions(actions: Seq<Seq<u8>>) -> Seq<ReplayEventMania>
    decreases actions.len(),
{
    if actions.len() == 0 {
        Seq::empty()
    } else {
        events_of_actions(actions.drop_last()) + match action_event(actions.last()) {
            Some(e) => seq![e],
            None => Seq::empty(),
        }
    }
}

/// The frames of a decompressed replay stream.
pub open spec fn mania_events(text: Seq<u8>) -> Seq<ReplayEventMania> {
    events_of_actions(split_on(text, COMMA))
}

/// The decimal digits of `n`, most significant first, without leading zeros.
pub open spec fn decimal(n: nat) -> Seq<u8>
    decreases n,
{
    if n < 10 {
        seq![(n + 0x30) as u8]
    } else {
        decimal(n / 10).push((n % 10 + 0x30) as u8)
    }
}

/// The decimal form of `v`, with a leading `-` when negative.
pub open spec fn signed_decimal(v: int) -> Seq<u8> {
    if v < 0 {
        seq![MINUS] + decimal((-v) as nat)
    } else {
        decimal(v as nat)
    }
}

/// One action without its trailing comma: `time_delta|0|0|keys`.
pub open spec fn action_text(e: ReplayEventMania) -> Seq<u8> {
    signed_decimal(e.time_delta as int) + seq![PIPE, 0x30u8, PIPE, 0x30u8, PIPE] + decimal(
        e.keys.0 as nat,
    )
}

/// The seed frame written at the head of every stream.
pub open spec fn seed_event() -> ReplayEventMania {
    ReplayEventMania { time_delta: SEED_DELTA, keys: KeyMania(0) }
}

/// The stream written for a list of frames: the seed action, then one action
/// per frame, each followed by a comma.
pub open spec fn mania_text(events: Seq<ReplayEventMania>) -> Seq<u8>
    decreases events.len(),
{
    if events.len() == 0 {
        action_text(seed_event()) + seq![COMMA]
    } else {
        mania_text(events.drop_last()) + action_text(events.last()) + seq![COMMA]
    }
}

proof fn lemma_split_nonempty(s: Seq<u8>, sep: u8)
    ensures
        split_on(s, sep).len() >= 1,
    decreases s.len(),
{
    if s.len() > 0 {
        lemma_split_nonempty(s.drop_last(), sep);
    }
}

/// Splits `s` at every `sep`.
pub fn split_bytes(s: &[u8], sep: u8) -> (r: Vec<Vec<u8>>)
    ensures
        r@.len() == split_on(s@, sep).len(),
        forall|k: int| 0 <= k < r@.len() ==> (#[trigger] r@[k])@ == split_on(s@, sep)[k],
{
    let mut pieces: Vec<Vec<u8>> = Vec::new();
    let mut cur: Vec<u8> = Vec::new();
    let mut i: usize = 0;
    while i < s.len()
        invariant
            i <= s@.len(),
            pieces@.len() + 1 == split_on(s@.subrange(0, i as int), sep).len(),
            forall|k: int|
                0 <= k < pieces@.len() ==> (#[trigger] pieces@[k])@ == split_on(
                    s@.subrange(0, i as int),
                    sep,
                )[k],
            cur@ == split_on(s@.subrange(0, i as int), sep).last(),
        decreases s@.len() - i,
    {
        let ghost prev = s@.subrange(0, i as int);
        let ghost next = s@.subrange(0, i + 1);
        assert(next.drop_last() =~= prev);
        proof {
            lemma_split_nonempty(prev, sep);
        }
        if s[i] == sep {
            pieces.push(cur);
            cur = Vec::new();
        } else {
            cur.push(s[i]);
        }
        i = i + 1;
    }
    proof {
        lemma_split_nonempty(s@, sep);
    }
    assert(s@.subrange(0, i as int) =~= s@);
    pieces.push(cur);
    pieces
}

proof fn lemma_digits_prefix_le(t: Seq<u8>, j: int)
    requires
        all_digits(t),
        0 <= j <= t.len(),
    ensures
        digits_value(t.subrange(0, j)) <= digits_value(t),
    decreases t.len(),
{
    if j < t.len() {
        let u = t.drop_last();
        assert(all_digits(u)) by {
            assert forall|i: int| 0 <= i < u.len() implies is_digit(#[trigger] u[i]) by {
                assert(u[i] == t[i]);
            }
        }
        lemma_digits_prefix_le(u, j);
        assert(u.subrange(0, j) =~= t.subrange(0, j));
    } else {
        assert(t.subrange(0, j) =~= t);
    }
}

/// The value of the digits of `s` from `start` on, when they are all digits
/// and the value is at most `limit`.
fn parse_digits(s: &[u8], start: usize, limit: u64) -> (r: Option<u64>)
    requires
        start <= s@.len(),
    ensures
        r == (if all_digits(s@.subrange(start as int, s@.len() as int)) && digits_value(
            s@.subrange(start as int, s@.len() as int),
        ) <= limit {
            Some(digits_value(s@.subrange(start as int, s@.len() as int)) as u64)
        } else {
            None
        }),
{
    let ghost t = s@.subrange(start as int, s@.len() as int);
    let mut acc: u64 = 0;
    let mut i: usize = start;
    while i < s.len()
        invariant
            start <= i <= s@.len(),
            t == s@.subrange(start as int, s@.len() as int),
            all_digits(t.subrange(0, i - start)),
            acc == digits_value(t.subrange(0, i - start)),
            acc <= limit,
        decreases s@.len() - i,
    {
        let b = s[i];
        let ghost pre = t.subrange(0, i - start);
        let ghost pre1 = t.subrange(0, i - start + 1);
        assert(pre1.drop_last() =~= pre);
        assert(pre1.last() == b);
        if b < 0x30 || b > 0x39 {
            assert(!is_digit(t[i - start]));
            return None;
        }
        let next: u128 = acc as u128 * 10 + (b - 0x30) as u128;
        if next > limit as u128 {
            proof {
                assert(all_digits(pre1));
                if all_digits(t) {
                    lemma_digits_prefix_le(t, i - start + 1);
                }
            }
            return None;
        }
        acc = next as u64;
        i = i + 1;
        assert(all_digits(t.subrange(0, i - start)));
    }
    assert(t.subrange(0, i - start) =~= t);
    Some(acc)
}

/// Parses a signed decimal as `str::parse::<i64>` does.
pub fn parse_i64(s: &[u8]) -> (r: Option<i64>)
    ensures
        r == parse_i64_spec(s@),
{
    if s.len() == 0 {
        return None;
    }
    let signed = s[0] == PLUS || s[0] == MINUS;
    if signed && s.len() == 1 {
        return None;
    }
    let start: usize = if signed { 1 } else { 0 };
    assert(s@.subrange(start as int, s@.len() as int) =~= (if signed {
        s@.drop_first()
    } else {
        s@
    }));
    if s[0] == MINUS {
        match parse_digits(s, 1, 0x8000_0000_0000_0000) {
            Some(v) => {
                if v == 0x8000_0000_0000_0000 {
                    Some(i64::MIN)
                } else {
                    Some(-(v as i64))
                }
            },
            None => None,
        }
    } else {
        match parse_digits(s, start, 0x7FFF_FFFF_FFFF_FFFF) {
            Some(v) => Some(v as i64),
            None => None,
        }
    }
}

/// Parses an unsigned decimal as `str::parse::<u32>` does.
pub fn parse_u32(s: &[u8]) -> (r: Option<u32>)
    ensures
        r == parse_u32_spec(s@),
{
    if s.len() == 0 || (s[0] == PLUS && s.len() == 1) {
        return None;
    }
    let start: usize = if s[0] == PLUS { 1 } else { 0 };
    assert(s@.subrange(start as int, s@.len() as int) =~= (if s@[0] == PLUS {
        s@.drop_first()
    } else {
        s@
    }));
    match parse_digits(s, start, 0xFFFF_FFFF) {
        Some(v) => Some(v as u32),
        None => None,
    }
}

/// The frame one action describes, if any.
pub fn parse_action(a: &[u8]) -> (r: Option<ReplayEventMania>)
    ensures
        r == action_event(a@),
{
    if a.len() == 0 {
        return None;
    }
    let parts = split_bytes(a, PIPE);
    if parts.len() < 4 {
        return None;
    }
    let delta: i64 = match parse_i64(parts[0].as_slice()) {
        Some(v) => v,
        None => 0,
    };
    if delta == SEED_DELTA as i64 {
        return None;
    }
    let keys: u32 = match parse_u32(parts[3].as_slice()) {
        Some(k) => k,
        None => 0,
    };
    Some(ReplayEventMania { time_delta: delta as i32, keys: KeyMania(keys) })
}

/// The frames of a decompressed replay stream. Malformed actions are skipped.
pub fn parse_mania_data(text: &[u8]) -> (r: Vec<ReplayEventMania>)
    ensures
        r@ == mania_events(text@),
{
    let actions = split_bytes(text, COMMA);
    let ghost acts = split_on(text@, COMMA);
    let mut events: Vec<ReplayEventMania> = Vec::new();
    let mut i: usize = 0;
    while i < actions.len()
        invariant
            i <= actions@.len(),
            actions@.len() == acts.len(),
            forall|k: int| 0 <= k < actions@.len() ==> (#[trigger] actions@[k])@ == acts[k],
            events@ == events_of_actions(acts.subrange(0, i as int)),
        decreases actions@.len() - i,
    {
        let ghost sub1 = acts.subrange(0, i + 1);
        assert(sub1.drop_last() =~= acts.subrange(0, i as int));
        match parse_action(actions[i].as_slice()) {
            Some(e) => {
                events.push(e);
            },
            None => {},
        }
        i = i + 1;
    }
    assert(acts.subrange(0, i as int) =~= acts);
    events
}

/// Appends the decimal digits of `n`.
pub fn write_decimal(buffer: &mut Vec<u8>, n: u64)
    ensures
        final(buffer)@ == old(buffer)@ + decimal(n as nat),
    decreases n,
{
    if n >= 10 {
        write_decimal(buffer, n / 10);
    }
    buffer.push((n % 10) as u8 + 0x30);
    assert(final(buffer)@ =~= old(buffer)@ + decimal(n as nat));
}

/// Appends one action and its trailing comma.
fn write_action(buffer: &mut Vec<u8>, event: &ReplayEventMania)
    ensures
        final(buffer)@ == old(buffer)@ + action_text(*event) + seq![COMMA],
{
    let td = event.time_delta;
    if td < 0 {
        buffer.push(MINUS);
        write_decimal(buffer, (-(td as i64)) as u64);
    } else {
        write_decimal(buffer, td as u64);
    }
    buffer.push(PIPE);
    buffer.push(0x30);
    buffer.push(PIPE);
    buffer.push(0x30);
    buffer.push(PIPE);
    write_decimal(buffer, event.keys.0 as u64);
    buffer.push(COMMA);
    assert(final(buffer)@ =~= old(buffer)@ + action_text(*event) + seq![COMMA]);
}

/// The stream for a list of frames: the seed action `-12345|0|0|0,`, then
/// `time_delta|0|0|keys,` per frame. Mouse fields are always 0.
pub fn encode_mania_data(events: &[ReplayEventMania]) -> (r: Vec<u8>)
    ensures
        r@ == mania_text(events@),
{
    let mut data: Vec<u8> = Vec::new();
    let seed = ReplayEventMania { time_delta: SEED_DELTA, keys: KeyMania(0) };
    write_action(&mut data, &seed);
    let mut i: usize = 0;
    while i < events.len()
        invariant
            i <= events@.len(),
            data@ == mania_text(events@.subrange(0, i as int)),
        decreases events@.len() - i,
    {
        let ghost sub1 = events@.subrange(0, i + 1);
        assert(sub1.drop_last() =~= events@.subrange(0, i as int));
        write_action(&mut data, &events[i]);
        i = i + 1;
    }
    assert(events@.subrange(0, i as int) =~= events@);
    data
}

/// No byte of `a` is `sep`.
pub open spec fn free_of(a: Seq<u8>, sep: u8) -> bool {
    forall|i: int| 0 <= i < a.len() ==> #[trigger] a[i] != sep
}

proof fn lemma_split_append_free(x: Seq<u8>, a: Seq<u8>, sep: u8)
    requires
        free_of(a, sep),
    ensures
        split_on(x + a, sep) == split_on(x, sep).update(
            split_on(x, sep).len() - 1,
            split_on(x, sep).last() + a,
        ),
        split_on(x + a, sep).len() == split_on(x, sep).len(),
    decreases a.len(),
{
    lemma_split_nonempty(x, sep);
    let q = split_on(x, sep);
    if a.len() == 0 {
        assert(x + a =~= x);
        assert(q.last() + a =~= q.last());
        assert(q.update(q.len() - 1, q.last() + a) =~= q);
    } else {
        let b = a.drop_last();
        assert(free_of(b, sep)) by {
            assert forall|i: int| 0 <= i < b.len() implies #[trigger] b[i] != sep by {
                assert(b[i] == a[i]);
            }
        }
        lemma_split_append_free(x, b, sep);
        assert((x + a).drop_last() =~= x + b);
        assert((x + a).last() == a.last());
        assert(a.last() != sep);
        let p = split_on(x + b, sep);
        lemma_split_nonempty(x + b, sep);
        assert(p.last() == q.last() + b);
        assert(split_on(x + a, sep) == p.update(p.len() - 1, p.last().push(a.last())));
        assert(q.last() + b + seq![a.last()] =~= q.last() + a);
        assert(p.len() == q.len());
        assert(p.last().push(a.last()) =~= q.last() + a);
        let r = split_on(x + a, sep);
        let want = q.update(q.len() - 1, q.last() + a);
        assert(r.len() == want.len());
        assert forall|i: int| 0 <= i < r.len() implies r[i] == want[i] by {
            if i < q.len() - 1 {
                assert(r[i] == p[i]);
                assert(p[i] == q[i]);
            }
        }
        assert(r =~= want);
    }
}

proof fn lemma_split_append_sep(x: Seq<u8>, sep: u8)
    ensures
        split_on(x.push(sep), sep) == split_on(x, sep).push(Seq::empty()),
{
    assert(x.push(sep).drop_last() =~= x);
}

proof fn lemma_decimal(n: nat)
    ensures
        all_digits(decimal(n)),
        digits_value(decimal(n)) == n,
        decimal(n).len() >= 1,
    decreases n,
{
    if n >= 10 {
        lemma_decimal(n / 10);
        let d = decimal(n);
        assert(d.drop_last() =~= decimal(n / 10));
        assert(d.last() == (n % 10 + 0x30) as u8);
        assert((n / 10) * 10 + n % 10 == n);
        assert(all_digits(d)) by {
            assert forall|i: int| 0 <= i < d.len() implies is_digit(#[trigger] d[i]) by {
                if i < d.len() - 1 {
                    assert(d[i] == decimal(n / 10)[i]);
                }
            }
        }
    } else {
        let d = decimal(n);
        assert(d.drop_last() =~= Seq::<u8>::empty());
        assert(d.last() == (n + 0x30) as u8);
        assert(digits_value(Seq::<u8>::empty()) == 0);
    }
}

proof fn lemma_parse_decimals(v: i32, k: u32)
    ensures
        parse_i64_spec(signed_decimal(v as int)) == Some(v as i64),
        parse_u32_spec(decimal(k as nat)) == Some(k),
        free_of(signed_decimal(v as int), PIPE),
        free_of(signed_decimal(v as int), COMMA),
        free_of(decimal(k as nat), PIPE),
        free_of(decimal(k as nat), COMMA),
{
    lemma_decimal(k as nat);
    if v < 0 {
        let m = (-v) as nat;
        lemma_decimal(m);
        let s = signed_decimal(v as int);
        assert(s.drop_first() =~= decimal(m));
        assert(free_of(s, PIPE)) by {
            assert forall|i: int| 0 <= i < s.len() implies #[trigger] s[i] != PIPE by {
                if i > 0 {
                    assert(s[i] == decimal(m)[i - 1]);
                }
            }
        }
        assert(free_of(s, COMMA)) by {
            assert forall|i: int| 0 <= i < s.len() implies #[trigger] s[i] != COMMA by {
                if i > 0 {
                    assert(s[i] == decimal(m)[i - 1]);
                }
            }
        }
    } else {
        lemma_decimal(v as nat);
    }
}

/// The fields of one action.
proof fn lemma_action_fields(e: ReplayEventMania)
    ensures
        split_on(action_text(e), PIPE) == seq![
            signed_decimal(e.time_delta as int),
            seq![0x30u8],
            seq![0x30u8],
            decimal(e.keys.0 as nat),
        ],
        free_of(action_text(e), COMMA),
        action_text(e).len() > 0,
{
    let sd = signed_decimal(e.time_delta as int);
    let dk = decimal(e.keys.0 as nat);
    let zero = seq![0x30u8];
    lemma_parse_decimals(e.time_delta, e.keys.0);
    assert(free_of(zero, PIPE));
    let e0 = Seq::<u8>::empty();
    let x1 = e0 + sd;
    lemma_split_append_free(e0, sd, PIPE);
    assert(x1 =~= sd);
    assert(split_on(x1, PIPE) =~= seq![sd]);
    lemma_split_append_sep(x1, PIPE);
    let x2 = x1.push(PIPE);
    lemma_split_append_free(x2, zero, PIPE);
    let x3 = x2 + zero;
    assert(split_on(x3, PIPE) =~= seq![sd, zero]);
    lemma_split_append_sep(x3, PIPE);
    let x4 = x3.push(PIPE);
    lemma_split_append_free(x4, zero, PIPE);
    let x5 = x4 + zero;
    assert(split_on(x5, PIPE) =~= seq![sd, zero, zero]);
    lemma_split_append_sep(x5, PIPE);
    let x6 = x5.push(PIPE);
    lemma_split_append_free(x6, dk, PIPE);
    let x7 = x6 + dk;
    assert(x7 =~= action_text(e));
    assert(split_on(x7, PIPE) =~= seq![sd, zero, zero, dk]);
    let t = action_text(e);
    assert(free_of(t, COMMA)) by {
        assert forall|i: int| 0 <= i < t.len() implies #[trigger] t[i] != COMMA by {
            if i < sd.len() {
                assert(t[i] == sd[i]);
            } else if i >= sd.len() + 5 {
                assert(t[i] == dk[i - sd.len() - 5]);
            }
        }
    }
}

proof fn lemma_action_event(e: ReplayEventMania)
    ensures
        action_event(action_text(e)) == (if e.time_delta == SEED_DELTA {
            None
        } else {
            Some(e)
        }),
{
    lemma_action_fields(e);
    lemma_parse_decimals(e.time_delta, e.keys.0);
}

/// The actions of the stream written for `events`, without the empty piece
/// after the final comma.
pub open spec fn action_list(events: Seq<ReplayEventMania>) -> Seq<Seq<u8>>
    decreases events.len(),
{
    if events.len() == 0 {
        seq![action_text(seed_event())]
    } else {
        action_list(events.drop_last()).push(action_text(events.last()))
    }
}

proof fn lemma_split_mania_text(events: Seq<ReplayEventMania>)
    ensures
        split_on(mania_text(events), COMMA) == action_list(events).push(Seq::empty()),
    decreases events.len(),
{
    if events.len() == 0 {
        let a = action_text(seed_event());
        lemma_action_fields(seed_event());
        let e0 = Seq::<u8>::empty();
        lemma_split_append_free(e0, a, COMMA);
        assert(e0 + a =~= a);
        assert(split_on(a, COMMA) =~= seq![a]);
        lemma_split_append_sep(a, COMMA);
        assert(a + seq![COMMA] =~= a.push(COMMA));
    } else {
        let prev = mania_text(events.drop_last());
        let a = action_text(events.last());
        lemma_split_mania_text(events.drop_last());
        lemma_action_fields(events.last());
        lemma_split_append_free(prev, a, COMMA);
        let q = split_on(prev, COMMA);
        assert(q.last() + a =~= a);
        assert(split_on(prev + a, COMMA) =~= action_list(events));
        lemma_split_append_sep(prev + a, COMMA);
        assert(prev + a + seq![COMMA] =~= (prev + a).push(COMMA));
    }
}

proof fn lemma_events_of_action_list(events: Seq<ReplayEventMania>)
    requires
        forall|i: int| 0 <= i < events.len() ==> (#[trigger] events[i]).time_delta != SEED_DELTA,
    ensures
        events_of_actions(action_list(events)) == events,
    decreases events.len(),
{
    if events.len() == 0 {
        lemma_action_event(seed_event());
        assert(action_list(events).drop_last() =~= Seq::<Seq<u8>>::empty());
        assert(action_list(events).last() == action_text(seed_event()));
        assert(events_of_actions(Seq::<Seq<u8>>::empty()) == Seq::<ReplayEventMania>::empty());
        assert(events_of_actions(action_list(events)) =~= events);
    } else {
        let init = events.drop_last();
        assert forall|i: int| 0 <= i < init.len() implies (#[trigger] init[i]).time_delta
            != SEED_DELTA by {
            assert(init[i] == events[i]);
        }
        lemma_events_of_action_list(init);
        lemma_action_event(events.last());
        assert(action_list(events).drop_last() =~= action_list(init));
        assert(events_of_actions(action_list(events)) =~= events);
    }
}

/// Reading the stream written for a list of frames gives the frames back,
/// provided none of them carries the seed delta -12345 (such a frame is read
/// as a seed action and dropped).
pub proof fn lemma_mania_text_round_trip(events: Seq<ReplayEventMania>)
    requires
        forall|i: int| 0 <= i < events.len() ==> (#[trigger] events[i]).time_delta != SEED_DELTA,
    ensures
        mania_events(mania_text(events)) == events,
{
    lemma_split_mania_text(events);
    lemma_events_of_action_list(events);
    let acts = action_list(events).push(Seq::empty());
    assert(acts.drop_last() =~= action_list(events));
}

/// Every byte of `s` is ASCII.
pub open spec fn ascii_bytes(s: Seq<u8>) -> bool {
    forall|i: int| 0 <= i < s.len() ==> #[trigger] s[i] <= 0x7f
}

proof fn lemma_ascii_concat(a: Seq<u8>, b: Seq<u8>)
    requires
        ascii_bytes(a),
        ascii_bytes(b),
    ensures
        ascii_bytes(a + b),
{
    assert forall|i: int| 0 <= i < (a + b).len() implies #[trigger] (a + b)[i] <= 0x7f by {
        if i < a.len() {
            assert((a + b)[i] == a[i]);
        } else {
            assert((a + b)[i] == b[i - a.len()]);
        }
    }
}

proof fn lemma_action_text_ascii(e: ReplayEventMania)
    ensures
        ascii_bytes(action_text(e)),
{
    let sd = signed_decimal(e.time_delta as int);
    let dk = decimal(e.keys.0 as nat);
    lemma_decimal(e.keys.0 as nat);
    assert(ascii_bytes(dk));
    if e.time_delta < 0 {
        lemma_decimal((-e.time_delta) as nat);
        assert(ascii_bytes(decimal((-e.time_delta) as nat)));
        lemma_ascii_concat(seq![MINUS], decimal((-e.time_delta) as nat));
    } else {
        lemma_decimal(e.time_delta as nat);
    }
    assert(ascii_bytes(sd));
    let mid = seq![PIPE, 0x30u8, PIPE, 0x30u8, PIPE];
    assert(ascii_bytes(mid));
    lemma_ascii_concat(sd, mid);
    lemma_ascii_concat(sd + mid, dk);
}

proof fn lemma_mania_text_ascii(events: Seq<ReplayEventMania>)
    ensures
        ascii_bytes(mania_text(events)),
    decreases events.len(),
{
    let comma = seq![COMMA];
    assert(ascii_bytes(comma));
    if events.len() == 0 {
        lemma_action_text_ascii(seed_event());
        lemma_ascii_concat(action_text(seed_event()), comma);
    } else {
        lemma_mania_text_ascii(events.drop_last());
        lemma_action_text_ascii(events.last());
        lemma_ascii_concat(mania_text(events.drop_last()), action_text(events.last()));
        lemma_ascii_concat(mania_text(events.drop_last()) + action_text(events.last()), comma);
    }
}

/// The stream written for any list of frames is ASCII, hence valid UTF-8.
pub proof fn lemma_mania_text_valid_utf8(events: Seq<ReplayEventMania>)
    ensures
        valid_utf8(mania_text(events)),
{
    let t = mania_text(events);
    lemma_mania_text_ascii(events);
    assert(t.subrange(0, 0) =~= Seq::<u8>::empty());
    assert(partial_valid_utf8(t, 0));
    assert forall|i: int| 0 <= 0 <= i < t.len() <= t.len() implies #[trigger] is_leading_byte_width_1(
        t[i],
    ) by {
        assert(t[i] <= 0x7f);
    }
    partial_valid_utf8_extend_ascii_block(t, 0, t.len() as int);
    assert(t.subrange(0, t.len() as int) =~= t);
}

} // verus!
