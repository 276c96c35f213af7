//! Unsigned LEB128 varints: seven payload bits per byte, low group first, the
//! high bit set on every byte but the last.
use vstd::prelude::*;

use crate::error::{LeptonError, LeptonResult};

verus! {

/// The canonical encoding of `v`: one byte per group of seven bits.
pub open spec fn leb128_bytes(v: nat) -> Seq<u8>
    decreases v,
{
    if v < 128 {
        seq![v as u8]
    } else {
        seq![(v % 128 + 128) as u8] + leb128_bytes(v / 128)
    }
}

/// The value of the varint at the start of `s` and the number of bytes it
/// spans, up to and including the first byte without the high bit; `None`
/// when `s` ends before such a byte.
pub open spec fn leb128_decode(s: Seq<u8>) -> Option<(nat, nat)>
    decreases s.len(),
{
    if s.len() == 0 {
        None
    } else if s[0] < 128 {
        Some((s[0] as nat, 1nat))
    } else {
        match leb128_decode(s.drop_first()) {
            Some((v, n)) => Some((((s[0] - 128) + 128 * v) as nat, n + 1)),
            None => None,
        }
    }
}

/// Reading a varint at `pos` of `s`: the value and the position just past it.
/// It fails when `pos` lies beyond the end, when the bytes end before the
/// varint does, or when the varint spans more than ten bytes or exceeds
/// 64 bits.
pub open spec fn leb128_read(s: Seq<u8>, pos: int) -> Option<(u64, int)> {
    if 0 <= pos <= s.len() {
        match leb128_decode(s.subrange(pos, s.len() as int)) {
            Some((v, n)) => if n <= 10 && v <= u64::MAX {
                Some((v as u64, pos + n))
            } else {
                None
            },
            None => None,
        }
    } else {
        None
    }
}

#[verifier::external_type_specification]
#[verifier::external_body]
pub struct ExLeb128ReadError(leb128::read::Error);

/// Relies on `leb128::write::unsigned`: it appends the canonical encoding of
/// the value, and writing into a `Vec` never fails.
#[verifier::external_body]
fn leb128_append(buffer: &mut Vec<u8>, value: u64)
    ensures
        final(buffer)@ == old(buffer)@ + leb128_bytes(value as nat),
{
    let _ = leb128::write::unsigned(buffer, value);
}

/// Relies on `leb128::read::unsigned`, reading from a cursor placed at `pos`:
/// it fails at the end of the bytes and on a tenth byte other than 0 or 1,
/// and otherwise returns the value and leaves the cursor past the last byte.
#[verifier::external_body]
fn leb128_read_at(data: &[u8], pos: usize) -> (r: Result<(u64, usize), leb128::read::Error>)
    ensures
        match r {
            Ok((v, next)) => leb128_read(data@, pos as int) == Some((v, next as int)),
            Err(_) => leb128_read(data@, pos as int) is None,
        },
{
    let mut cursor = std::io::Cursor::new(data);
    cursor.set_position(pos as u64);
    let value = leb128::read::unsigned(&mut cursor)?;
    Ok((value, cursor.position() as usize))
}

/// Appends `value` to `buffer` as an unsigned LEB128 varint.
pub fn write_leb128(value: u64, buffer: &mut Vec<u8>)
    ensures
        final(buffer)@ == old(buffer)@ + leb128_bytes(value as nat),
{
    leb128_append(buffer, value);
}

/// Reads an unsigned LEB128 varint at `*pos` and moves `*pos` past it.
/// On failure `*pos` is left unchanged.
pub fn read_leb128(data: &[u8], pos: &mut usize) -> (r: LeptonResult<u64>)
    ensures
        match leb128_read(data@, *old(pos) as int) {
            Some((v, next)) => r == Ok::<u64, LeptonError>(v) && *final(pos) == next && *old(pos)
                < next <= data@.len(),
            None => r == Err::<u64, LeptonError>(LeptonError::Leb128Read) && *final(pos) == *old(pos),
        },
{
    match leb128_read_at(data, *pos) {
        Ok((value, next)) => {
            proof {
                let s = data@.subrange(*old(pos) as int, data@.len() as int);
                lemma_leb128_decode_len(s);
            }
            *pos = next;
            Ok(value)
        },
        Err(_) => Err(LeptonError::Leb128Read),
    }
}

proof fn lemma_leb128_decode_len(s: Seq<u8>)
    ensures
        match leb128_decode(s) {
            Some((v, n)) => 1 <= n <= s.len(),
            None => true,
        },
    decreases s.len(),
{
    if s.len() > 0 && s[0] >= 128 {
        lemma_leb128_decode_len(s.drop_first());
    }
}

/// 128 to the power `k`.
pub open spec fn pow128(k: nat) -> nat
    decreases k,
{
    if k == 0 {
        1
    } else {
        128 * pow128((k - 1) as nat)
    }
}

proof fn lemma_leb128_len_bound(v: nat, k: nat)
    requires
        v < pow128(k),
        k >= 1,
    ensures
        leb128_bytes(v).len() <= k,
        leb128_bytes(v).len() >= 1,
    decreases k,
{
    if v >= 128 {
        assert(k > 0);
        assert(v / 128 < pow128((k - 1) as nat)) by (nonlinear_arith)
            requires
                v < 128 * pow128((k - 1) as nat),
        ;
        assert(pow128(0) == 1);
        lemma_leb128_len_bound(v / 128, (k - 1) as nat);
    }
}

proof fn lemma_leb128_decode_bytes(v: nat, rest: Seq<u8>)
    ensures
        leb128_decode(leb128_bytes(v) + rest) == Some((v, leb128_bytes(v).len())),
    decreases v,
{
    let s = leb128_bytes(v) + rest;
    if v < 128 {
        assert(s[0] == v as u8);
    } else {
        lemma_leb128_decode_bytes(v / 128, rest);
        assert(s.drop_first() =~= leb128_bytes(v / 128) + rest);
        assert(s[0] == (v % 128 + 128) as u8);
    }
}

/// The canonical encoding of a 64-bit value spans one to ten bytes.
pub proof fn lemma_leb128_len(v: u64)
    ensures
        1 <= leb128_bytes(v as nat).len() <= 10,
{
    reveal_with_fuel(pow128, 11);
    assert(pow128(10) == 1180591620717411303424nat);
    lemma_leb128_len_bound(v as nat, 10);
}

/// Reading back what `write_leb128` appended gives the value written, and the
/// read ends just past it, whatever bytes stand before and after.
pub proof fn lemma_leb128_round_trip(v: u64, before: Seq<u8>, after: Seq<u8>)
    ensures
        leb128_read(before + leb128_bytes(v as nat) + after, before.len() as int) == Some(
            (v, before.len() + leb128_bytes(v as nat).len() as int),
        ),
{
    let s = before + leb128_bytes(v as nat) + after;
    lemma_leb128_len(v);
    assert(s.subrange(before.len() as int, s.len() as int) =~= leb128_bytes(v as nat) + after);
    lemma_leb128_decode_bytes(v as nat, after);
}

/// Values 0 to 127 take one byte; values 128 to 16383 take two.
pub proof fn lemma_leb128_sizes(v: u64)
    ensures
        v < 128 ==> leb128_bytes(v as nat).len() == 1,
        128 <= v < 16384 ==> leb128_bytes(v as nat).len() == 2,
{
    if v >= 128 {
        if v < 16384 {
            assert(v / 128 < 128);
            assert(leb128_bytes((v / 128) as nat).len() == 1);
        }
    }
}

/// Reading fails on an empty buffer and on a lone continuation byte.
pub proof fn lemma_leb128_rejects_truncated()
    ensures
        leb128_read(Seq::<u8>::empty(), 0) is None,
        leb128_read(seq![0x80u8], 0) is None,
{
    let s = seq![0x80u8];
    assert(s.subrange(0, 1) =~= s);
    assert(s.drop_first() =~= Seq::<u8>::empty());
    assert(Seq::<u8>::empty().subrange(0, 0) =~= Seq::<u8>::empty());
}

} // verus!
