//! Fixed-width little-endian integers and byte appends.
use vstd::prelude::*;

verus! {

/// 256 to the power `n`.
pub open spec fn pow256(n: nat) -> nat
    decreases n,
{
    if n == 0 {
        1
    } else {
        256 * pow256((n - 1) as nat)
    }
}

/// The `n` low bytes of `v`, least significant first.
pub open spec fn le_bytes(v: nat, n: nat) -> Seq<u8>
    decreases n,
{
    if n == 0 {
        Seq::empty()
    } else {
        seq![(v % 256) as u8] + le_bytes(v / 256, (n - 1) as nat)
    }
}

/// The number whose little-endian bytes are `s`.
pub open spec fn le_value(s: Seq<u8>) -> nat
    decreases s.len(),
{
    if s.len() == 0 {
        0
    } else {
        (s[0] + 256 * le_value(s.drop_first())) as nat
    }
}

pub proof fn lemma_pow256_values()
    ensures
        pow256(1) == 0x100,
        pow256(2) == 0x1_0000,
        pow256(4) == 0x1_0000_0000,
        pow256(8) == 0x1_0000_0000_0000_0000,
{
    reveal_with_fuel(pow256, 9);
}

/// Reading back `n` little-endian bytes of a value below 256^n gives the value.
pub proof fn lemma_le_round_trip(v: nat, n: nat)
    requires
        v < pow256(n),
    ensures
        le_value(le_bytes(v, n)) == v,
        le_bytes(v, n).len() == n,
    decreases n,
{
    if n > 0 {
        assert(v / 256 < pow256((n - 1) as nat)) by (nonlinear_arith)
            requires
                v < 256 * pow256((n - 1) as nat),
        ;
        lemma_le_round_trip(v / 256, (n - 1) as nat);
        assert(le_bytes(v, n).drop_first() =~= le_bytes(v / 256, (n - 1) as nat));
    } else {
        assert(v == 0);
    }
}

/// A value read from `n` bytes is below 256^n.
pub proof fn lemma_le_value_bound(s: Seq<u8>)
    ensures
        le_value(s) < pow256(s.len()),
    decreases s.len(),
{
    if s.len() > 0 {
        lemma_le_value_bound(s.drop_first());
        let r = le_value(s.drop_first());
        let p = pow256((s.len() - 1) as nat);
        assert(s[0] + 256 * r < 256 * p) by (nonlinear_arith)
            requires
                r < p,
                s[0] < 256,
        ;
    }
}

/// Appends `bytes` to `buffer`.
pub fn append_bytes(buffer: &mut Vec<u8>, bytes: &[u8])
    ensures
        final(buffer)@ == old(buffer)@ + bytes@,
{
    let mut i: usize = 0;
    while i < bytes.len()
        invariant
            i <= bytes@.len(),
            buffer@ == old(buffer)@ + bytes@.subrange(0, i as int),
        decreases bytes@.len() - i,
    {
        buffer.push(bytes[i]);
        i = i + 1;
        assert(bytes@.subrange(0, i as int) =~= bytes@.subrange(0, i - 1) + seq![bytes@[i - 1]]);
    }
    assert(bytes@.subrange(0, i as int) =~= bytes@);
}

/// Appends the `n` low bytes of `value`, least significant first.
pub fn write_le(buffer: &mut Vec<u8>, value: u64, n: usize)
    requires
        n <= 8,
    ensures
        final(buffer)@ == old(buffer)@ + le_bytes(value as nat, n as nat),
{
    let mut v: u64 = value;
    let mut i: usize = 0;
    while i < n
        invariant
            i <= n,
            old(buffer)@ + le_bytes(value as nat, n as nat) == buffer@ + le_bytes(
                v as nat,
                (n - i) as nat,
            ),
        decreases n - i,
    {
        let ghost before = buffer@;
        buffer.push((v % 256) as u8);
        assert(le_bytes(v as nat, (n - i) as nat) == seq![(v % 256) as u8] + le_bytes(
            (v / 256) as nat,
            (n - i - 1) as nat,
        ));
        assert(before + le_bytes(v as nat, (n - i) as nat) =~= buffer@ + le_bytes(
            (v / 256) as nat,
            (n - i - 1) as nat,
        ));
        v = v / 256;
        i = i + 1;
    }
    assert(buffer@ + le_bytes(v as nat, 0) =~= buffer@);
}

/// Reads `n` bytes at `pos` as a little-endian number.
pub fn read_le(data: &[u8], pos: usize, n: usize) -> (r: u64)
    requires
        n <= 8,
        pos + n <= data@.len(),
    ensures
        r == le_value(data@.subrange(pos as int, pos + n)),
{
    let len = data.len();
    let mut acc: u64 = 0;
    let mut j: usize = n;
    proof {
        lemma_pow256_values();
    }
    while j > 0
        invariant
            j <= n <= 8,
            pos + n <= data@.len(),
            len == data@.len(),
            acc == le_value(data@.subrange(pos + j, pos + n)),
            pow256(8) == 0x1_0000_0000_0000_0000,
        decreases j,
    {
        let ghost s = data@.subrange(pos + j - 1, pos + n);
        proof {
            lemma_le_value_bound(data@.subrange(pos + j, pos + n));
            lemma_pow_mono((n - j) as nat, 7);
            assert(s.drop_first() =~= data@.subrange(pos + j, pos + n));
        }
        let b = data[pos + j - 1];
        assert(256 * acc + b < 0x1_0000_0000_0000_0000) by (nonlinear_arith)
            requires
                acc < pow256((n - j) as nat),
                pow256((n - j) as nat) <= pow256(7),
                pow256(8) == 256 * pow256(7),
                pow256(8) == 0x1_0000_0000_0000_0000,
                b < 256,
        ;
        acc = 256 * acc + b as u64;
        j = j - 1;
    }
    acc
}

proof fn lemma_pow_mono(a: nat, b: nat)
    requires
        a <= b,
    ensures
        pow256(a) <= pow256(b),
        pow256(b + 1) == 256 * pow256(b),
    decreases b,
{
    if a < b {
        lemma_pow_mono(a, (b - 1) as nat);
    }
}

/// A copy of `data[start..end]`.
pub fn copy_range(data: &[u8], start: usize, end: usize) -> (r: Vec<u8>)
    requires
        start <= end <= data@.len(),
    ensures
        r@ == data@.subrange(start as int, end as int),
{
    let mut bytes: Vec<u8> = Vec::new();
    let mut i: usize = start;
    while i < end
        invariant
            start <= i <= end <= data@.len(),
            bytes@ == data@.subrange(start as int, i as int),
        decreases end - i,
    {
        bytes.push(data[i]);
        i = i + 1;
        assert(bytes@ =~= data@.subrange(start as int, i as int));
    }
    bytes
}

} // verus!
