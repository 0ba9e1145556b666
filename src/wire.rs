//! Little-endian fixed-width integers: the building block of the wire format.

use vstd::prelude::*;

verus! {

/// `256` raised to the power `k`.
pub open spec fn pow256(k: nat) -> nat
    decreases k,
{
    if k == 0 {
        1
    } else {
        256 * pow256((k - 1) as nat)
    }
}

/// The value of a little-endian byte string.
pub open spec fn le_value(s: Seq<u8>) -> nat
    decreases s.len(),
{
    if s.len() == 0 {
        0
    } else {
        s[0] as nat + 256 * le_value(s.drop_first())
    }
}

/// The `k` low-order bytes of `n`, least significant first.
pub open spec fn le_bytes(n: nat, k: nat) -> Seq<u8>
    decreases k,
{
    if k == 0 {
        seq![]
    } else {
        seq![(n % 256) as u8] + le_bytes(n / 256, (k - 1) as nat)
    }
}

pub proof fn lemma_pow256_values()
    ensures
        pow256(4) == 0x1_0000_0000,
        pow256(8) == 0x1_0000_0000_0000_0000,
{
    reveal_with_fuel(pow256, 9);
}

pub proof fn lemma_pow256_positive(k: nat)
    ensures
        pow256(k) > 0,
    decreases k,
{
    if k > 0 {
        lemma_pow256_positive((k - 1) as nat);
    }
}

pub proof fn lemma_le_value_bound(s: Seq<u8>)
    ensures
        le_value(s) < pow256(s.len()),
    decreases s.len(),
{
    if s.len() > 0 {
        lemma_le_value_bound(s.drop_first());
        let v = le_value(s.drop_first());
        let p = pow256((s.len() - 1) as nat);
        assert(s[0] as nat + 256 * v < 256 * p) by (nonlinear_arith)
            requires
                v < p,
                (s[0] as nat) < 256,
        ;
    }
}

/// Encoding then reading back a value that fits gives the value.
pub proof fn lemma_le_round_trip(n: nat, k: nat)
    requires
        n < pow256(k),
    ensures
        le_bytes(n, k).len() == k,
        le_value(le_bytes(n, k)) == n,
    decreases k,
{
    if k > 0 {
        let p = pow256((k - 1) as nat);
        assert(n / 256 < p && n == 256 * (n / 256) + n % 256) by (nonlinear_arith)
            requires
                n < 256 * p,
        ;
        lemma_le_round_trip(n / 256, (k - 1) as nat);
        let b = le_bytes(n, k);
        assert(b.drop_first() =~= le_bytes(n / 256, (k - 1) as nat));
    } else {
        assert(n == 0);
    }
}

/// Appends the `k` low-order bytes of `v`, least significant first.
pub fn push_le(out: &mut Vec<u8>, v: u64, k: usize)
    requires
        (v as nat) < pow256(k as nat),
    ensures
        final(out)@ == old(out)@ + le_bytes(v as nat, k as nat),
{
    let mut x: u64 = v;
    let mut i: usize = 0;
    while i < k
        invariant
            i <= k,
            out@ + le_bytes(x as nat, (k - i) as nat) == old(out)@ + le_bytes(v as nat, k as nat),
        decreases k - i,
    {
        let ghost before = out@;
        let ghost rest = le_bytes(x as nat / 256, (k - i - 1) as nat);
        assert(le_bytes(x as nat, (k - i) as nat) == seq![(x as nat % 256) as u8] + rest);
        out.push((x % 256) as u8);
        assert(before + (seq![(x as nat % 256) as u8] + rest) =~= out@ + rest);
        x = x / 256;
        i = i + 1;
    }
    assert(out@ + le_bytes(x as nat, 0) =~= out@);
}

/// Reads `k` bytes at `pos` as a little-endian number.
pub fn read_le(b: &[u8], pos: usize, k: usize) -> (r: u64)
    requires
        k <= 8,
        pos + k <= b@.len(),
    ensures
        r as nat == le_value(b@.subrange(pos as int, pos + k)),
{
    let len = b.len();
    let mut acc: u64 = 0;
    let mut i: usize = k;
    proof {
        lemma_pow256_values();
    }
    while i > 0
        invariant
            i <= k <= 8,
            pos + k <= b@.len(),
            len == b@.len(),
            pow256(8) == 0x1_0000_0000_0000_0000,
            acc as nat == le_value(b@.subrange(pos + i, pos + k)),
        decreases i,
    {
        let ghost tail = b@.subrange(pos + i, pos + k);
        let ghost s = b@.subrange(pos + i - 1, pos + k);
        assert(s.drop_first() =~= tail);
        proof {
            lemma_le_value_bound(s);
            lemma_pow256_mono(s.len(), 8);
        }
        let byte = b[pos + (i - 1)];
        assert(byte == s[0]);
        assert(acc as nat * 256 + byte as nat == le_value(s));
        acc = acc * 256 + byte as u64;
        i = i - 1;
    }
    acc
}

pub proof fn lemma_pow256_mono(a: nat, b: nat)
    requires
        a <= b,
    ensures
        pow256(a) <= pow256(b),
    decreases b,
{
    if a < b {
        lemma_pow256_mono(a, (b - 1) as nat);
        lemma_pow256_positive((b - 1) as nat);
    }
}

} // verus!
