//! Byte primitives: little-endian integers and constant-time comparison.

use vstd::prelude::*;

verus! {

/// The low `k` bytes of `n`, least significant first.
pub open spec fn le(n: nat, k: nat) -> Seq<u8>
    decreases k,
{
    if k == 0 {
        Seq::empty()
    } else {
        seq![(n % 256) as u8] + le(n / 256, (k - 1) as nat)
    }
}

/// The number whose bytes are `s`, least significant first.
pub open spec fn le_value(s: Seq<u8>) -> nat
    decreases s.len(),
{
    if s.len() == 0 {
        0
    } else {
        s[0] as nat + 256 * le_value(s.skip(1))
    }
}

/// `256` to the power `k`.
pub open spec fn pow256(k: nat) -> nat
    decreases k,
{
    if k == 0 {
        1
    } else {
        256 * pow256((k - 1) as nat)
    }
}

/// A number that fits in `k` bytes is the value of its `k` little-endian bytes.
pub proof fn lemma_le_value(n: nat, k: nat)
    requires
        n < pow256(k),
    ensures
        le(n, k).len() == k,
        le_value(le(n, k)) == n,
    decreases k,
{
    if k > 0 {
        lemma_le_value(n / 256, (k - 1) as nat);
        assert(le(n, k).skip(1) =~= le(n / 256, (k - 1) as nat));
    }
}

/// The four little-endian bytes of `n`.
pub fn le32(n: u32) -> (r: [u8; 4])
    ensures
        r@ == le(n as nat, 4),
{
    let n1: u32 = n / 256;
    let n2: u32 = n1 / 256;
    let n3: u32 = n2 / 256;
    let r = [(n % 256) as u8, (n1 % 256) as u8, (n2 % 256) as u8, (n3 % 256) as u8];
    proof {
        reveal_with_fuel(le, 5);
        assert(r@ =~= le(n as nat, 4));
    }
    r
}

/// The eight little-endian bytes of `n`.
pub fn le64(n: u64) -> (r: [u8; 8])
    ensures
        r@ == le(n as nat, 8),
{
    let n1: u64 = n / 256;
    let n2: u64 = n1 / 256;
    let n3: u64 = n2 / 256;
    let n4: u64 = n3 / 256;
    let n5: u64 = n4 / 256;
    let n6: u64 = n5 / 256;
    let n7: u64 = n6 / 256;
    let r = [
        (n % 256) as u8,
        (n1 % 256) as u8,
        (n2 % 256) as u8,
        (n3 % 256) as u8,
        (n4 % 256) as u8,
        (n5 % 256) as u8,
        (n6 % 256) as u8,
        (n7 % 256) as u8,
    ];
    proof {
        reveal_with_fuel(le, 9);
        assert(r@ =~= le(n as nat, 8));
    }
    r
}

/// The number whose little-endian bytes stand at `at` in `s`.
pub fn read_le32(s: &[u8], at: usize) -> (n: u32)
    requires
        at + 4 <= s.len(),
    ensures
        n == le_value(s@.subrange(at as int, at + 4)),
{
    let ghost t = s@.subrange(at as int, at + 4);
    proof {
        reveal_with_fuel(le_value, 5);
        assert(t.skip(1).skip(1).skip(1).skip(1).len() == 0);
    }
    s[at] as u32 + 256 * (s[at + 1] as u32) + 65536 * (s[at + 2] as u32) + 16777216 * (s[at
        + 3] as u32)
}

proof fn lemma_le_value_split(s: Seq<u8>, k: int)
    requires
        0 <= k <= s.len(),
    ensures
        le_value(s) == le_value(s.take(k)) + pow256(k as nat) * le_value(s.skip(k)),
    decreases k,
{
    if k == 0 {
        assert(s.skip(0) =~= s);
        assert(s.take(0).len() == 0);
        let whole = le_value(s);
        let one = pow256(0);
        assert(one * whole == whole) by (nonlinear_arith)
            requires
                one == 1,
        ;
    } else {
        let t = s.skip(1);
        lemma_le_value_split(t, k - 1);
        assert(s.take(k).skip(1) =~= t.take(k - 1));
        assert(t.skip(k - 1) =~= s.skip(k));
        let p = pow256((k - 1) as nat);
        let h = le_value(s.skip(k));
        let q = pow256(k as nat);
        assert(q * h == 256 * (p * h)) by (nonlinear_arith)
            requires
                q == 256 * p,
        ;
    }
}

/// The number whose little-endian bytes stand at `at` in `s`.
pub fn read_le64(s: &[u8], at: usize) -> (n: u64)
    requires
        at + 8 <= s.len(),
    ensures
        n == le_value(s@.subrange(at as int, at + 8)),
{
    let low = read_le32(s, at);
    let high = read_le32(s, at + 4);
    proof {
        let t = s@.subrange(at as int, at + 8);
        lemma_le_value_split(t, 4);
        assert(t.take(4) =~= s@.subrange(at as int, at + 4));
        assert(t.skip(4) =~= s@.subrange(at + 4, at + 8));
        reveal_with_fuel(pow256, 5);
    }
    low as u64 + 0x1_0000_0000 * (high as u64)
}

/// Compares without stopping at the first difference; equal bytes give `true`.
pub fn constant_time_eq(a: &[u8], b: &[u8]) -> (r: bool)
    ensures
        r == (a@ == b@),
{
    if a.len() != b.len() {
        return false;
    }
    let mut diff: u8 = 0;
    assert(a@.take(0) =~= b@.take(0));
    for i in 0..a.len()
        invariant
            a@.len() == b@.len(),
            (diff == 0) == (a@.take(i as int) == b@.take(i as int)),
    {
        let x = a[i];
        let y = b[i];
        let before = diff;
        diff = diff | (x ^ y);
        proof {
            assert((before | (x ^ y)) == 0 <==> (before == 0 && x == y)) by (bit_vector);
            assert(a@.take(i + 1).drop_last() =~= a@.take(i as int));
            assert(b@.take(i + 1).drop_last() =~= b@.take(i as int));
            assert(a@.take(i + 1) =~= a@.take(i as int).push(x));
            assert(b@.take(i + 1) =~= b@.take(i as int).push(y));
            if a@.take(i + 1) == b@.take(i + 1) {
                assert(a@.take(i + 1)[i as int] == b@.take(i + 1)[i as int]);
            }
        }
    }
    assert(a@.take(a@.len() as int) =~= a@);
    assert(b@.take(b@.len() as int) =~= b@);
    diff == 0
}

} // verus!
