//! Big-endian byte-string conversions.
//!
//! Every fixed-width field of the on-chain operation encoding is a big-endian
//! integer. The spec-level meaning of such a field is given by `be_bytes`
//! (integer to bytes) and `be_value` (bytes to integer); the executable
//! conversions are proved against those two functions.

use vstd::prelude::*;

verus! {

/// 256 to the power `n`: the number of distinct `n`-byte strings.
pub open spec fn pow256(n: nat) -> nat
    decreases n,
{
    if n == 0 {
        1
    } else {
        256 * pow256((n - 1) as nat)
    }
}

/// The `n` big-endian bytes of `v` (most significant byte first).
/// Values too large for `n` bytes are truncated to their low `n` bytes.
pub open spec fn be_bytes(v: nat, n: nat) -> Seq<u8>
    decreases n,
{
    if n == 0 {
        Seq::empty()
    } else {
        be_bytes(v / 256, (n - 1) as nat).push((v % 256) as u8)
    }
}

/// The integer a big-endian byte string stands for.
pub open spec fn be_value(s: Seq<u8>) -> nat
    decreases s.len(),
{
    if s.len() == 0 {
        0
    } else {
        (be_value(s.drop_last()) * 256 + s.last()) as nat
    }
}

/// Concrete values of `pow256` at the packed-field widths.
pub proof fn lemma_pow256_small()
    ensures
        pow256(2) == 65536,
        pow256(4) == 4294967296,
        pow256(5) == 1099511627776,
{
    reveal_with_fuel(pow256, 6);
}

/// Concrete value of `pow256` at the width of a `u128`.
pub proof fn lemma_pow256_16()
    ensures
        pow256(16) == 0x100000000000000000000000000000000,
        pow256(15) == 0x1000000000000000000000000000000,
{
    reveal_with_fuel(pow256, 17);
}

pub proof fn lemma_pow256_pos(n: nat)
    ensures
        pow256(n) >= 1,
    decreases n,
{
    if n > 0 {
        lemma_pow256_pos((n - 1) as nat);
    }
}

pub proof fn lemma_pow256_monotone(m: nat, n: nat)
    requires
        m <= n,
    ensures
        pow256(m) <= pow256(n),
    decreases n,
{
    if m < n {
        lemma_pow256_monotone(m, (n - 1) as nat);
        lemma_pow256_pos((n - 1) as nat);
    }
}

pub proof fn lemma_be_bytes_len(v: nat, n: nat)
    ensures
        be_bytes(v, n).len() == n,
    decreases n,
{
    if n > 0 {
        lemma_be_bytes_len(v / 256, (n - 1) as nat);
    }
}

/// A value below `pow256(n)` survives the round trip through its `n` bytes.
pub proof fn lemma_be_value_of_be_bytes(v: nat, n: nat)
    requires
        v < pow256(n),
    ensures
        be_value(be_bytes(v, n)) == v,
    decreases n,
{
    if n > 0 {
        let s = be_bytes(v, n);
        lemma_be_bytes_len(v / 256, (n - 1) as nat);
        assert(s.drop_last() =~= be_bytes(v / 256, (n - 1) as nat));
        assert(v / 256 < pow256((n - 1) as nat)) by {
            lemma_pow256_pos((n - 1) as nat);
            assert(pow256(n) == 256 * pow256((n - 1) as nat));
            assert(v / 256 < pow256((n - 1) as nat)) by (nonlinear_arith)
                requires
                    v < 256 * pow256((n - 1) as nat),
                    pow256((n - 1) as nat) >= 1,
            ;
        }
        lemma_be_value_of_be_bytes(v / 256, (n - 1) as nat);
        assert(be_value(s) == (v / 256) * 256 + v % 256);
        assert((v / 256) * 256 + v % 256 == v) by (nonlinear_arith);
    }
}

/// A byte string's value fits in its own width.
pub proof fn lemma_be_value_bound(s: Seq<u8>)
    ensures
        be_value(s) < pow256(s.len()),
    decreases s.len(),
{
    if s.len() > 0 {
        lemma_be_value_bound(s.drop_last());
        let p = pow256((s.len() - 1) as nat);
        assert(be_value(s.drop_last()) * 256 + s.last() < 256 * p) by (nonlinear_arith)
            requires
                be_value(s.drop_last()) < p,
                s.last() < 256,
        ;
    }
}

/// The `n` big-endian bytes of `v`, as a vector.
pub fn nat_to_be_vec(v: u128, n: usize) -> (r: Vec<u8>)
    ensures
        r@ == be_bytes(v as nat, n as nat),
        r@.len() == n,
    decreases n,
{
    proof {
        lemma_be_bytes_len(v as nat, n as nat);
    }
    if n == 0 {
        Vec::new()
    } else {
        let mut r = nat_to_be_vec(v / 256, n - 1);
        r.push((v % 256) as u8);
        r
    }
}

/// The integer the `bytes` stand for; the width is capped so it fits a `u128`.
pub fn be_slice_to_u128(s: &[u8]) -> (r: u128)
    requires
        s@.len() <= 16,
    ensures
        r as nat == be_value(s@),
    decreases s@.len(),
{
    proof {
        lemma_be_value_bound(s@);
        lemma_pow256_monotone(s@.len(), 16);
        lemma_pow256_16();
    }
    let n = s.len();
    if n == 0 {
        0
    } else {
        let prefix = &s[0..n - 1];
        assert(prefix@ =~= s@.drop_last());
        let high = be_slice_to_u128(prefix);
        proof {
            lemma_be_value_bound(s@.drop_last());
            lemma_pow256_monotone(s@.drop_last().len(), 15);
            lemma_pow256_16();
        }
        high * 256 + (s[n - 1] as u128)
    }
}

/// Byte-string equality.
pub fn bytes_eq(a: &[u8], b: &[u8]) -> (r: bool)
    ensures
        r == (a@ == b@),
{
    if a.len() != b.len() {
        proof {
            assert(a@.len() != b@.len());
        }
        return false;
    }
    let n = a.len();
    let mut i: usize = 0;
    while i < n
        invariant
            n == a@.len() == b@.len(),
            i <= n,
            forall|j: int| 0 <= j < i ==> a@[j] == b@[j],
        decreases n - i,
    {
        if a[i] != b[i] {
            return false;
        }
        i += 1;
    }
    proof {
        assert(a@ =~= b@);
    }
    true
}

/// An all-zero byte string.
pub open spec fn zero_seq(n: nat) -> Seq<u8> {
    Seq::new(n, |i: int| 0u8)
}

/// `s` zero-padded on the right to length `n`.
pub open spec fn zero_pad(s: Seq<u8>, n: nat) -> Seq<u8> {
    s + Seq::new((n - s.len()) as nat, |i: int| 0u8)
}

/// An all-zero byte vector.
pub fn zero_vec(n: usize) -> (r: Vec<u8>)
    ensures
        r@ == zero_seq(n as nat),
{
    let mut r: Vec<u8> = Vec::new();
    push_zeros(&mut r, n);
    assert(r@ =~= zero_seq(n as nat));
    r
}

/// Copy a byte slice into a fresh vector.
pub fn slice_to_vec(s: &[u8]) -> (r: Vec<u8>)
    ensures
        r@ == s@,
{
    let mut r: Vec<u8> = Vec::new();
    push_bytes(&mut r, s);
    assert(r@ =~= s@);
    r
}

/// Append every byte of `src` to `dst`.
pub fn push_bytes(dst: &mut Vec<u8>, src: &[u8])
    ensures
        final(dst)@ == old(dst)@ + src@,
{
    let n = src.len();
    let mut i: usize = 0;
    while i < n
        invariant
            n == src@.len(),
            i <= n,
            dst@ == old(dst)@ + src@.subrange(0, i as int),
        decreases n - i,
    {
        dst.push(src[i]);
        assert(dst@ =~= old(dst)@ + src@.subrange(0, i + 1 as int));
        i += 1;
    }
    assert(dst@ =~= old(dst)@ + src@);
}

/// Append `count` zero bytes to `dst`.
pub fn push_zeros(dst: &mut Vec<u8>, count: usize)
    ensures
        final(dst)@ == old(dst)@ + Seq::new(count as nat, |i: int| 0u8),
{
    let mut i: usize = 0;
    while i < count
        invariant
            i <= count,
            dst@ == old(dst)@ + Seq::new(i as nat, |j: int| 0u8),
        decreases count - i,
    {
        dst.push(0u8);
        assert(dst@ =~= old(dst)@ + Seq::new((i + 1) as nat, |j: int| 0u8));
        i += 1;
    }
}

} // verus!
