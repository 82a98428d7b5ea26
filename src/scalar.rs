//! Integers as minimal big-endian byte strings, and fixed-width byte values.
use vstd::prelude::*;

use crate::rlp_frame::{be_bytes, be_value, no_leading_zero};
use crate::types::FormatError;

verus! {

pub open spec fn pow256(k: nat) -> nat
    decreases k,
{
    if k == 0 {
        1
    } else {
        256 * pow256((k - 1) as nat)
    }
}

/// `s` without its leading zero bytes.
pub open spec fn strip_zeros(s: Seq<u8>) -> Seq<u8>
    decreases s.len(),
{
    if s.len() > 0 && s[0] == 0 {
        strip_zeros(s.subrange(1, s.len() as int))
    } else {
        s
    }
}

/// `p` preceded by zero bytes up to length `n`.
pub open spec fn left_pad(p: Seq<u8>, n: nat) -> Seq<u8> {
    Seq::new((n - p.len()) as nat, |i: int| 0u8) + p
}

pub proof fn lemma_be_bytes(n: nat, k: nat)
    ensures
        be_value(be_bytes(n)) == n,
        no_leading_zero(be_bytes(n)),
        n < pow256(k) ==> be_bytes(n).len() <= k,
    decreases n,
{
    if n > 0 {
        let q = n / 256;
        lemma_be_bytes(q, (k - 1) as nat);
        assert(be_bytes(n).drop_last() =~= be_bytes(q));
        if q > 0 {
            assert(be_bytes(n)[0] == be_bytes(q)[0]);
        } else {
            assert(be_bytes(q) =~= Seq::<u8>::empty());
        }
        if n < pow256(k) && k > 0 {
            assert(q < pow256((k - 1) as nat));
        }
        if k == 0 {
            assert(pow256(0) == 1);
        }
    }
}

pub proof fn lemma_be_value_bound(p: Seq<u8>)
    ensures
        be_value(p) < pow256(p.len()),
    decreases p.len(),
{
    if p.len() > 0 {
        lemma_be_value_bound(p.drop_last());
        let v = be_value(p.drop_last());
        let m = pow256(p.drop_last().len());
        assert(v * 256 + p.last() < m * 256) by (nonlinear_arith)
            requires
                v < m,
                p.last() < 256,
        ;
    }
}

pub proof fn lemma_pad_strip(s: Seq<u8>)
    ensures
        left_pad(strip_zeros(s), s.len()) == s,
        strip_zeros(s).len() <= s.len(),
        no_leading_zero(strip_zeros(s)),
    decreases s.len(),
{
    if s.len() > 0 && s[0] == 0 {
        let t = s.subrange(1, s.len() as int);
        lemma_pad_strip(t);
        let x = strip_zeros(t);
        assert(strip_zeros(s) == x);
        assert(left_pad(x, s.len()) =~= seq![0u8] + left_pad(x, t.len()));
        assert(s =~= seq![0u8] + t);
    } else {
        assert(left_pad(s, s.len()) =~= s);
    }
}

/// Minimal big-endian bytes of `n`.
pub fn encode_u64(n: u64) -> (r: Vec<u8>)
    ensures
        r@ == be_bytes(n as nat),
{
    let mut r: Vec<u8> = Vec::new();
    let mut x: u64 = n;
    while x > 0
        invariant
            be_bytes(n as nat) == be_bytes(x as nat) + r@,
        decreases x,
    {
        let b = (x % 256) as u8;
        proof {
            assert(be_bytes(x as nat) == be_bytes((x / 256) as nat).push(b));
        }
        r.insert(0, b);
        x = x / 256;
        proof {
            assert(be_bytes(n as nat) =~= be_bytes(x as nat) + r@);
        }
    }
    proof {
        assert(be_bytes(0) =~= Seq::<u8>::empty());
        assert(r@ =~= be_bytes(n as nat));
    }
    r
}

/// Reads a minimal big-endian integer of at most `max_len` bytes.
pub fn decode_uint(p: &[u8], max_len: usize) -> (r: Result<u64, FormatError>)
    requires
        max_len <= 8,
    ensures
        r is Ok <==> p@.len() <= max_len && no_leading_zero(p@),
        r is Ok ==> r.unwrap() as nat == be_value(p@),
        r is Ok ==> (r.unwrap() as nat) < pow256(max_len as nat),
        r is Err ==> r == Err::<u64, FormatError>(FormatError::BadInteger),
{
    if p.len() > max_len || (p.len() > 0 && p[0] == 0) {
        return Err(FormatError::BadInteger);
    }
    let mut v: u64 = 0;
    let mut i: usize = 0;
    while i < p.len()
        invariant
            i <= p@.len() <= 8,
            v as nat == be_value(p@.subrange(0, i as int)),
        decreases p@.len() - i,
    {
        proof {
            let s = p@.subrange(0, i as int);
            lemma_be_value_bound(s);
            assert(pow256(i as nat) <= pow256(7)) by {
                lemma_pow256_mono(i as nat, 7);
            }
            assert(pow256(7) == 0x100000000000000) by {
                assert(pow256(0) == 1);
                assert(pow256(1) == 256);
                assert(pow256(2) == 0x10000);
                assert(pow256(3) == 0x1000000);
                assert(pow256(4) == 0x100000000);
                assert(pow256(5) == 0x10000000000);
                assert(pow256(6) == 0x1000000000000);
            }
            assert(p@.subrange(0, i + 1).drop_last() =~= s);
        }
        v = v * 256 + p[i] as u64;
        i = i + 1;
    }
    proof {
        assert(p@.subrange(0, i as int) =~= p@);
        lemma_be_value_bound(p@);
        lemma_pow256_mono(p@.len(), max_len as nat);
    }
    Ok(v)
}

pub proof fn lemma_pow256_mono(a: nat, b: nat)
    requires
        a <= b,
    ensures
        pow256(a) <= pow256(b),
    decreases b,
{
    if a < b {
        lemma_pow256_mono(a, (b - 1) as nat);
    }
}

/// `b` without its leading zero bytes.
pub fn strip_leading_zeros(b: &[u8]) -> (r: Vec<u8>)
    ensures
        r@ == strip_zeros(b@),
{
    let mut k: usize = 0;
    proof {
        assert(b@.subrange(0, b@.len() as int) =~= b@);
    }
    while k < b.len() && b[k] == 0
        invariant
            k <= b@.len(),
            strip_zeros(b@) == strip_zeros(b@.subrange(k as int, b@.len() as int)),
        decreases b@.len() - k,
    {
        proof {
            let t = b@.subrange(k as int, b@.len() as int);
            assert(t.subrange(1, t.len() as int) =~= b@.subrange(k + 1, b@.len() as int));
        }
        k = k + 1;
    }
    let mut r: Vec<u8> = Vec::new();
    let mut i: usize = k;
    while i < b.len()
        invariant
            k <= i <= b@.len(),
            r@ == b@.subrange(k as int, i as int),
        decreases b@.len() - i,
    {
        r.push(b[i]);
        i = i + 1;
        proof {
            assert(r@ =~= b@.subrange(k as int, i as int));
        }
    }
    r
}

/// `p` preceded by zero bytes up to `n` bytes; refused when `p` is longer or
/// starts with a zero byte.
pub fn pad_canonical(p: &[u8], n: usize) -> (r: Result<Vec<u8>, FormatError>)
    ensures
        r is Ok <==> p@.len() <= n && no_leading_zero(p@),
        r is Ok ==> r.unwrap()@ == left_pad(p@, n as nat),
        r is Err ==> r == Err::<Vec<u8>, FormatError>(FormatError::BadInteger),
{
    if p.len() > n || (p.len() > 0 && p[0] == 0) {
        return Err(FormatError::BadInteger);
    }
    let mut r: Vec<u8> = Vec::new();
    let pad = n - p.len();
    while r.len() < pad
        invariant
            r@.len() <= pad,
            pad == n - p@.len(),
            forall|j: int| 0 <= j < r@.len() ==> r@[j] == 0u8,
        decreases pad - r@.len(),
    {
        r.push(0u8);
    }
    let mut i: usize = 0;
    while i < p.len()
        invariant
            i <= p@.len(),
            pad == n - p@.len(),
            r@ == Seq::new(pad as nat, |j: int| 0u8) + p@.subrange(0, i as int),
        decreases p@.len() - i,
    {
        proof {
            if i == 0 {
                assert(r@ =~= Seq::new(pad as nat, |j: int| 0u8) + p@.subrange(0, 0));
            }
        }
        r.push(p[i]);
        i = i + 1;
        proof {
            assert(r@ =~= Seq::new(pad as nat, |j: int| 0u8) + p@.subrange(0, i as int));
        }
    }
    proof {
        if p@.len() == 0 {
            assert(r@ =~= left_pad(p@, n as nat));
        }
        assert(r@ =~= left_pad(p@, n as nat));
    }
    Ok(r)
}

/// A copy of `p`, refused unless it has exactly `n` bytes.
pub fn exact_bytes(p: &[u8], n: usize) -> (r: Result<Vec<u8>, FormatError>)
    ensures
        r is Ok <==> p@.len() == n,
        r is Ok ==> r.unwrap()@ == p@,
        r is Err ==> r == Err::<Vec<u8>, FormatError>(FormatError::BadLength),
{
    if p.len() != n {
        return Err(FormatError::BadLength);
    }
    let mut r: Vec<u8> = Vec::new();
    let mut i: usize = 0;
    while i < p.len()
        invariant
            i <= p@.len(),
            r@ == p@.subrange(0, i as int),
        decreases p@.len() - i,
    {
        r.push(p[i]);
        i = i + 1;
        proof {
            assert(r@ =~= p@.subrange(0, i as int));
        }
    }
    proof {
        assert(r@ =~= p@);
    }
    Ok(r)
}

pub proof fn lemma_pow256_8()
    ensures
        pow256(8) == 0x10000000000000000,
        pow256(1) == 256,
{
    assert(pow256(0) == 1);
    assert(pow256(1) == 256);
    assert(pow256(2) == 0x10000);
    assert(pow256(3) == 0x1000000);
    assert(pow256(4) == 0x100000000);
    assert(pow256(5) == 0x10000000000);
    assert(pow256(6) == 0x1000000000000);
    assert(pow256(7) == 0x100000000000000);
}

} // verus!
