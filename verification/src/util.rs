//! Small verified helpers: powers of two, vector slicing, bit
//! decomposition and byte tests used across the protocol.

use vstd::prelude::*;

verus! {

use vstd::arithmetic::power2::pow2;
use vstd::arithmetic::power2::lemma2_to64;
use vstd::arithmetic::power2::lemma2_to64_rest;
use vstd::arithmetic::power2::lemma_pow2_unfold;

/// Whether `n` is a power of two (zero is not).
pub open spec fn is_pow2(n: nat) -> bool
    decreases n,
{
    if n == 0 {
        false
    } else if n == 1 {
        true
    } else {
        n % 2 == 0 && is_pow2(n / 2)
    }
}

/// The floor of the base-two logarithm of `n`, with `lg(0) == 0`.
pub open spec fn lg(n: nat) -> nat
    decreases n,
{
    if n <= 1 {
        0
    } else {
        1 + lg(n / 2)
    }
}

/// On a power of two, `lg` is exact.
pub proof fn lemma_pow2_lg(n: nat)
    requires
        is_pow2(n),
    ensures
        pow2(lg(n)) == n,
    decreases n,
{
    if n == 1 {
        lemma2_to64();
    } else {
        lemma_pow2_lg(n / 2);
        lemma_pow2_unfold(lg(n));
    }
}

/// `lg` never reaches the exponent of a strictly larger power of two.
pub proof fn lemma_lg_below(n: nat, k: nat)
    requires
        1 <= n < pow2(k),
    ensures
        lg(n) < k,
    decreases n,
{
    assert(k >= 1) by {
        if k == 0 {
            lemma2_to64();
        }
    }
    if n > 1 {
        assert(n / 2 < pow2((k - 1) as nat)) by {
            lemma_pow2_unfold(k);
        }
        lemma_lg_below(n / 2, (k - 1) as nat);
    }
}

/// Any `usize` value is below `pow2(64)`.
pub proof fn lemma_usize_below_pow2_64(n: usize)
    ensures
        (n as nat) < pow2(64),
{
    lemma2_to64_rest();
}

/// A product of powers of two is a power of two, and `lg` adds.
pub proof fn lemma_is_pow2_mul(a: nat, b: nat)
    requires
        is_pow2(a),
        is_pow2(b),
    ensures
        is_pow2(a * b),
        lg(a * b) == lg(a) + lg(b),
    decreases a,
{
    if a == 1 {
        assert(a * b == b) by (nonlinear_arith)
            requires
                a == 1,
        ;
    } else {
        lemma_is_pow2_mul(a / 2, b);
        assert(a * b == 2 * ((a / 2) * b) && a * b >= 2) by (nonlinear_arith)
            requires
                a % 2 == 0,
                a >= 2,
                b >= 1,
        ;
        assert((a * b) % 2 == 0 && (a * b) / 2 == (a / 2) * b) by (nonlinear_arith)
            requires
                a * b == 2 * ((a / 2) * b),
                a * b >= 2,
        ;
    }
}

/// The supported bit lengths are powers of two.
pub proof fn lemma_small_pow2()
    ensures
        is_pow2(8),
        is_pow2(16),
        is_pow2(32),
        is_pow2(64),
{
    reveal_with_fuel(is_pow2, 8);
}

/// Whether `n` is a power of two, decided by repeated halving.
pub fn is_pow2_exec(n: usize) -> (b: bool)
    ensures
        b == is_pow2(n as nat),
{
    if n == 0 {
        return false;
    }
    let mut x: usize = n;
    while x > 1
        invariant
            1 <= x,
            is_pow2(x as nat) == is_pow2(n as nat),
        decreases x,
    {
        if x % 2 == 1 {
            return false;
        }
        x = x / 2;
    }
    true
}

/// The floor of the base-two logarithm, by repeated halving.
pub fn floor_lg(n: usize) -> (r: usize)
    requires
        n >= 1,
    ensures
        r == lg(n as nat),
        r < 64,
{
    proof {
        lemma_usize_below_pow2_64(n);
        lemma_lg_below(n as nat, 64);
    }
    let mut x: usize = n;
    let mut r: usize = 0;
    while x > 1
        invariant
            1 <= x,
            r + lg(x as nat) == lg(n as nat),
            lg(n as nat) < 64,
        decreases x,
    {
        x = x / 2;
        r = r + 1;
    }
    r
}

/// A copy of `v[start..end]`.
pub fn subvec<T: Copy>(v: &Vec<T>, start: usize, end: usize) -> (r: Vec<T>)
    requires
        start <= end <= v@.len(),
    ensures
        r@ == v@.subrange(start as int, end as int),
{
    let mut r: Vec<T> = Vec::new();
    let mut i: usize = start;
    while i < end
        invariant
            start <= i <= end <= v@.len(),
            r@ == v@.subrange(start as int, i as int),
        decreases end - i,
    {
        r.push(v[i]);
        proof {
            assert(r@ =~= v@.subrange(start as int, i + 1 as int));
        }
        i = i + 1;
    }
    r
}

/// Appends a copy of every element of `src` to `dst`.
pub fn append_vec<T: Copy>(dst: &mut Vec<T>, src: &Vec<T>)
    ensures
        final(dst)@ == old(dst)@ + src@,
{
    let mut i: usize = 0;
    while i < src.len()
        invariant
            i <= src@.len(),
            dst@ == old(dst)@ + src@.subrange(0, i as int),
        decreases src@.len() - i,
    {
        dst.push(src[i]);
        proof {
            assert(dst@ =~= old(dst)@ + src@.subrange(0, i + 1 as int));
        }
        i = i + 1;
    }
    proof {
        assert(dst@ =~= old(dst)@ + src@);
    }
}

/// The little-endian bit decomposition of `v`, truncated to `n` bits.
pub fn bits_of(v: u64, n: usize) -> (r: Vec<bool>)
    requires
        n <= 64,
    ensures
        r@.len() == n,
        forall|i: int| 0 <= i < n ==> r@[i] == (((v >> (i as u64)) & 1) == 1),
{
    let mut r: Vec<bool> = Vec::new();
    let mut i: usize = 0;
    while i < n
        invariant
            i <= n <= 64,
            r@.len() == i,
            forall|j: int| 0 <= j < i ==> r@[j] == (((v >> (j as u64)) & 1) == 1),
        decreases n - i,
    {
        r.push(((v >> (i as u64)) & 1) == 1);
        i = i + 1;
    }
    r
}

/// Whether every byte of `b` is zero.
pub open spec fn is_zero_bytes(b: Seq<u8>) -> bool {
    forall|i: int| 0 <= i < b.len() ==> b[i] == 0
}

/// Decides `is_zero_bytes`.
pub fn all_zero(b: &Vec<u8>) -> (r: bool)
    ensures
        r == is_zero_bytes(b@),
{
    let mut i: usize = 0;
    while i < b.len()
        invariant
            i <= b@.len(),
            forall|j: int| 0 <= j < i ==> b@[j] == 0,
        decreases b@.len() - i,
    {
        if b[i] != 0 {
            return false;
        }
        i = i + 1;
    }
    true
}

} // verus!
