//! Verified vector arithmetic over the scalar field, stated over the
//! named field operations.

use vstd::prelude::*;

verus! {

use curve25519_dalek::scalar::Scalar;
use rand::rngs::ThreadRng;
use crate::backend::prod_of;
use crate::backend::scalar_add;
use crate::backend::scalar_from_u64;
use crate::backend::scalar_mul;
use crate::backend::scalar_of_u64;
use crate::backend::scalar_random;
use crate::backend::sum_of;

/// The `i`-th power of `x` in the scalar field: `x^0 == 1`, and each
/// power is the previous one multiplied by `x`.
pub open spec fn pow_scalar(x: Scalar, i: int) -> Scalar
    decreases i,
{
    if i <= 0 {
        scalar_of_u64(1)
    } else {
        prod_of(pow_scalar(x, i - 1), x)
    }
}

/// The inner product of the first `i` lanes, folded left to right from
/// zero: `((0 + a[0]*b[0]) + a[1]*b[1]) + ...`.
pub open spec fn inner_product_spec(a: Seq<Scalar>, b: Seq<Scalar>, i: int) -> Scalar
    decreases i,
{
    if i <= 0 {
        scalar_of_u64(0)
    } else {
        sum_of(inner_product_spec(a, b, i - 1), prod_of(a[i - 1], b[i - 1]))
    }
}

/// The sum of the first `i` elements, folded left to right from zero.
pub open spec fn sum_spec(v: Seq<Scalar>, i: int) -> Scalar
    decreases i,
{
    if i <= 0 {
        scalar_of_u64(0)
    } else {
        sum_of(sum_spec(v, i - 1), v[i - 1])
    }
}

/// The inner product of two equally long scalar vectors.
pub fn inner_product(a: &Vec<Scalar>, b: &Vec<Scalar>) -> (r: Scalar)
    requires
        a@.len() == b@.len(),
    ensures
        r == inner_product_spec(a@, b@, a@.len() as int),
{
    let mut acc: Scalar = scalar_from_u64(0);
    let mut i: usize = 0;
    while i < a.len()
        invariant
            i <= a@.len() == b@.len(),
            acc == inner_product_spec(a@, b@, i as int),
        decreases a@.len() - i,
    {
        let term = scalar_mul(&a[i], &b[i]);
        acc = scalar_add(&acc, &term);
        i = i + 1;
    }
    acc
}

/// The first `count` powers of `x`, starting from `x^0 == 1`.
pub fn scalar_powers(x: &Scalar, count: usize) -> (r: Vec<Scalar>)
    ensures
        r@.len() == count,
        forall|i: int| 0 <= i < count ==> r@[i] == pow_scalar(*x, i),
{
    let mut r: Vec<Scalar> = Vec::new();
    let mut cur: Scalar = scalar_from_u64(1);
    let mut i: usize = 0;
    while i < count
        invariant
            i <= count,
            r@.len() == i,
            cur == pow_scalar(*x, i as int),
            forall|j: int| 0 <= j < i ==> r@[j] == pow_scalar(*x, j),
        decreases count - i,
    {
        r.push(cur);
        cur = scalar_mul(&cur, x);
        i = i + 1;
    }
    r
}

/// The sum of all elements of `v`.
pub fn sum_scalars(v: &Vec<Scalar>) -> (r: Scalar)
    ensures
        r == sum_spec(v@, v@.len() as int),
{
    let mut acc: Scalar = scalar_from_u64(0);
    let mut i: usize = 0;
    while i < v.len()
        invariant
            i <= v@.len(),
            acc == sum_spec(v@, i as int),
        decreases v@.len() - i,
    {
        acc = scalar_add(&acc, &v[i]);
        i = i + 1;
    }
    acc
}

/// `count` scalars drawn from the given secure generator; nothing is
/// promised of their values.
pub fn random_scalars(rng: &mut ThreadRng, count: usize) -> (r: Vec<Scalar>)
    ensures
        r@.len() == count,
{
    let mut r: Vec<Scalar> = Vec::new();
    let mut i: usize = 0;
    while i < count
        invariant
            i <= count,
            r@.len() == i,
        decreases count - i,
    {
        let s = scalar_random(rng);
        r.push(s);
        i = i + 1;
    }
    r
}

} // verus!
