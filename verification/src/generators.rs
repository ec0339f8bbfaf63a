//! The public commitment bases.
//!
//! `PedersenGens` is the pair of bases for single-value commitments;
//! `BulletproofGens` is the indexed family of bases shared by the bit
//! commitments of every proof.  Both are derived deterministically, so a
//! prover and a verifier that build them the same way hold the same
//! points.

use vstd::prelude::*;

verus! {

use curve25519_dalek::ristretto::RistrettoPoint;
use curve25519_dalek::scalar::Scalar;
use crate::backend::basepoint;
use crate::backend::challenge_of;
use crate::backend::msm;
use crate::backend::msm_of;
use crate::backend::point_from_uniform;
use crate::backend::t_append_u64;
use crate::backend::t_challenge;
use crate::backend::t_new;
use crate::backend::u64_le_bytes;
use crate::backend::uniform_point_of;

/// The point the generator derivation yields for a kind label and two
/// indices: 64 challenge bytes drawn from a transcript over the three
/// inputs, mapped uniformly into the group.  Distinct inputs give
/// independent points, and the derivation is deterministic, so prover
/// and verifier instantiations agree.
pub open spec fn derived_point(kind: Seq<char>, party: u64, index: u64) -> RistrettoPoint {
    uniform_point_of(
        challenge_of(
            seq![
                (false, "rangeproof generators"@, Seq::<u8>::empty()),
                (false, kind, u64_le_bytes(party)),
                (false, "index"@, u64_le_bytes(index)),
            ],
            "point"@,
        ),
    )
}

/// A point derived from the generator domain, a kind label, and two
/// indices.
fn derive_generator(kind: &'static str, party: u64, index: u64) -> (r: RistrettoPoint)
    ensures
        r == derived_point(kind@, party, index),
{
    let mut t = t_new("rangeproof generators");
    t_append_u64(&mut t, kind, party);
    t_append_u64(&mut t, "index", index);
    proof {
        assert(crate::backend::transcript_state(t) =~= seq![
            (false, "rangeproof generators"@, Seq::<u8>::empty()),
            (false, kind@, u64_le_bytes(party)),
            (false, "index"@, u64_le_bytes(index)),
        ]);
    }
    let b = t_challenge(&mut t, "point");
    point_from_uniform(&b)
}

/// The two fixed bases of a Pedersen commitment.
pub struct PedersenGens {
    /// Base for the committed value.
    pub b: RistrettoPoint,
    /// Base for the blinding factor.
    pub b_blinding: RistrettoPoint,
}

impl PedersenGens {
    /// The standard bases: the Ristretto base point, and a second point
    /// derived independently of it.  Deterministic: every call returns
    /// the same blinding base (the value base is the fixed curve
    /// constant, of which nothing further can be named).
    pub fn standard() -> (r: PedersenGens)
        ensures
            r.b_blinding == derived_point("pedersen blinding"@, 0, 0),
    {
        PedersenGens { b: basepoint(), b_blinding: derive_generator("pedersen blinding", 0, 0) }
    }

    /// The Pedersen commitment `value * b + blinding * b_blinding`,
    /// computed as one multiscalar sum over the two bases.
    pub fn commit(&self, value: &Scalar, blinding: &Scalar) -> (r: RistrettoPoint)
        ensures
            r == msm_of(seq![*value, *blinding], seq![self.b, self.b_blinding]),
    {
        let mut scalars: Vec<Scalar> = Vec::new();
        scalars.push(*value);
        scalars.push(*blinding);
        let mut points: Vec<RistrettoPoint> = Vec::new();
        points.push(self.b);
        points.push(self.b_blinding);
        let r = msm(&scalars, &points);
        proof {
            assert(scalars@ =~= seq![*value, *blinding]);
            assert(points@ =~= seq![self.b, self.b_blinding]);
        }
        r
    }
}

/// The generator family for bit commitments: for each of up to
/// `party_capacity` parties, `gens_capacity` points on the `G` side and
/// as many on the `H` side.
pub struct BulletproofGens {
    /// Number of generators per party on each side.
    pub gens_capacity: usize,
    /// Number of parties covered.
    pub party_capacity: usize,
    /// Per-party `G` generators.
    pub g: Vec<Vec<RistrettoPoint>>,
    /// Per-party `H` generators.
    pub h: Vec<Vec<RistrettoPoint>>,
}

impl BulletproofGens {
    /// Structural soundness: one full row of generators per party.
    pub open spec fn wf(&self) -> bool {
        &&& self.g@.len() == self.party_capacity
        &&& self.h@.len() == self.party_capacity
        &&& forall|j: int|
            0 <= j < self.party_capacity ==> (#[trigger] self.g@[j])@.len() == self.gens_capacity
        &&& forall|j: int|
            0 <= j < self.party_capacity ==> (#[trigger] self.h@[j])@.len() == self.gens_capacity
        &&& self.gens_capacity * self.party_capacity <= usize::MAX
    }

    /// Builds the family with the given capacities.
    pub fn new(gens_capacity: usize, party_capacity: usize) -> (r: BulletproofGens)
        requires
            gens_capacity * party_capacity <= usize::MAX,
        ensures
            r.wf(),
            r.gens_capacity == gens_capacity,
            r.party_capacity == party_capacity,
            forall|j: int, i: int|
                0 <= j < party_capacity && 0 <= i < gens_capacity ==> (#[trigger] r.g@[j]@[i])
                    == derived_point("G"@, j as u64, i as u64),
            forall|j: int, i: int|
                0 <= j < party_capacity && 0 <= i < gens_capacity ==> (#[trigger] r.h@[j]@[i])
                    == derived_point("H"@, j as u64, i as u64),
    {
        let mut g: Vec<Vec<RistrettoPoint>> = Vec::new();
        let mut h: Vec<Vec<RistrettoPoint>> = Vec::new();
        let mut j: usize = 0;
        while j < party_capacity
            invariant
                j <= party_capacity,
                g@.len() == j,
                h@.len() == j,
                forall|t: int| 0 <= t < j ==> (#[trigger] g@[t])@.len() == gens_capacity,
                forall|t: int| 0 <= t < j ==> (#[trigger] h@[t])@.len() == gens_capacity,
                forall|t: int, i: int|
                    0 <= t < j && 0 <= i < gens_capacity ==> (#[trigger] g@[t]@[i])
                        == derived_point("G"@, t as u64, i as u64),
                forall|t: int, i: int|
                    0 <= t < j && 0 <= i < gens_capacity ==> (#[trigger] h@[t]@[i])
                        == derived_point("H"@, t as u64, i as u64),
            decreases party_capacity - j,
        {
            let mut g_row: Vec<RistrettoPoint> = Vec::new();
            let mut h_row: Vec<RistrettoPoint> = Vec::new();
            let mut i: usize = 0;
            while i < gens_capacity
                invariant
                    i <= gens_capacity,
                    j < party_capacity,
                    g_row@.len() == i,
                    h_row@.len() == i,
                    forall|v: int|
                        0 <= v < i ==> (#[trigger] g_row@[v]) == derived_point(
                            "G"@,
                            j as u64,
                            v as u64,
                        ),
                    forall|v: int|
                        0 <= v < i ==> (#[trigger] h_row@[v]) == derived_point(
                            "H"@,
                            j as u64,
                            v as u64,
                        ),
                decreases gens_capacity - i,
            {
                g_row.push(derive_generator("G", j as u64, i as u64));
                h_row.push(derive_generator("H", j as u64, i as u64));
                i = i + 1;
            }
            g.push(g_row);
            h.push(h_row);
            j = j + 1;
        }
        BulletproofGens { gens_capacity, party_capacity, g, h }
    }

    /// The first `n` `G` generators of each of the first `m` parties,
    /// concatenated in party order.
    pub fn g_flat(&self, n: usize, m: usize) -> (r: Vec<RistrettoPoint>)
        requires
            self.wf(),
            1 <= n <= self.gens_capacity,
            m <= self.party_capacity,
        ensures
            r@.len() == n * m,
            forall|p: int| 0 <= p < n * m ==> (#[trigger] r@[p]) == self.g@[p / (n as int)]@[p % (
            n as int)],
    {
        let mut r: Vec<RistrettoPoint> = Vec::new();
        let mut j: usize = 0;
        while j < m
            invariant
                j <= m,
                self.wf(),
                1 <= n <= self.gens_capacity,
                m <= self.party_capacity,
                r@.len() == n * j,
                forall|p: int|
                    0 <= p < r@.len() ==> (#[trigger] r@[p]) == self.g@[p / (n as int)]@[p % (
                    n as int)],
            decreases m - j,
        {
            let mut i: usize = 0;
            while i < n
                invariant
                    i <= n,
                    j < m,
                    self.wf(),
                    1 <= n <= self.gens_capacity,
                    m <= self.party_capacity,
                    r@.len() == n * j + i,
                    forall|p: int|
                        0 <= p < r@.len() ==> (#[trigger] r@[p]) == self.g@[p / (n as int)]@[p % (
                        n as int)],
                decreases n - i,
            {
                r.push(self.g[j][i]);
                proof {
                    assert((n * j + i) / (n as int) == j && (n * j + i) % (n as int) == i)
                        by (nonlinear_arith)
                        requires
                            0 <= i < n,
                            0 <= j,
                    ;
                }
                i = i + 1;
            }
            proof {
                assert(n * j + n == n * (j + 1)) by (nonlinear_arith);
            }
            j = j + 1;
        }
        proof {
            assert(n * m == m * n) by (nonlinear_arith);
        }
        r
    }

    /// The first `n` `H` generators of each of the first `m` parties,
    /// concatenated in party order.
    pub fn h_flat(&self, n: usize, m: usize) -> (r: Vec<RistrettoPoint>)
        requires
            self.wf(),
            1 <= n <= self.gens_capacity,
            m <= self.party_capacity,
        ensures
            r@.len() == n * m,
            forall|p: int| 0 <= p < n * m ==> (#[trigger] r@[p]) == self.h@[p / (n as int)]@[p % (
            n as int)],
    {
        let mut r: Vec<RistrettoPoint> = Vec::new();
        let mut j: usize = 0;
        while j < m
            invariant
                j <= m,
                self.wf(),
                1 <= n <= self.gens_capacity,
                m <= self.party_capacity,
                r@.len() == n * j,
                forall|p: int|
                    0 <= p < r@.len() ==> (#[trigger] r@[p]) == self.h@[p / (n as int)]@[p % (
                    n as int)],
            decreases m - j,
        {
            let mut i: usize = 0;
            while i < n
                invariant
                    i <= n,
                    j < m,
                    self.wf(),
                    1 <= n <= self.gens_capacity,
                    m <= self.party_capacity,
                    r@.len() == n * j + i,
                    forall|p: int|
                        0 <= p < r@.len() ==> (#[trigger] r@[p]) == self.h@[p / (n as int)]@[p % (
                        n as int)],
                decreases n - i,
            {
                r.push(self.h[j][i]);
                proof {
                    assert((n * j + i) / (n as int) == j && (n * j + i) % (n as int) == i)
                        by (nonlinear_arith)
                        requires
                            0 <= i < n,
                            0 <= j,
                    ;
                }
                i = i + 1;
            }
            proof {
                assert(n * j + n == n * (j + 1)) by (nonlinear_arith);
            }
            j = j + 1;
        }
        proof {
            assert(n * m == m * n) by (nonlinear_arith);
        }
        r
    }
}

} // verus!
