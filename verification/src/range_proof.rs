//! Aggregated range proofs: the prover and the verifier.
//!
//! A proof shows that each of `m` committed values lies in `[0, 2^n)`.
//! The prover bit-decomposes the values, commits to the bit vectors and
//! to random blinding vectors, derives the challenges `y`, `z`, `x` in
//! strict transcript order, evaluates the two degree-one vector
//! polynomials, and compresses the result with the inner-product
//! argument.  The verifier replays the same transcript and checks one
//! aggregated multiscalar identity.

use vstd::prelude::*;

verus! {

use curve25519_dalek::ristretto::RistrettoPoint;
use curve25519_dalek::scalar::Scalar;
use merlin::Transcript;
use crate::backend::canonical_scalar_of;
use crate::backend::challenge_of;
use crate::backend::compress_of;
use crate::backend::decompress_of;
use crate::backend::diff_of;
use crate::backend::inv_of;
use crate::backend::is_canonical_scalar;
use crate::backend::is_point_encoding;
use crate::backend::msm_of;
use crate::backend::neg_of;
use crate::backend::prod_of;
use crate::backend::scalar_of_u64;
use crate::backend::sum_of;
use crate::backend::transcript_state;
use crate::backend::u64_le_bytes;
use crate::backend::msm;
use crate::backend::point_compress;
use crate::backend::point_decompress;
use crate::backend::point_mul;
use crate::backend::rng_new;
use crate::backend::scalar_add;
use crate::backend::scalar_from_canonical;
use crate::backend::scalar_from_u64;
use crate::backend::scalar_invert;
use crate::backend::scalar_mul;
use crate::backend::scalar_neg;
use crate::backend::scalar_random;
use crate::backend::scalar_sub;
use crate::backend::scalar_to_bytes;
use crate::errors::ProofError;
use crate::errors::VerifyError;
use crate::generators::BulletproofGens;
use crate::generators::PedersenGens;
use crate::inner_product::InnerProductProof;
use crate::inner_product::round_u_inv_sq;
use crate::inner_product::round_u_sq;
use crate::inner_product::s_fold;
use crate::scalars::inner_product;
use crate::scalars::pow_scalar;
use crate::scalars::sum_spec;
use crate::scalars::random_scalars;
use crate::scalars::scalar_powers;
use crate::scalars::sum_scalars;
use crate::transcript::append_point;
use crate::transcript::append_scalar_bytes;
use crate::transcript::challenge_scalar;
use crate::transcript::challenge_scalar_of;
use crate::transcript::range_proof_domain_sep;
use crate::transcript::TranscriptLog;
use crate::util::all_zero;
use crate::util::append_vec;
use crate::util::bits_of;
use crate::util::is_pow2;
use crate::util::is_pow2_exec;
use crate::util::is_zero_bytes;
use crate::util::lemma_is_pow2_mul;
use crate::util::lemma_small_pow2;
use crate::util::lg;
use crate::util::subvec;

/// The bit lengths the protocol supports.
pub open spec fn valid_bitsize(n: usize) -> bool {
    n == 8 || n == 16 || n == 32 || n == 64
}

/// The compressed Pedersen commitment of a value under a blinding:
/// `value * b + blinding * b_blinding`, over the named curve operations.
pub open spec fn pedersen_bytes(pc: PedersenGens, v: u64, blinding: Scalar) -> Seq<u8> {
    compress_of(msm_of(seq![scalar_of_u64(v), blinding], seq![pc.b, pc.b_blinding]))
}

/// The byte views of a list of commitments.
pub open spec fn commitment_views(cs: Seq<Commitment>) -> Seq<Seq<u8>> {
    cs.map_values(|cm: Commitment| cm.bytes@)
}

/// The `V` records the verifier absorbs, one per commitment, in order.
pub open spec fn v_records(cv: Seq<Seq<u8>>, i: int) -> TranscriptLog
    decreases i,
{
    if i <= 0 {
        Seq::empty()
    } else {
        v_records(cv, i - 1).push((false, "V"@, cv[i - 1]))
    }
}

/// The lane weight `z^(p / n) * 2^(p % n)`: the aggregation weight of
/// the party owning lane `p` times the bit weight within its slice.
pub open spec fn zeta_at(z: Scalar, n: int, p: int) -> Scalar {
    prod_of(pow_scalar(z, p / n), pow_scalar(scalar_of_u64(2), p % n))
}

/// The offset `delta(y, z) = (z - z^2) * sum(y^i, i < n*m)
/// - z^3 * sum(2^i, i < n) * sum(z^j, j < m)`.
pub open spec fn delta_spec(n: int, m: int, y: Scalar, z: Scalar) -> Scalar {
    let zz = prod_of(z, z);
    diff_of(
        prod_of(
            diff_of(z, zz),
            sum_spec(Seq::new((n * m) as nat, |i: int| pow_scalar(y, i)), n * m),
        ),
        prod_of(
            prod_of(
                prod_of(z, zz),
                sum_spec(Seq::new(n as nat, |i: int| pow_scalar(scalar_of_u64(2), i)), n),
            ),
            sum_spec(Seq::new(m as nat, |i: int| pow_scalar(z, i)), m),
        ),
    )
}

/// Rewrites the verifier's assembly order of the aggregated vectors
/// (two single pushes between appends) into one plain concatenation.
proof fn lemma_tower<T>(
    s4: Seq<T>,
    a1: Seq<T>,
    a2: Seq<T>,
    b1: T,
    b2: T,
    g: Seq<T>,
    h: Seq<T>,
    v: Seq<T>,
)
    ensures
        ((((s4 + a1 + a2).push(b1).push(b2)) + g) + h) + v == s4 + a1 + a2 + seq![b1, b2] + g + h
            + v,
{
    assert(((((s4 + a1 + a2).push(b1).push(b2)) + g) + h) + v =~= s4 + a1 + a2 + seq![b1, b2] + g
        + h + v);
}

/// A Pedersen commitment to one secret value, in compressed form.
pub struct Commitment {
    /// The 32-byte canonical encoding of the commitment point.
    pub bytes: Vec<u8>,
}

/// Every commitment in the list is a well-formed point encoding.
pub open spec fn commitments_wf(cs: Seq<Commitment>) -> bool {
    forall|j: int|
        0 <= j < cs.len() ==> (#[trigger] cs[j]).bytes@.len() == 32 && is_point_encoding(
            cs[j].bytes@,
        )
}

/// A complete range proof, every component in its canonical byte
/// encoding; points are decompressed only when the proof is verified.
pub struct RangeProof {
    /// Commitment `A` to the bit vectors.
    pub a_bytes: Vec<u8>,
    /// Commitment `S` to the blinding vectors.
    pub s_bytes: Vec<u8>,
    /// Commitment `T_1` to the linear coefficient of `t(X)`.
    pub t1_bytes: Vec<u8>,
    /// Commitment `T_2` to the quadratic coefficient of `t(X)`.
    pub t2_bytes: Vec<u8>,
    /// Evaluation `t(x)`.
    pub t_x_bytes: Vec<u8>,
    /// Blinding factor for `t(x)`.
    pub t_x_blinding_bytes: Vec<u8>,
    /// Blinding factor for the synthetic commitment to `l(x)`, `r(x)`.
    pub e_blinding_bytes: Vec<u8>,
    /// The compressed inner-product argument.
    pub ipp: InnerProductProof,
}

impl RangeProof {
    /// Every field has the fixed width of the encoding.
    pub open spec fn wf_shape(&self) -> bool {
        &&& self.a_bytes@.len() == 32
        &&& self.s_bytes@.len() == 32
        &&& self.t1_bytes@.len() == 32
        &&& self.t2_bytes@.len() == 32
        &&& self.t_x_bytes@.len() == 32
        &&& self.t_x_blinding_bytes@.len() == 32
        &&& self.e_blinding_bytes@.len() == 32
        &&& self.ipp.wf_shape()
    }

    /// Every point field decompresses and every scalar field is
    /// canonical.
    pub open spec fn wf_codes(&self) -> bool {
        &&& is_point_encoding(self.a_bytes@)
        &&& is_point_encoding(self.s_bytes@)
        &&& is_point_encoding(self.t1_bytes@)
        &&& is_point_encoding(self.t2_bytes@)
        &&& is_canonical_scalar(self.t_x_bytes@)
        &&& is_canonical_scalar(self.t_x_blinding_bytes@)
        &&& is_canonical_scalar(self.e_blinding_bytes@)
        &&& self.ipp.wf_codes()
    }

    /// A proof that verifies against `m` commitments and bit length `n`
    /// must decompress everywhere, carry no identity protocol
    /// commitment, and have exactly `lg(n * m)` inner-product rounds.
    pub open spec fn verifiable_encoding(&self, cs: Seq<Commitment>, n: usize) -> bool {
        &&& self.wf_shape()
        &&& self.wf_codes()
        &&& !is_zero_bytes(self.a_bytes@)
        &&& !is_zero_bytes(self.s_bytes@)
        &&& !is_zero_bytes(self.t1_bytes@)
        &&& !is_zero_bytes(self.t2_bytes@)
        &&& commitments_wf(cs)
        &&& self.ipp.l_bytes@.len() == lg((n as nat) * cs.len())
    }

    /// The transcript log at which `y` is drawn: the entry log, the
    /// statement domain separator, the commitments, and `A`, `S`.
    pub open spec fn st_pre_y(&self, s0: TranscriptLog, cv: Seq<Seq<u8>>, n: usize)
        -> TranscriptLog {
        (s0.push((false, "rangeproof v1 n"@, u64_le_bytes(n as u64))).push(
            (false, "rangeproof v1 m"@, u64_le_bytes(cv.len() as u64)),
        ) + v_records(cv, cv.len() as int)).push((false, "A"@, self.a_bytes@)).push(
            (false, "S"@, self.s_bytes@),
        )
    }

    /// The log at which `z` is drawn.
    pub open spec fn st_pre_z(&self, s0: TranscriptLog, cv: Seq<Seq<u8>>, n: usize)
        -> TranscriptLog {
        let sy = self.st_pre_y(s0, cv, n);
        sy.push((true, "y"@, challenge_of(sy, "y"@)))
    }

    /// The log at which `x` is drawn, after `T_1` and `T_2`.
    pub open spec fn st_pre_x(&self, s0: TranscriptLog, cv: Seq<Seq<u8>>, n: usize)
        -> TranscriptLog {
        let sz = self.st_pre_z(s0, cv, n);
        sz.push((true, "z"@, challenge_of(sz, "z"@))).push((false, "T_1"@, self.t1_bytes@)).push(
            (false, "T_2"@, self.t2_bytes@),
        )
    }

    /// The log at which `w` is drawn, after the three proof scalars.
    pub open spec fn st_pre_w(&self, s0: TranscriptLog, cv: Seq<Seq<u8>>, n: usize)
        -> TranscriptLog {
        let sx = self.st_pre_x(s0, cv, n);
        sx.push((true, "x"@, challenge_of(sx, "x"@))).push((false, "t_x"@, self.t_x_bytes@)).push(
            (false, "t_x_blinding"@, self.t_x_blinding_bytes@),
        ).push((false, "e_blinding"@, self.e_blinding_bytes@))
    }

    /// The log on which the inner-product rounds run.
    pub open spec fn st_ipp(&self, s0: TranscriptLog, cv: Seq<Seq<u8>>, n: usize)
        -> TranscriptLog {
        let sw = self.st_pre_w(s0, cv, n);
        sw.push((true, "w"@, challenge_of(sw, "w"@))).push(
            (false, "ipp v1 n"@, u64_le_bytes(((n as nat) * cv.len()) as u64)),
        )
    }

    /// The recomputed challenge `y`.
    pub open spec fn challenge_y(&self, s0: TranscriptLog, cv: Seq<Seq<u8>>, n: usize)
        -> Scalar {
        challenge_scalar_of(self.st_pre_y(s0, cv, n), "y"@)
    }

    /// The recomputed challenge `z`.
    pub open spec fn challenge_z(&self, s0: TranscriptLog, cv: Seq<Seq<u8>>, n: usize)
        -> Scalar {
        challenge_scalar_of(self.st_pre_z(s0, cv, n), "z"@)
    }

    /// The recomputed challenge `x`.
    pub open spec fn challenge_x(&self, s0: TranscriptLog, cv: Seq<Seq<u8>>, n: usize)
        -> Scalar {
        challenge_scalar_of(self.st_pre_x(s0, cv, n), "x"@)
    }

    /// The recomputed challenge `w`.
    pub open spec fn challenge_w(&self, s0: TranscriptLog, cv: Seq<Seq<u8>>, n: usize)
        -> Scalar {
        challenge_scalar_of(self.st_pre_w(s0, cv, n), "w"@)
    }

    /// The aggregated identity the verifier checks, for blend factor
    /// `c`: one multiscalar combination of `A`, `S`, `T_1`, `T_2`, the
    /// inner-product rounds, the two bases, the generators and the
    /// commitments, with every challenge recomputed from the entry log
    /// `s0`, equals the identity point (whose encoding is all zero).
    /// An honest proof satisfies it for every `c`; the verifier draws
    /// `c` at random to blend its two checks.
    pub open spec fn accepts_with(
        &self,
        gens: BulletproofGens,
        pc: PedersenGens,
        s0: TranscriptLog,
        cs: Seq<Commitment>,
        n: usize,
        c: Scalar,
    ) -> bool {
        let cv = commitment_views(cs);
        let m = cv.len() as int;
        let nm = (n as int) * m;
        let rounds = lg((n as nat) * cv.len()) as int;
        let y = self.challenge_y(s0, cv, n);
        let z = self.challenge_z(s0, cv, n);
        let x = self.challenge_x(s0, cv, n);
        let w = self.challenge_w(s0, cv, n);
        let si = self.st_ipp(s0, cv, n);
        let lb = self.ipp.l_bytes@;
        let rb = self.ipp.r_bytes@;
        let a = canonical_scalar_of(self.ipp.a_bytes@);
        let b = canonical_scalar_of(self.ipp.b_bytes@);
        let t_x = canonical_scalar_of(self.t_x_bytes@);
        let t_x_blinding = canonical_scalar_of(self.t_x_blinding_bytes@);
        let e_blinding = canonical_scalar_of(self.e_blinding_bytes@);
        let zz = prod_of(z, z);
        let sv = s_fold(si, lb, rb, rounds, rounds);
        let scalars = seq![scalar_of_u64(1), x, prod_of(c, x), prod_of(c, prod_of(x, x))]
            + Seq::new(rounds as nat, |i: int| round_u_sq(si, lb, rb, i)) + Seq::new(
            rounds as nat,
            |i: int| round_u_inv_sq(si, lb, rb, i),
        ) + seq![
            neg_of(sum_of(e_blinding, prod_of(c, t_x_blinding))),
            sum_of(
                prod_of(w, diff_of(t_x, prod_of(a, b))),
                prod_of(c, diff_of(delta_spec(n as int, m, y, z), t_x)),
            ),
        ] + Seq::new(nm as nat, |p: int| diff_of(neg_of(z), prod_of(a, sv[p]))) + Seq::new(
            nm as nat,
            |p: int|
                sum_of(
                    z,
                    prod_of(
                        pow_scalar(inv_of(y), p),
                        diff_of(prod_of(zz, zeta_at(z, n as int, p)), prod_of(b, sv[nm - 1 - p])),
                    ),
                ),
        ) + Seq::new(cv.len(), |j: int| prod_of(prod_of(c, zz), pow_scalar(z, j)));
        let points = seq![
            decompress_of(self.a_bytes@),
            decompress_of(self.s_bytes@),
            decompress_of(self.t1_bytes@),
            decompress_of(self.t2_bytes@),
        ] + Seq::new(rounds as nat, |i: int| decompress_of(lb[i]@)) + Seq::new(
            rounds as nat,
            |i: int| decompress_of(rb[i]@),
        ) + seq![pc.b_blinding, pc.b] + Seq::new(
            nm as nat,
            |p: int| gens.g@[p / (n as int)]@[p % (n as int)],
        ) + Seq::new(nm as nat, |p: int| gens.h@[p / (n as int)]@[p % (n as int)]) + Seq::new(
            cv.len(),
            |j: int| decompress_of(cv[j]),
        );
        is_zero_bytes(compress_of(msm_of(scalars, points)))
    }

    /// Proves that each of the `m` values lies in `[0, 2^n)`, with the
    /// given blinding factors, and returns the proof together with the
    /// value commitments.
    ///
    /// Succeeds exactly when the configuration is valid: `n` a
    /// supported bit length, the value count a nonzero power of two
    /// matching the blinding count, and the generator set large enough.
    /// Values outside `[0, 2^n)` are not detected here: the proof is
    /// still produced, and verification rejects it.
    pub fn prove_multiple(
        gens: &BulletproofGens,
        pc: &PedersenGens,
        t: &mut Transcript,
        values: &Vec<u64>,
        blindings: &Vec<Scalar>,
        n: usize,
    ) -> (res: Result<(RangeProof, Vec<Commitment>), ProofError>)
        requires
            gens.wf(),
        ensures
            res is Ok <==> (valid_bitsize(n) && is_pow2(values@.len() as nat) && blindings@.len()
                == values@.len() && n <= gens.gens_capacity && values@.len()
                <= gens.party_capacity),
            !valid_bitsize(n) ==> res == Err::<(RangeProof, Vec<Commitment>), ProofError>(
                ProofError::InvalidBitsize,
            ),
            valid_bitsize(n) && !(is_pow2(values@.len() as nat) && blindings@.len()
                == values@.len()) ==> res == Err::<(RangeProof, Vec<Commitment>), ProofError>(
                ProofError::InvalidAggregation,
            ),
            valid_bitsize(n) && is_pow2(values@.len() as nat) && blindings@.len() == values@.len()
                && !(n <= gens.gens_capacity && values@.len() <= gens.party_capacity) ==> res
                == Err::<(RangeProof, Vec<Commitment>), ProofError>(
                ProofError::GeneratorCapacityExceeded,
            ),
            res matches Ok(pair) ==> {
                &&& pair.0.wf_shape()
                &&& pair.0.wf_codes()
                &&& pair.0.ipp.l_bytes@.len() == lg((n as nat) * values@.len())
                &&& pair.1@.len() == values@.len()
                &&& commitments_wf(pair.1@)
                &&& forall|j: int|
                    0 <= j < values@.len() ==> (#[trigger] pair.1@[j]).bytes@ == pedersen_bytes(
                        *pc,
                        values@[j],
                        blindings@[j],
                    )
            },
            res is Err ==> transcript_state(*final(t)) == transcript_state(*old(t)),
    {
        let m = values.len();
        if !(n == 8 || n == 16 || n == 32 || n == 64) {
            return Err(ProofError::InvalidBitsize);
        }
        if m == 0 || !is_pow2_exec(m) || blindings.len() != m {
            return Err(ProofError::InvalidAggregation);
        }
        if n > gens.gens_capacity || m > gens.party_capacity {
            return Err(ProofError::GeneratorCapacityExceeded);
        }
        proof {
            assert(n * m <= gens.gens_capacity * gens.party_capacity) by (nonlinear_arith)
                requires
                    n <= gens.gens_capacity,
                    m <= gens.party_capacity,
            ;
            lemma_small_pow2();
            lemma_is_pow2_mul(n as nat, m as nat);
        }
        let nm = n * m;
        range_proof_domain_sep(t, n as u64, m as u64);
        let mut rng = rng_new();

        // Value commitments, absorbed in order.
        let mut commitments: Vec<Commitment> = Vec::new();
        let mut j: usize = 0;
        while j < m
            invariant
                j <= m == values@.len() == blindings@.len(),
                commitments@.len() == j,
                commitments_wf(commitments@),
                forall|jj: int|
                    0 <= jj < j ==> (#[trigger] commitments@[jj]).bytes@ == pedersen_bytes(
                        *pc,
                        values@[jj],
                        blindings@[jj],
                    ),
            decreases m - j,
        {
            let v_scalar = scalar_from_u64(values[j]);
            let v_point = pc.commit(&v_scalar, &blindings[j]);
            let v_enc = point_compress(&v_point);
            append_point(t, "V", &v_enc);
            commitments.push(Commitment { bytes: v_enc });
            proof {
                assert(commitments@[j as int].bytes@ == pedersen_bytes(
                    *pc,
                    values@[j as int],
                    blindings@[j as int],
                ));
            }
            j = j + 1;
        }

        // Concatenated bit decomposition of all values.
        let mut bits: Vec<bool> = Vec::new();
        let mut j2: usize = 0;
        while j2 < m
            invariant
                j2 <= m == values@.len(),
                n <= 64,
                bits@.len() == n * j2,
            decreases m - j2,
        {
            let bj = bits_of(values[j2], n);
            append_vec(&mut bits, &bj);
            proof {
                assert(n * j2 + n == n * (j2 + 1)) by (nonlinear_arith);
            }
            j2 = j2 + 1;
        }
        proof {
            assert(n * m == m * n) by (nonlinear_arith);
        }

        let g_flat = gens.g_flat(n, m);
        let h_flat = gens.h_flat(n, m);
        let one = scalar_from_u64(1);
        let zero = scalar_from_u64(0);
        let minus_one = scalar_neg(&one);

        // A commits to the bit vectors `a_L` and `a_R = a_L - 1`.
        let a_blinding = scalar_random(&mut rng);
        let mut a_scalars: Vec<Scalar> = Vec::new();
        let mut a_points: Vec<RistrettoPoint> = Vec::new();
        a_scalars.push(a_blinding);
        a_points.push(pc.b_blinding);
        let mut p: usize = 0;
        while p < nm
            invariant
                p <= nm,
                bits@.len() == nm,
                g_flat@.len() == nm,
                h_flat@.len() == nm,
                a_scalars@.len() == 1 + p,
                a_points@.len() == 1 + p,
            decreases nm - p,
        {
            if bits[p] {
                a_scalars.push(one);
                a_points.push(g_flat[p]);
            } else {
                a_scalars.push(minus_one);
                a_points.push(h_flat[p]);
            }
            p = p + 1;
        }
        let a_point = msm(&a_scalars, &a_points);

        // S commits to the random blinding vectors `s_L`, `s_R`.
        let s_blinding = scalar_random(&mut rng);
        let s_l = random_scalars(&mut rng, nm);
        let s_r = random_scalars(&mut rng, nm);
        let mut s_scalars: Vec<Scalar> = Vec::new();
        let mut s_points: Vec<RistrettoPoint> = Vec::new();
        s_scalars.push(s_blinding);
        s_points.push(pc.b_blinding);
        append_vec(&mut s_scalars, &s_l);
        append_vec(&mut s_scalars, &s_r);
        append_vec(&mut s_points, &g_flat);
        append_vec(&mut s_points, &h_flat);
        let s_point = msm(&s_scalars, &s_points);

        let a_bytes = point_compress(&a_point);
        let s_bytes = point_compress(&s_point);
        append_point(t, "A", &a_bytes);
        append_point(t, "S", &s_bytes);
        let y = challenge_scalar(t, "y");
        let z = challenge_scalar(t, "z");
        let zz = scalar_mul(&z, &z);
        let y_pows = scalar_powers(&y, nm);
        let z_pows = scalar_powers(&z, m);
        let two = scalar_from_u64(2);
        let two_pows = scalar_powers(&two, n);

        // z_and_2[j*n + i] = z^j * 2^i.
        let mut z_and_2: Vec<Scalar> = Vec::new();
        let mut j3: usize = 0;
        while j3 < m
            invariant
                j3 <= m,
                z_pows@.len() == m,
                two_pows@.len() == n,
                z_and_2@.len() == n * j3,
            decreases m - j3,
        {
            let mut i: usize = 0;
            while i < n
                invariant
                    i <= n,
                    j3 < m,
                    z_pows@.len() == m,
                    two_pows@.len() == n,
                    z_and_2@.len() == n * j3 + i,
                decreases n - i,
            {
                z_and_2.push(scalar_mul(&z_pows[j3], &two_pows[i]));
                i = i + 1;
            }
            proof {
                assert(n * j3 + n == n * (j3 + 1)) by (nonlinear_arith);
            }
            j3 = j3 + 1;
        }
        proof {
            assert(n * m == m * n) by (nonlinear_arith);
        }

        // Constant and linear coefficients of l(X) and r(X).
        let mut l0: Vec<Scalar> = Vec::new();
        let mut r0: Vec<Scalar> = Vec::new();
        let mut r1: Vec<Scalar> = Vec::new();
        let mut p2: usize = 0;
        while p2 < nm
            invariant
                p2 <= nm,
                bits@.len() == nm,
                y_pows@.len() == nm,
                z_and_2@.len() == nm,
                s_r@.len() == nm,
                l0@.len() == p2,
                r0@.len() == p2,
                r1@.len() == p2,
            decreases nm - p2,
        {
            let bit_scalar = if bits[p2] {
                one
            } else {
                zero
            };
            l0.push(scalar_sub(&bit_scalar, &z));
            let ar_plus_z = if bits[p2] {
                z
            } else {
                scalar_sub(&z, &one)
            };
            let weighted = scalar_mul(&y_pows[p2], &ar_plus_z);
            let zeta = scalar_mul(&zz, &z_and_2[p2]);
            r0.push(scalar_add(&weighted, &zeta));
            r1.push(scalar_mul(&y_pows[p2], &s_r[p2]));
            p2 = p2 + 1;
        }

        // t(X) = <l(X), r(X)> = t0 + t1 X + t2 X^2.
        let t0 = inner_product(&l0, &r0);
        let t1_lin = inner_product(&l0, &r1);
        let t1_lin2 = inner_product(&s_l, &r0);
        let t1 = scalar_add(&t1_lin, &t1_lin2);
        let t2 = inner_product(&s_l, &r1);
        let t1_blinding = scalar_random(&mut rng);
        let t2_blinding = scalar_random(&mut rng);
        let t1_point = pc.commit(&t1, &t1_blinding);
        let t2_point = pc.commit(&t2, &t2_blinding);
        let t1_bytes = point_compress(&t1_point);
        let t2_bytes = point_compress(&t2_point);
        append_point(t, "T_1", &t1_bytes);
        append_point(t, "T_2", &t2_bytes);
        let x = challenge_scalar(t, "x");
        let xx = scalar_mul(&x, &x);

        // Evaluations and blinding aggregates at x.
        let t1_x = scalar_mul(&t1, &x);
        let t2_xx = scalar_mul(&t2, &xx);
        let t_x = scalar_add(&t0, &scalar_add(&t1_x, &t2_xx));
        let mut gamma_acc = zero;
        let mut j4: usize = 0;
        while j4 < m
            invariant
                j4 <= m == blindings@.len(),
                z_pows@.len() == m,
            decreases m - j4,
        {
            let zj = scalar_mul(&zz, &z_pows[j4]);
            let term = scalar_mul(&zj, &blindings[j4]);
            gamma_acc = scalar_add(&gamma_acc, &term);
            j4 = j4 + 1;
        }
        let t1b_x = scalar_mul(&t1_blinding, &x);
        let t2b_xx = scalar_mul(&t2_blinding, &xx);
        let t_x_blinding = scalar_add(&gamma_acc, &scalar_add(&t1b_x, &t2b_xx));
        let e_blinding = scalar_add(&a_blinding, &scalar_mul(&x, &s_blinding));

        // l = l(x), r = r(x).
        let mut l_vec: Vec<Scalar> = Vec::new();
        let mut r_vec: Vec<Scalar> = Vec::new();
        let mut p3: usize = 0;
        while p3 < nm
            invariant
                p3 <= nm,
                l0@.len() == nm,
                r0@.len() == nm,
                r1@.len() == nm,
                s_l@.len() == nm,
                l_vec@.len() == p3,
                r_vec@.len() == p3,
            decreases nm - p3,
        {
            l_vec.push(scalar_add(&l0[p3], &scalar_mul(&x, &s_l[p3])));
            r_vec.push(scalar_add(&r0[p3], &scalar_mul(&x, &r1[p3])));
            p3 = p3 + 1;
        }

        let t_x_bytes = scalar_to_bytes(&t_x);
        let t_x_blinding_bytes = scalar_to_bytes(&t_x_blinding);
        let e_blinding_bytes = scalar_to_bytes(&e_blinding);
        append_scalar_bytes(t, "t_x", &t_x_bytes);
        append_scalar_bytes(t, "t_x_blinding", &t_x_blinding_bytes);
        append_scalar_bytes(t, "e_blinding", &e_blinding_bytes);
        let w = challenge_scalar(t, "w");
        let q = point_mul(&w, &pc.b);

        // The H generators scaled by inverse powers of y.
        let y_inv = scalar_invert(&y);
        let y_inv_pows = scalar_powers(&y_inv, nm);
        let mut h_prime: Vec<RistrettoPoint> = Vec::new();
        let mut p4: usize = 0;
        while p4 < nm
            invariant
                p4 <= nm,
                y_inv_pows@.len() == nm,
                h_flat@.len() == nm,
                h_prime@.len() == p4,
            decreases nm - p4,
        {
            h_prime.push(point_mul(&y_inv_pows[p4], &h_flat[p4]));
            p4 = p4 + 1;
        }

        let ipp = InnerProductProof::create(t, &q, g_flat, h_prime, l_vec, r_vec);
        let proof = RangeProof {
            a_bytes,
            s_bytes,
            t1_bytes,
            t2_bytes,
            t_x_bytes,
            t_x_blinding_bytes,
            e_blinding_bytes,
            ipp,
        };
        Ok((proof, commitments))
    }

    /// Verifies the proof against `m` value commitments and bit length
    /// `n`, replaying the transcript to recompute every challenge and
    /// checking one aggregated multiscalar identity.
    ///
    /// Configuration and encoding faults are reported exactly as
    /// stated; when the statement is well formed, the outcome is `Ok`
    /// or `ProofMismatch` according to the aggregated identity.
    #[verifier::loop_isolation(false)]
    #[verifier::rlimit(100)]
    pub fn verify_multiple(
        &self,
        gens: &BulletproofGens,
        pc: &PedersenGens,
        t: &mut Transcript,
        commitments: &Vec<Commitment>,
        n: usize,
    ) -> (res: Result<(), VerifyError>)
        requires
            gens.wf(),
        ensures
            !valid_bitsize(n) ==> res == Err::<(), VerifyError>(VerifyError::InvalidBitsize),
            valid_bitsize(n) && !is_pow2(commitments@.len() as nat) ==> res == Err::<
                (),
                VerifyError,
            >(VerifyError::InvalidAggregation),
            valid_bitsize(n) && is_pow2(commitments@.len() as nat) && !(n <= gens.gens_capacity
                && commitments@.len() <= gens.party_capacity) ==> res == Err::<(), VerifyError>(
                VerifyError::GeneratorCapacityExceeded,
            ),
            valid_bitsize(n) && is_pow2(commitments@.len() as nat) && n <= gens.gens_capacity
                && commitments@.len() <= gens.party_capacity && !self.verifiable_encoding(
                commitments@,
                n,
            ) ==> res == Err::<(), VerifyError>(VerifyError::InvalidEncoding),
            (valid_bitsize(n) && is_pow2(commitments@.len() as nat) && n <= gens.gens_capacity
                && commitments@.len() <= gens.party_capacity && self.verifiable_encoding(
                commitments@,
                n,
            )) <==> (res is Ok || res == Err::<(), VerifyError>(VerifyError::ProofMismatch)),
            res is Err && res != Err::<(), VerifyError>(VerifyError::ProofMismatch)
                ==> transcript_state(*final(t)) == transcript_state(*old(t)),
            res is Ok ==> exists|cc: Scalar|
                self.accepts_with(*gens, *pc, transcript_state(*old(t)), commitments@, n, cc),
            res == Err::<(), VerifyError>(VerifyError::ProofMismatch) ==> exists|cc: Scalar|
                !self.accepts_with(*gens, *pc, transcript_state(*old(t)), commitments@, n, cc),
            (valid_bitsize(n) && is_pow2(commitments@.len() as nat) && n <= gens.gens_capacity
                && commitments@.len() <= gens.party_capacity && self.verifiable_encoding(
                commitments@,
                n,
            ) && (forall|cc: Scalar|
                self.accepts_with(
                    *gens,
                    *pc,
                    transcript_state(*old(t)),
                    commitments@,
                    n,
                    cc,
                ))) ==> res is Ok,
    {
        let ghost s0 = transcript_state(*t);
        let m = commitments.len();
        if !(n == 8 || n == 16 || n == 32 || n == 64) {
            return Err(VerifyError::InvalidBitsize);
        }
        if m == 0 || !is_pow2_exec(m) {
            return Err(VerifyError::InvalidAggregation);
        }
        if n > gens.gens_capacity || m > gens.party_capacity {
            return Err(VerifyError::GeneratorCapacityExceeded);
        }
        proof {
            assert(n * m <= gens.gens_capacity * gens.party_capacity) by (nonlinear_arith)
                requires
                    n <= gens.gens_capacity,
                    m <= gens.party_capacity,
            ;
            lemma_small_pow2();
            lemma_is_pow2_mul(n as nat, m as nat);
        }
        let nm = n * m;

        // Shape of every byte field.
        if self.a_bytes.len() != 32 || self.s_bytes.len() != 32 || self.t1_bytes.len() != 32
            || self.t2_bytes.len() != 32 || self.t_x_bytes.len() != 32
            || self.t_x_blinding_bytes.len() != 32 || self.e_blinding_bytes.len() != 32 {
            return Err(VerifyError::InvalidEncoding);
        }
        if self.ipp.a_bytes.len() != 32 || self.ipp.b_bytes.len() != 32 {
            return Err(VerifyError::InvalidEncoding);
        }
        if self.ipp.l_bytes.len() != self.ipp.r_bytes.len() {
            return Err(VerifyError::InvalidEncoding);
        }
        let rounds = self.ipp.l_bytes.len();
        let mut i0: usize = 0;
        while i0 < rounds
            invariant
                i0 <= rounds,
                self.ipp.l_bytes@.len() == rounds,
                self.ipp.r_bytes@.len() == rounds,
                forall|j: int| 0 <= j < i0 ==> (#[trigger] self.ipp.l_bytes@[j])@.len() == 32,
                forall|j: int| 0 <= j < i0 ==> (#[trigger] self.ipp.r_bytes@[j])@.len() == 32,
            decreases rounds - i0,
        {
            if self.ipp.l_bytes[i0].len() != 32 || self.ipp.r_bytes[i0].len() != 32 {
                return Err(VerifyError::InvalidEncoding);
            }
            i0 = i0 + 1;
        }
        let lgk = crate::util::floor_lg(nm);
        if rounds != lgk {
            return Err(VerifyError::InvalidEncoding);
        }

        // Identity protocol commitments are refused.
        if all_zero(&self.a_bytes) || all_zero(&self.s_bytes) || all_zero(&self.t1_bytes)
            || all_zero(&self.t2_bytes) {
            return Err(VerifyError::InvalidEncoding);
        }

        // Decompress everything and check scalar canonicity.
        let a_pt = match point_decompress(&self.a_bytes) {
            Some(p) => p,
            None => { return Err(VerifyError::InvalidEncoding) },
        };
        let s_pt = match point_decompress(&self.s_bytes) {
            Some(p) => p,
            None => { return Err(VerifyError::InvalidEncoding) },
        };
        let t1_pt = match point_decompress(&self.t1_bytes) {
            Some(p) => p,
            None => { return Err(VerifyError::InvalidEncoding) },
        };
        let t2_pt = match point_decompress(&self.t2_bytes) {
            Some(p) => p,
            None => { return Err(VerifyError::InvalidEncoding) },
        };
        let mut l_pts: Vec<RistrettoPoint> = Vec::new();
        let mut r_pts: Vec<RistrettoPoint> = Vec::new();
        let mut i1: usize = 0;
        while i1 < rounds
            invariant
                i1 <= rounds,
                self.ipp.l_bytes@.len() == rounds,
                self.ipp.r_bytes@.len() == rounds,
                l_pts@.len() == i1,
                r_pts@.len() == i1,
                forall|j: int| 0 <= j < i1 ==> is_point_encoding((#[trigger] self.ipp.l_bytes@[j])@),
                forall|j: int| 0 <= j < i1 ==> is_point_encoding((#[trigger] self.ipp.r_bytes@[j])@),
                forall|j: int|
                    0 <= j < i1 ==> (#[trigger] l_pts@[j]) == decompress_of(self.ipp.l_bytes@[j]@),
                forall|j: int|
                    0 <= j < i1 ==> (#[trigger] r_pts@[j]) == decompress_of(self.ipp.r_bytes@[j]@),
            decreases rounds - i1,
        {
            let lp = match point_decompress(&self.ipp.l_bytes[i1]) {
                Some(p) => p,
                None => { return Err(VerifyError::InvalidEncoding) },
            };
            let rp = match point_decompress(&self.ipp.r_bytes[i1]) {
                Some(p) => p,
                None => { return Err(VerifyError::InvalidEncoding) },
            };
            l_pts.push(lp);
            r_pts.push(rp);
            i1 = i1 + 1;
        }
        let mut v_pts: Vec<RistrettoPoint> = Vec::new();
        let mut j0: usize = 0;
        while j0 < m
            invariant
                j0 <= m == commitments@.len(),
                v_pts@.len() == j0,
                forall|j: int| 0 <= j < j0 ==> (#[trigger] commitments@[j]).bytes@.len() == 32,
                forall|j: int| 0 <= j < j0 ==> is_point_encoding((#[trigger] commitments@[j]).bytes@),
                forall|j: int|
                    0 <= j < j0 ==> (#[trigger] v_pts@[j]) == decompress_of(
                        commitments@[j].bytes@,
                    ),
            decreases m - j0,
        {
            if commitments[j0].bytes.len() != 32 {
                return Err(VerifyError::InvalidEncoding);
            }
            let vp = match point_decompress(&commitments[j0].bytes) {
                Some(p) => p,
                None => { return Err(VerifyError::InvalidEncoding) },
            };
            v_pts.push(vp);
            j0 = j0 + 1;
        }
        let t_x = match scalar_from_canonical(&self.t_x_bytes) {
            Some(s) => s,
            None => { return Err(VerifyError::InvalidEncoding) },
        };
        let t_x_blinding = match scalar_from_canonical(&self.t_x_blinding_bytes) {
            Some(s) => s,
            None => { return Err(VerifyError::InvalidEncoding) },
        };
        let e_blinding = match scalar_from_canonical(&self.e_blinding_bytes) {
            Some(s) => s,
            None => { return Err(VerifyError::InvalidEncoding) },
        };
        let ipp_a = match scalar_from_canonical(&self.ipp.a_bytes) {
            Some(s) => s,
            None => { return Err(VerifyError::InvalidEncoding) },
        };
        let ipp_b = match scalar_from_canonical(&self.ipp.b_bytes) {
            Some(s) => s,
            None => { return Err(VerifyError::InvalidEncoding) },
        };

        // Replay the transcript.
        range_proof_domain_sep(t, n as u64, m as u64);
        let ghost s1 = transcript_state(*t);
        let ghost cv = commitment_views(commitments@);
        proof {
            assert(s1 + v_records(cv, 0) =~= s1);
        }
        let mut j1: usize = 0;
        while j1 < m
            invariant
                j1 <= m == commitments@.len(),
                commitments_wf(commitments@),
                transcript_state(*t) == s1 + v_records(cv, j1 as int),
            decreases m - j1,
        {
            append_point(t, "V", &commitments[j1].bytes);
            proof {
                assert(transcript_state(*t) =~= s1 + v_records(cv, j1 + 1 as int));
            }
            j1 = j1 + 1;
        }
        append_point(t, "A", &self.a_bytes);
        append_point(t, "S", &self.s_bytes);
        proof {
            assert(transcript_state(*t) == self.st_pre_y(s0, cv, n));
        }
        let y = challenge_scalar(t, "y");
        let z = challenge_scalar(t, "z");
        append_point(t, "T_1", &self.t1_bytes);
        append_point(t, "T_2", &self.t2_bytes);
        let x = challenge_scalar(t, "x");
        append_scalar_bytes(t, "t_x", &self.t_x_bytes);
        append_scalar_bytes(t, "t_x_blinding", &self.t_x_blinding_bytes);
        append_scalar_bytes(t, "e_blinding", &self.e_blinding_bytes);
        let w = challenge_scalar(t, "w");
        proof {
            assert(y == self.challenge_y(s0, cv, n));
            assert(z == self.challenge_z(s0, cv, n));
            assert(x == self.challenge_x(s0, cv, n));
            assert(w == self.challenge_w(s0, cv, n));
        }
        let mut rng = rng_new();
        let c = scalar_random(&mut rng);
        let (u_sq, u_inv_sq, s_vec) = match self.ipp.verification_scalars(nm, t) {
            Ok(triple) => triple,
            Err(_) => { return Err(VerifyError::InvalidEncoding) },
        };
        proof {
            assert(nm as u64 == ((n as nat) * cv.len()) as u64);
            assert(u_sq@ == Seq::new(
                lg(nm as nat) as nat,
                |i: int|
                    round_u_sq(self.st_ipp(s0, cv, n), self.ipp.l_bytes@, self.ipp.r_bytes@, i),
            ));
        }

        // Verification scalars.
        let zz = scalar_mul(&z, &z);
        let minus_z = scalar_neg(&z);
        let xx = scalar_mul(&x, &x);
        let y_pows = scalar_powers(&y, nm);
        let y_inv = scalar_invert(&y);
        let y_inv_pows = scalar_powers(&y_inv, nm);
        let z_pows = scalar_powers(&z, m);
        let two = scalar_from_u64(2);
        let two_pows = scalar_powers(&two, n);
        let mut z_and_2: Vec<Scalar> = Vec::new();
        let mut j2: usize = 0;
        while j2 < m
            invariant
                j2 <= m,
                z_pows@.len() == m,
                two_pows@.len() == n,
                z_and_2@.len() == n * j2,
                forall|pp: int|
                    0 <= pp < z_and_2@.len() ==> (#[trigger] z_and_2@[pp]) == zeta_at(
                        z,
                        n as int,
                        pp,
                    ),
            decreases m - j2,
        {
            let mut i: usize = 0;
            while i < n
                invariant
                    i <= n,
                    j2 < m,
                    z_pows@.len() == m,
                    two_pows@.len() == n,
                    z_and_2@.len() == n * j2 + i,
                    forall|pp: int|
                        0 <= pp < z_and_2@.len() ==> (#[trigger] z_and_2@[pp]) == zeta_at(
                            z,
                            n as int,
                            pp,
                        ),
                decreases n - i,
            {
                z_and_2.push(scalar_mul(&z_pows[j2], &two_pows[i]));
                proof {
                    assert((n * j2 + i) / (n as int) == j2 && (n * j2 + i) % (n as int) == i)
                        by (nonlinear_arith)
                        requires
                            0 <= i < n,
                            0 <= j2,
                    ;
                }
                i = i + 1;
            }
            proof {
                assert(n * j2 + n == n * (j2 + 1)) by (nonlinear_arith);
            }
            j2 = j2 + 1;
        }
        proof {
            assert(n * m == m * n) by (nonlinear_arith);
        }
        let sum_y = sum_scalars(&y_pows);
        let sum_2 = sum_scalars(&two_pows);
        let sum_z = sum_scalars(&z_pows);
        let z_minus_zz = scalar_sub(&z, &zz);
        let lead = scalar_mul(&z_minus_zz, &sum_y);
        let z3 = scalar_mul(&z, &zz);
        let tail = scalar_mul(&scalar_mul(&z3, &sum_2), &sum_z);
        let delta = scalar_sub(&lead, &tail);
        proof {
            assert(y_pows@ =~= Seq::new(nm as nat, |i: int| pow_scalar(y, i)));
            assert(two_pows@ =~= Seq::new(n as nat, |i: int| pow_scalar(scalar_of_u64(2), i)));
            assert(z_pows@ =~= Seq::new(m as nat, |i: int| pow_scalar(z, i)));
            assert(delta == delta_spec(n as int, m as int, y, z));
        }

        let mut g_scalars: Vec<Scalar> = Vec::new();
        let mut h_scalars: Vec<Scalar> = Vec::new();
        let mut p: usize = 0;
        while p < nm
            invariant
                p <= nm,
                s_vec@.len() == nm,
                y_inv_pows@.len() == nm,
                z_and_2@.len() == nm,
                g_scalars@.len() == p,
                h_scalars@.len() == p,
                forall|pp: int|
                    0 <= pp < p ==> (#[trigger] g_scalars@[pp]) == diff_of(
                        neg_of(z),
                        prod_of(ipp_a, s_vec@[pp]),
                    ),
                forall|pp: int|
                    0 <= pp < p ==> (#[trigger] h_scalars@[pp]) == sum_of(
                        z,
                        prod_of(
                            pow_scalar(inv_of(y), pp),
                            diff_of(
                                prod_of(zz, zeta_at(z, n as int, pp)),
                                prod_of(ipp_b, s_vec@[nm - 1 - pp]),
                            ),
                        ),
                    ),
            decreases nm - p,
        {
            g_scalars.push(scalar_sub(&minus_z, &scalar_mul(&ipp_a, &s_vec[p])));
            let s_inv = s_vec[nm - 1 - p];
            let inner = scalar_sub(&scalar_mul(&zz, &z_and_2[p]), &scalar_mul(&ipp_b, &s_inv));
            h_scalars.push(scalar_add(&z, &scalar_mul(&y_inv_pows[p], &inner)));
            p = p + 1;
        }
        let mut v_scalars: Vec<Scalar> = Vec::new();
        let c_zz = scalar_mul(&c, &zz);
        let mut j3: usize = 0;
        while j3 < m
            invariant
                j3 <= m,
                z_pows@.len() == m,
                v_scalars@.len() == j3,
                forall|jj: int|
                    0 <= jj < j3 ==> (#[trigger] v_scalars@[jj]) == prod_of(
                        prod_of(c, zz),
                        pow_scalar(z, jj),
                    ),
            decreases m - j3,
        {
            v_scalars.push(scalar_mul(&c_zz, &z_pows[j3]));
            j3 = j3 + 1;
        }
        let t_minus_ab = scalar_sub(&t_x, &scalar_mul(&ipp_a, &ipp_b));
        let basepoint_scalar = scalar_add(
            &scalar_mul(&w, &t_minus_ab),
            &scalar_mul(&c, &scalar_sub(&delta, &t_x)),
        );
        let b_blinding_scalar = scalar_neg(
            &scalar_add(&e_blinding, &scalar_mul(&c, &t_x_blinding)),
        );

        // One aggregated multiscalar check.
        let one = scalar_from_u64(1);
        let mut mega_scalars: Vec<Scalar> = Vec::new();
        mega_scalars.push(one);
        mega_scalars.push(x);
        mega_scalars.push(scalar_mul(&c, &x));
        mega_scalars.push(scalar_mul(&c, &xx));
        append_vec(&mut mega_scalars, &u_sq);
        append_vec(&mut mega_scalars, &u_inv_sq);
        mega_scalars.push(b_blinding_scalar);
        mega_scalars.push(basepoint_scalar);
        append_vec(&mut mega_scalars, &g_scalars);
        append_vec(&mut mega_scalars, &h_scalars);
        append_vec(&mut mega_scalars, &v_scalars);
        let g_flat = gens.g_flat(n, m);
        let h_flat = gens.h_flat(n, m);
        let mut mega_points: Vec<RistrettoPoint> = Vec::new();
        mega_points.push(a_pt);
        mega_points.push(s_pt);
        mega_points.push(t1_pt);
        mega_points.push(t2_pt);
        append_vec(&mut mega_points, &l_pts);
        append_vec(&mut mega_points, &r_pts);
        mega_points.push(pc.b_blinding);
        mega_points.push(pc.b);
        append_vec(&mut mega_points, &g_flat);
        append_vec(&mut mega_points, &h_flat);
        append_vec(&mut mega_points, &v_pts);
        let mega = msm(&mega_scalars, &mega_points);
        let mega_enc = point_compress(&mega);
        proof {
            let si = self.st_ipp(s0, cv, n);
            let lb = self.ipp.l_bytes@;
            let rb = self.ipp.r_bytes@;
            let rds = lg((n as nat) * cv.len()) as int;
            let sv = s_fold(si, lb, rb, rds, rds);
            let av = canonical_scalar_of(self.ipp.a_bytes@);
            let bv = canonical_scalar_of(self.ipp.b_bytes@);
            let txv = canonical_scalar_of(self.t_x_bytes@);
            let txbv = canonical_scalar_of(self.t_x_blinding_bytes@);
            let ebv = canonical_scalar_of(self.e_blinding_bytes@);
            assert(s_vec@ == sv);
            assert(g_scalars@ =~= Seq::new(
                nm as nat,
                |p: int| diff_of(neg_of(z), prod_of(av, sv[p])),
            ));
            assert(h_scalars@ =~= Seq::new(
                nm as nat,
                |p: int|
                    sum_of(
                        z,
                        prod_of(
                            pow_scalar(inv_of(y), p),
                            diff_of(
                                prod_of(zz, zeta_at(z, n as int, p)),
                                prod_of(bv, sv[nm - 1 - p]),
                            ),
                        ),
                    ),
            ));
            assert(v_scalars@ =~= Seq::new(cv.len(), |j: int| prod_of(prod_of(c, zz), pow_scalar(z, j))));
            lemma_tower(
                seq![scalar_of_u64(1), x, prod_of(c, x), prod_of(c, prod_of(x, x))],
                u_sq@,
                u_inv_sq@,
                b_blinding_scalar,
                basepoint_scalar,
                g_scalars@,
                h_scalars@,
                v_scalars@,
            );
            assert(Seq::<Scalar>::empty().push(scalar_of_u64(1)).push(x).push(prod_of(c, x)).push(
                prod_of(c, prod_of(x, x)),
            ) =~= seq![scalar_of_u64(1), x, prod_of(c, x), prod_of(c, prod_of(x, x))]);
            assert(mega_scalars@ == seq![scalar_of_u64(1), x, prod_of(c, x), prod_of(c, prod_of(x, x))]
                + Seq::new(rds as nat, |i: int| round_u_sq(si, lb, rb, i)) + Seq::new(
                rds as nat,
                |i: int| round_u_inv_sq(si, lb, rb, i),
            ) + seq![
                neg_of(sum_of(ebv, prod_of(c, txbv))),
                sum_of(
                    prod_of(w, diff_of(txv, prod_of(av, bv))),
                    prod_of(c, diff_of(delta_spec(n as int, m as int, y, z), txv)),
                ),
            ] + Seq::new(nm as nat, |p: int| diff_of(neg_of(z), prod_of(av, sv[p]))) + Seq::new(
                nm as nat,
                |p: int|
                    sum_of(
                        z,
                        prod_of(
                            pow_scalar(inv_of(y), p),
                            diff_of(
                                prod_of(zz, zeta_at(z, n as int, p)),
                                prod_of(bv, sv[nm - 1 - p]),
                            ),
                        ),
                    ),
            ) + Seq::new(cv.len(), |j: int| prod_of(prod_of(c, zz), pow_scalar(z, j))));
            assert(l_pts@ =~= Seq::new(rds as nat, |i: int| decompress_of(lb[i]@)));
            assert(r_pts@ =~= Seq::new(rds as nat, |i: int| decompress_of(rb[i]@)));
            assert(g_flat@ =~= Seq::new(
                nm as nat,
                |p: int| gens.g@[p / (n as int)]@[p % (n as int)],
            ));
            assert(h_flat@ =~= Seq::new(
                nm as nat,
                |p: int| gens.h@[p / (n as int)]@[p % (n as int)],
            ));
            assert(v_pts@ =~= Seq::new(cv.len(), |j: int| decompress_of(cv[j])));
            lemma_tower(
                seq![
                    decompress_of(self.a_bytes@),
                    decompress_of(self.s_bytes@),
                    decompress_of(self.t1_bytes@),
                    decompress_of(self.t2_bytes@),
                ],
                l_pts@,
                r_pts@,
                pc.b_blinding,
                pc.b,
                g_flat@,
                h_flat@,
                v_pts@,
            );
            assert(Seq::<RistrettoPoint>::empty().push(decompress_of(self.a_bytes@)).push(
                decompress_of(self.s_bytes@),
            ).push(decompress_of(self.t1_bytes@)).push(decompress_of(self.t2_bytes@)) =~= seq![
                decompress_of(self.a_bytes@),
                decompress_of(self.s_bytes@),
                decompress_of(self.t1_bytes@),
                decompress_of(self.t2_bytes@),
            ]);
            assert(mega_points@ == seq![
                decompress_of(self.a_bytes@),
                decompress_of(self.s_bytes@),
                decompress_of(self.t1_bytes@),
                decompress_of(self.t2_bytes@),
            ] + Seq::new(rds as nat, |i: int| decompress_of(lb[i]@)) + Seq::new(
                rds as nat,
                |i: int| decompress_of(rb[i]@),
            ) + seq![pc.b_blinding, pc.b] + Seq::new(
                nm as nat,
                |p: int| gens.g@[p / (n as int)]@[p % (n as int)],
            ) + Seq::new(nm as nat, |p: int| gens.h@[p / (n as int)]@[p % (n as int)]) + Seq::new(
                cv.len(),
                |j: int| decompress_of(cv[j]),
            ));
            assert(self.accepts_with(*gens, *pc, s0, commitments@, n, c) == is_zero_bytes(
                mega_enc@,
            ));
        }
        if all_zero(&mega_enc) {
            proof {
                assert(self.accepts_with(*gens, *pc, s0, commitments@, n, c));
            }
            Ok(())
        } else {
            proof {
                assert(!self.accepts_with(*gens, *pc, s0, commitments@, n, c));
            }
            Err(VerifyError::ProofMismatch)
        }
    }

    /// Verifies a proof for a single commitment; the one-value case of
    /// `verify_multiple`.
    pub fn verify_single(
        &self,
        gens: &BulletproofGens,
        pc: &PedersenGens,
        t: &mut Transcript,
        commitment: &Commitment,
        n: usize,
    ) -> (res: Result<(), VerifyError>)
        requires
            gens.wf(),
        ensures
            !valid_bitsize(n) ==> res == Err::<(), VerifyError>(VerifyError::InvalidBitsize),
            valid_bitsize(n) && !(n <= gens.gens_capacity && 1 <= gens.party_capacity) ==> res
                == Err::<(), VerifyError>(VerifyError::GeneratorCapacityExceeded),
            (valid_bitsize(n) && n <= gens.gens_capacity && 1 <= gens.party_capacity
                && self.verifiable_encoding(seq![*commitment], n)) <==> (res is Ok || res
                == Err::<(), VerifyError>(VerifyError::ProofMismatch)),
            res is Err && res != Err::<(), VerifyError>(VerifyError::ProofMismatch)
                ==> transcript_state(*final(t)) == transcript_state(*old(t)),
            res is Ok ==> exists|cc: Scalar|
                self.accepts_with(*gens, *pc, transcript_state(*old(t)), seq![*commitment], n, cc),
            res == Err::<(), VerifyError>(VerifyError::ProofMismatch) ==> exists|cc: Scalar|
                !self.accepts_with(
                    *gens,
                    *pc,
                    transcript_state(*old(t)),
                    seq![*commitment],
                    n,
                    cc,
                ),
            (valid_bitsize(n) && n <= gens.gens_capacity && 1 <= gens.party_capacity
                && self.verifiable_encoding(seq![*commitment], n) && (forall|cc: Scalar|
                self.accepts_with(
                    *gens,
                    *pc,
                    transcript_state(*old(t)),
                    seq![*commitment],
                    n,
                    cc,
                ))) ==> res is Ok,
    {
        let ghost s0 = transcript_state(*t);
        let mut cs: Vec<Commitment> = Vec::new();
        let copy = Commitment { bytes: subvec(&commitment.bytes, 0, commitment.bytes.len()) };
        proof {
            assert(copy.bytes@ =~= commitment.bytes@);
            assert(is_pow2(1nat));
        }
        cs.push(copy);
        let res = self.verify_multiple(gens, pc, t, &cs, n);
        proof {
            assert(commitments_wf(cs@) == commitments_wf(seq![*commitment])) by {
                assert(cs@[0].bytes@ == seq![*commitment][0].bytes@);
                assert(cs@.len() == 1 && seq![*commitment].len() == 1);
            }
            assert(self.verifiable_encoding(cs@, n) == self.verifiable_encoding(
                seq![*commitment],
                n,
            ));
            assert(commitment_views(cs@) =~= commitment_views(seq![*commitment]));
            assert forall|cc: Scalar|
                self.accepts_with(*gens, *pc, s0, cs@, n, cc) == self.accepts_with(
                    *gens,
                    *pc,
                    s0,
                    seq![*commitment],
                    n,
                    cc,
                ) by {
                assert(commitment_views(cs@) == commitment_views(seq![*commitment]));
            }
        }
        res
    }

    /// Proves that a single value lies in `[0, 2^n)`; the one-value
    /// case of `prove_multiple`.
    pub fn prove_single(
        gens: &BulletproofGens,
        pc: &PedersenGens,
        t: &mut Transcript,
        value: u64,
        blinding: &Scalar,
        n: usize,
    ) -> (res: Result<(RangeProof, Commitment), ProofError>)
        requires
            gens.wf(),
        ensures
            res is Ok <==> (valid_bitsize(n) && n <= gens.gens_capacity && 1
                <= gens.party_capacity),
            !valid_bitsize(n) ==> res == Err::<(RangeProof, Commitment), ProofError>(
                ProofError::InvalidBitsize,
            ),
            valid_bitsize(n) && !(n <= gens.gens_capacity && 1 <= gens.party_capacity) ==> res
                == Err::<(RangeProof, Commitment), ProofError>(
                ProofError::GeneratorCapacityExceeded,
            ),
            res matches Ok(pair) ==> {
                &&& pair.0.wf_shape()
                &&& pair.0.wf_codes()
                &&& pair.0.ipp.l_bytes@.len() == lg(n as nat)
                &&& pair.1.bytes@.len() == 32
                &&& is_point_encoding(pair.1.bytes@)
                &&& pair.1.bytes@ == pedersen_bytes(*pc, value, *blinding)
            },
            res is Err ==> transcript_state(*final(t)) == transcript_state(*old(t)),
    {
        let mut values: Vec<u64> = Vec::new();
        values.push(value);
        let mut blindings: Vec<Scalar> = Vec::new();
        blindings.push(*blinding);
        proof {
            assert(is_pow2(1nat));
        }
        match Self::prove_multiple(gens, pc, t, &values, &blindings, n) {
            Ok((proof, mut commitments)) => {
                let c = match commitments.pop() {
                    Some(c) => c,
                    None => {
                        proof {
                            assert(false);
                        }
                        Commitment { bytes: Vec::new() }
                    },
                };
                proof {
                    assert((n as nat) * 1nat == n as nat) by (nonlinear_arith);
                }
                Ok((proof, c))
            },
            Err(e) => Err(e),
        }
    }
}

} // verus!
