//! The inner-product argument: a halving protocol that compresses a
//! claim about two length-`k` vectors into `lg(k)` pairs of group
//! elements plus two final scalars.

use vstd::prelude::*;

verus! {

use curve25519_dalek::ristretto::RistrettoPoint;
use curve25519_dalek::scalar::Scalar;
use merlin::Transcript;
use vstd::arithmetic::power2::pow2;
use vstd::arithmetic::power2::lemma_pow2_unfold;
use crate::backend::challenge_of;
use crate::backend::inv_of;
use crate::backend::is_canonical_scalar;
use crate::backend::is_point_encoding;
use crate::backend::msm;
use crate::backend::prod_of;
use crate::backend::scalar_of_u64;
use crate::backend::transcript_state;
use crate::backend::u64_le_bytes;
use crate::backend::point_compress;
use crate::backend::scalar_add;
use crate::backend::scalar_from_u64;
use crate::backend::scalar_invert;
use crate::backend::scalar_mul;
use crate::backend::scalar_to_bytes;
use crate::errors::VerifyError;
use crate::scalars::inner_product;
use crate::transcript::append_point;
use crate::transcript::challenge_scalar;
use crate::transcript::challenge_scalar_of;
use crate::transcript::inner_product_domain_sep;
use crate::transcript::TranscriptLog;
use crate::util::floor_lg;
use crate::util::is_pow2;
use crate::util::lemma_pow2_lg;
use crate::util::lg;
use crate::util::subvec;
use crate::util::append_vec;

/// The compressed rounds of the argument: one `(L, R)` pair of point
/// encodings per halving round, and the two terminal scalars.
pub struct InnerProductProof {
    /// Left cross-term commitment of each round, compressed.
    pub l_bytes: Vec<Vec<u8>>,
    /// Right cross-term commitment of each round, compressed.
    pub r_bytes: Vec<Vec<u8>>,
    /// Terminal scalar `a`, canonical encoding.
    pub a_bytes: Vec<u8>,
    /// Terminal scalar `b`, canonical encoding.
    pub b_bytes: Vec<u8>,
}

impl InnerProductProof {
    /// Every field has the fixed width of the encoding, and the two
    /// round vectors pair up.
    pub open spec fn wf_shape(&self) -> bool {
        &&& self.l_bytes@.len() == self.r_bytes@.len()
        &&& forall|i: int|
            0 <= i < self.l_bytes@.len() ==> (#[trigger] self.l_bytes@[i])@.len() == 32
        &&& forall|i: int|
            0 <= i < self.r_bytes@.len() ==> (#[trigger] self.r_bytes@[i])@.len() == 32
        &&& self.a_bytes@.len() == 32
        &&& self.b_bytes@.len() == 32
    }

    /// Every point field decompresses and every scalar field is
    /// canonical.
    pub open spec fn wf_codes(&self) -> bool {
        &&& forall|i: int|
            0 <= i < self.l_bytes@.len() ==> is_point_encoding((#[trigger] self.l_bytes@[i])@)
        &&& forall|i: int|
            0 <= i < self.r_bytes@.len() ==> is_point_encoding((#[trigger] self.r_bytes@[i])@)
        &&& is_canonical_scalar(self.a_bytes@)
        &&& is_canonical_scalar(self.b_bytes@)
    }
}

/// The transcript log after the argument's domain separator and `i`
/// completed rounds on entry log `s`: each round absorbs that round's
/// `L` and `R` encodings and draws the challenge `u`.
pub open spec fn rounds_state(
    s: TranscriptLog,
    l: Seq<Vec<u8>>,
    r: Seq<Vec<u8>>,
    i: int,
) -> TranscriptLog
    decreases i,
{
    if i <= 0 {
        s
    } else {
        let pre = rounds_state(s, l, r, i - 1).push((false, "L"@, l[i - 1]@)).push(
            (false, "R"@, r[i - 1]@),
        );
        pre.push((true, "u"@, challenge_of(pre, "u"@)))
    }
}

/// The challenge of round `i`, drawn after that round's `L` and `R`.
pub open spec fn round_u(s: TranscriptLog, l: Seq<Vec<u8>>, r: Seq<Vec<u8>>, i: int) -> Scalar {
    challenge_scalar_of(
        rounds_state(s, l, r, i).push((false, "L"@, l[i]@)).push((false, "R"@, r[i]@)),
        "u"@,
    )
}

/// The square of the round-`i` challenge.
pub open spec fn round_u_sq(s: TranscriptLog, l: Seq<Vec<u8>>, r: Seq<Vec<u8>>, i: int) -> Scalar {
    prod_of(round_u(s, l, r, i), round_u(s, l, r, i))
}

/// The square of the inverse of the round-`i` challenge.
pub open spec fn round_u_inv_sq(
    s: TranscriptLog,
    l: Seq<Vec<u8>>,
    r: Seq<Vec<u8>>,
    i: int,
) -> Scalar {
    prod_of(inv_of(round_u(s, l, r, i)), inv_of(round_u(s, l, r, i)))
}

/// The product of the inverses of the first `i` round challenges.
pub open spec fn allinv_fold(s: TranscriptLog, l: Seq<Vec<u8>>, r: Seq<Vec<u8>>, i: int) -> Scalar
    decreases i,
{
    if i <= 0 {
        scalar_of_u64(1)
    } else {
        prod_of(allinv_fold(s, l, r, i - 1), inv_of(round_u(s, l, r, i - 1)))
    }
}

/// The folding coefficient vector after `j` of `lgk` doubling steps:
/// it starts from the product of all inverse challenges and, at step
/// `j`, appends a copy of itself scaled by the square of challenge
/// `lgk - j`, so entry `i` ends up as the product of each challenge or
/// its inverse according to the bits of `i`.
pub open spec fn s_fold(
    s: TranscriptLog,
    l: Seq<Vec<u8>>,
    r: Seq<Vec<u8>>,
    lgk: int,
    j: int,
) -> Seq<Scalar>
    decreases j,
{
    if j <= 0 {
        seq![allinv_fold(s, l, r, lgk)]
    } else {
        let prev = s_fold(s, l, r, lgk, j - 1);
        prev + Seq::new(prev.len(), |v: int| prod_of(prev[v], round_u_sq(s, l, r, lgk - j)))
    }
}

/// The sum of two scaled points.
fn fold2(s1: &Scalar, p1: &RistrettoPoint, s2: &Scalar, p2: &RistrettoPoint) -> RistrettoPoint {
    let mut scalars: Vec<Scalar> = Vec::new();
    scalars.push(*s1);
    scalars.push(*s2);
    let mut points: Vec<RistrettoPoint> = Vec::new();
    points.push(*p1);
    points.push(*p2);
    msm(&scalars, &points)
}

impl InnerProductProof {
    /// Runs the prover side of the argument on vectors `a`, `b` against
    /// the bases `g`, `h` and the inner-product base `q`, absorbing each
    /// round's commitments into the transcript and halving until one
    /// element is left.
    pub fn create(
        t: &mut Transcript,
        q: &RistrettoPoint,
        g_init: Vec<RistrettoPoint>,
        h_init: Vec<RistrettoPoint>,
        a_init: Vec<Scalar>,
        b_init: Vec<Scalar>,
    ) -> (res: InnerProductProof)
        requires
            is_pow2(a_init@.len() as nat),
            g_init@.len() == a_init@.len(),
            h_init@.len() == a_init@.len(),
            b_init@.len() == a_init@.len(),
        ensures
            res.wf_shape(),
            res.wf_codes(),
            res.l_bytes@.len() == lg(a_init@.len() as nat),
    {
        let mut g = g_init;
        let mut h = h_init;
        let mut a = a_init;
        let mut b = b_init;
        let mut l_bytes: Vec<Vec<u8>> = Vec::new();
        let mut r_bytes: Vec<Vec<u8>> = Vec::new();
        inner_product_domain_sep(t, a.len() as u64);
        while a.len() > 1
            invariant
                is_pow2(a@.len() as nat),
                g@.len() == a@.len(),
                h@.len() == a@.len(),
                b@.len() == a@.len(),
                l_bytes@.len() == r_bytes@.len(),
                l_bytes@.len() + lg(a@.len() as nat) == lg(a_init@.len() as nat),
                forall|i: int|
                    0 <= i < l_bytes@.len() ==> (#[trigger] l_bytes@[i])@.len() == 32
                        && is_point_encoding(l_bytes@[i]@),
                forall|i: int|
                    0 <= i < r_bytes@.len() ==> (#[trigger] r_bytes@[i])@.len() == 32
                        && is_point_encoding(r_bytes@[i]@),
            decreases a@.len(),
        {
            let k = a.len();
            let half = k / 2;
            let a_lo = subvec(&a, 0, half);
            let a_hi = subvec(&a, half, k);
            let b_lo = subvec(&b, 0, half);
            let b_hi = subvec(&b, half, k);
            let g_lo = subvec(&g, 0, half);
            let g_hi = subvec(&g, half, k);
            let h_lo = subvec(&h, 0, half);
            let h_hi = subvec(&h, half, k);
            let c_l = inner_product(&a_lo, &b_hi);
            let c_r = inner_product(&a_hi, &b_lo);
            let mut l_scalars: Vec<Scalar> = Vec::new();
            append_vec(&mut l_scalars, &a_lo);
            append_vec(&mut l_scalars, &b_hi);
            l_scalars.push(c_l);
            let mut l_points: Vec<RistrettoPoint> = Vec::new();
            append_vec(&mut l_points, &g_hi);
            append_vec(&mut l_points, &h_lo);
            l_points.push(*q);
            let l_point = msm(&l_scalars, &l_points);
            let mut r_scalars: Vec<Scalar> = Vec::new();
            append_vec(&mut r_scalars, &a_hi);
            append_vec(&mut r_scalars, &b_lo);
            r_scalars.push(c_r);
            let mut r_points: Vec<RistrettoPoint> = Vec::new();
            append_vec(&mut r_points, &g_lo);
            append_vec(&mut r_points, &h_hi);
            r_points.push(*q);
            let r_point = msm(&r_scalars, &r_points);
            let lb = point_compress(&l_point);
            let rb = point_compress(&r_point);
            append_point(t, "L", &lb);
            append_point(t, "R", &rb);
            l_bytes.push(lb);
            r_bytes.push(rb);
            let u = challenge_scalar(t, "u");
            let u_inv = scalar_invert(&u);
            let mut a_next: Vec<Scalar> = Vec::new();
            let mut b_next: Vec<Scalar> = Vec::new();
            let mut g_next: Vec<RistrettoPoint> = Vec::new();
            let mut h_next: Vec<RistrettoPoint> = Vec::new();
            let mut i: usize = 0;
            while i < half
                invariant
                    i <= half,
                    a_lo@.len() == half,
                    a_hi@.len() == half,
                    b_lo@.len() == half,
                    b_hi@.len() == half,
                    g_lo@.len() == half,
                    g_hi@.len() == half,
                    h_lo@.len() == half,
                    h_hi@.len() == half,
                    a_next@.len() == i,
                    b_next@.len() == i,
                    g_next@.len() == i,
                    h_next@.len() == i,
                decreases half - i,
            {
                let al = scalar_mul(&a_lo[i], &u);
                let ah = scalar_mul(&a_hi[i], &u_inv);
                a_next.push(scalar_add(&al, &ah));
                let bl = scalar_mul(&b_lo[i], &u_inv);
                let bh = scalar_mul(&b_hi[i], &u);
                b_next.push(scalar_add(&bl, &bh));
                g_next.push(fold2(&u_inv, &g_lo[i], &u, &g_hi[i]));
                h_next.push(fold2(&u, &h_lo[i], &u_inv, &h_hi[i]));
                i = i + 1;
            }
            a = a_next;
            b = b_next;
            g = g_next;
            h = h_next;
        }
        InnerProductProof {
            l_bytes,
            r_bytes,
            a_bytes: scalar_to_bytes(&a[0]),
            b_bytes: scalar_to_bytes(&b[0]),
        }
    }

    /// Replays the rounds of the argument against the transcript and
    /// returns the squared challenges, their inverses, and the folding
    /// coefficient vector `s` of length `k`.  Fails exactly when the
    /// round count does not fit the vector length `k`.
    pub fn verification_scalars(&self, k: usize, t: &mut Transcript) -> (res: Result<
        (Vec<Scalar>, Vec<Scalar>, Vec<Scalar>),
        VerifyError,
    >)
        requires
            self.wf_shape(),
            is_pow2(k as nat),
        ensures
            res is Ok <==> self.l_bytes@.len() == lg(k as nat),
            res matches Err(e) ==> e == VerifyError::InvalidEncoding,
            res matches Ok(v) ==> v.0@.len() == lg(k as nat) && v.1@.len() == lg(k as nat)
                && v.2@.len() == k,
            res matches Ok(v) ==> ({
                let s_in = transcript_state(*old(t)).push(
                    (false, "ipp v1 n"@, u64_le_bytes(k as u64)),
                );
                let rounds = lg(k as nat) as int;
                &&& v.0@ == Seq::new(
                    rounds as nat,
                    |i: int| round_u_sq(s_in, self.l_bytes@, self.r_bytes@, i),
                )
                &&& v.1@ == Seq::new(
                    rounds as nat,
                    |i: int| round_u_inv_sq(s_in, self.l_bytes@, self.r_bytes@, i),
                )
                &&& v.2@ == s_fold(s_in, self.l_bytes@, self.r_bytes@, rounds, rounds)
                &&& transcript_state(*final(t)) == rounds_state(
                    s_in,
                    self.l_bytes@,
                    self.r_bytes@,
                    rounds,
                )
            }),
            res is Err ==> transcript_state(*final(t)) == transcript_state(*old(t)),
    {
        let lgk = floor_lg(k);
        if self.l_bytes.len() != lgk {
            return Err(VerifyError::InvalidEncoding);
        }
        inner_product_domain_sep(t, k as u64);
        let ghost s_in = transcript_state(*t);
        let mut u: Vec<Scalar> = Vec::new();
        let mut i: usize = 0;
        while i < lgk
            invariant
                i <= lgk,
                u@.len() == i,
                self.wf_shape(),
                self.l_bytes@.len() == lgk,
                transcript_state(*t) == rounds_state(s_in, self.l_bytes@, self.r_bytes@, i as int),
                forall|jj: int|
                    0 <= jj < i ==> u@[jj] == round_u(s_in, self.l_bytes@, self.r_bytes@, jj),
            decreases lgk - i,
        {
            append_point(t, "L", &self.l_bytes[i]);
            append_point(t, "R", &self.r_bytes[i]);
            u.push(challenge_scalar(t, "u"));
            i = i + 1;
        }
        let mut u_sq: Vec<Scalar> = Vec::new();
        let mut u_inv_sq: Vec<Scalar> = Vec::new();
        let mut allinv: Scalar = scalar_from_u64(1);
        let mut i2: usize = 0;
        while i2 < lgk
            invariant
                i2 <= lgk,
                u@.len() == lgk,
                u_sq@.len() == i2,
                u_inv_sq@.len() == i2,
                forall|jj: int|
                    0 <= jj < lgk ==> u@[jj] == round_u(s_in, self.l_bytes@, self.r_bytes@, jj),
                forall|jj: int|
                    0 <= jj < i2 ==> u_sq@[jj] == round_u_sq(
                        s_in,
                        self.l_bytes@,
                        self.r_bytes@,
                        jj,
                    ),
                forall|jj: int|
                    0 <= jj < i2 ==> u_inv_sq@[jj] == round_u_inv_sq(
                        s_in,
                        self.l_bytes@,
                        self.r_bytes@,
                        jj,
                    ),
                allinv == allinv_fold(s_in, self.l_bytes@, self.r_bytes@, i2 as int),
            decreases lgk - i2,
        {
            u_sq.push(scalar_mul(&u[i2], &u[i2]));
            let ui = scalar_invert(&u[i2]);
            u_inv_sq.push(scalar_mul(&ui, &ui));
            allinv = scalar_mul(&allinv, &ui);
            i2 = i2 + 1;
        }
        let mut s: Vec<Scalar> = Vec::new();
        s.push(allinv);
        proof {
            vstd::arithmetic::power2::lemma2_to64();
            assert(s@ =~= s_fold(s_in, self.l_bytes@, self.r_bytes@, lgk as int, 0));
        }
        let mut j: usize = 0;
        while j < lgk
            invariant
                j <= lgk,
                u_sq@.len() == lgk,
                s@.len() == pow2(j as nat),
                forall|jj: int|
                    0 <= jj < lgk ==> u_sq@[jj] == round_u_sq(
                        s_in,
                        self.l_bytes@,
                        self.r_bytes@,
                        jj,
                    ),
                s@ == s_fold(s_in, self.l_bytes@, self.r_bytes@, lgk as int, j as int),
            decreases lgk - j,
        {
            let uu = u_sq[lgk - 1 - j];
            let cur = s.len();
            let mut i3: usize = 0;
            while i3 < cur
                invariant
                    i3 <= cur,
                    s@.len() == cur + i3,
                    u_sq@.len() == lgk,
                    j < lgk,
                    cur == s_fold(s_in, self.l_bytes@, self.r_bytes@, lgk as int, j as int).len(),
                    uu == round_u_sq(s_in, self.l_bytes@, self.r_bytes@, lgk - 1 - j),
                    s@ == s_fold(s_in, self.l_bytes@, self.r_bytes@, lgk as int, j as int)
                        + Seq::new(
                        i3 as nat,
                        |v: int|
                            prod_of(
                                s_fold(s_in, self.l_bytes@, self.r_bytes@, lgk as int, j as int)[v],
                                round_u_sq(s_in, self.l_bytes@, self.r_bytes@, lgk - 1 - j),
                            ),
                    ),
                decreases cur - i3,
            {
                let v = scalar_mul(&s[i3], &uu);
                s.push(v);
                proof {
                    assert(s@ =~= s_fold(s_in, self.l_bytes@, self.r_bytes@, lgk as int, j as int)
                        + Seq::new(
                        (i3 + 1) as nat,
                        |v: int|
                            prod_of(
                                s_fold(s_in, self.l_bytes@, self.r_bytes@, lgk as int, j as int)[v],
                                round_u_sq(s_in, self.l_bytes@, self.r_bytes@, lgk - 1 - j),
                            ),
                    ));
                }
                i3 = i3 + 1;
            }
            proof {
                lemma_pow2_unfold((j + 1) as nat);
                assert(s@ =~= s_fold(
                    s_in,
                    self.l_bytes@,
                    self.r_bytes@,
                    lgk as int,
                    j + 1 as int,
                ));
            }
            j = j + 1;
        }
        proof {
            lemma_pow2_lg(k as nat);
            assert(u_sq@ =~= Seq::new(
                lgk as nat,
                |i: int| round_u_sq(s_in, self.l_bytes@, self.r_bytes@, i),
            ));
            assert(u_inv_sq@ =~= Seq::new(
                lgk as nat,
                |i: int| round_u_inv_sq(s_in, self.l_bytes@, self.r_bytes@, i),
            ));
        }
        Ok((u_sq, u_inv_sq, s))
    }
}

} // verus!
