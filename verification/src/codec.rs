//! The byte encoding of a range proof.
//!
//! Layout: `A || S || T1 || T2` (4 compressed points), `t_x ||
//! t_x_blinding || e_blinding` (3 scalars), `L_1 || R_1 || ... || L_k ||
//! R_k` (the inner-product rounds, interleaved), `a || b` (2 scalars);
//! every component is 32 bytes, so a proof with `k` rounds occupies
//! `32 * (9 + 2k)` bytes.  Parsing rejects a wrong total length, a point
//! that does not decompress, and a non-canonical scalar.

use vstd::prelude::*;

verus! {

use crate::backend::is_canonical_scalar;
use crate::backend::is_point_encoding;
use crate::backend::point_decompress;
use crate::backend::scalar_from_canonical;
use crate::errors::VerifyError;
use crate::inner_product::InnerProductProof;
use crate::range_proof::RangeProof;
use crate::util::append_vec;
use crate::util::subvec;

/// The `c`-th 32-byte word of `b`.
pub open spec fn chunk32(b: Seq<u8>, c: int) -> Seq<u8> {
    b.subrange(32 * c, 32 * c + 32)
}

/// The views of a vector of byte strings.
pub open spec fn byte_views(l: Seq<Vec<u8>>) -> Seq<Seq<u8>> {
    l.map_values(|v: Vec<u8>| v@)
}

/// The first `i` interleaved `(L, R)` pairs, concatenated.
pub open spec fn lr_prefix(l: Seq<Seq<u8>>, r: Seq<Seq<u8>>, i: int) -> Seq<u8>
    decreases i,
{
    if i <= 0 {
        Seq::empty()
    } else {
        lr_prefix(l, r, i - 1) + l[i - 1] + r[i - 1]
    }
}

/// The seven fixed leading components, concatenated.
pub open spec fn head_bytes(p: RangeProof) -> Seq<u8> {
    p.a_bytes@ + p.s_bytes@ + p.t1_bytes@ + p.t2_bytes@ + p.t_x_bytes@ + p.t_x_blinding_bytes@
        + p.e_blinding_bytes@
}

/// The full byte encoding of a proof.
pub open spec fn proof_bytes(p: RangeProof) -> Seq<u8> {
    head_bytes(p) + lr_prefix(
        byte_views(p.ipp.l_bytes@),
        byte_views(p.ipp.r_bytes@),
        p.ipp.l_bytes@.len() as int,
    ) + p.ipp.a_bytes@ + p.ipp.b_bytes@
}

/// Exactly the byte strings that parsing accepts: a length of
/// `32 * (9 + 2k)`, every point word a valid encoding, every scalar
/// word canonical.
pub open spec fn parseable(b: Seq<u8>) -> bool {
    let words = b.len() as int / 32;
    &&& b.len() % 32 == 0
    &&& words >= 9
    &&& (words - 9) % 2 == 0
    &&& is_point_encoding(chunk32(b, 0))
    &&& is_point_encoding(chunk32(b, 1))
    &&& is_point_encoding(chunk32(b, 2))
    &&& is_point_encoding(chunk32(b, 3))
    &&& is_canonical_scalar(chunk32(b, 4))
    &&& is_canonical_scalar(chunk32(b, 5))
    &&& is_canonical_scalar(chunk32(b, 6))
    &&& forall|i: int|
        0 <= i < (words - 9) / 2 ==> is_point_encoding(#[trigger] chunk32(b, 7 + 2 * i))
            && is_point_encoding(chunk32(b, 8 + 2 * i))
    &&& is_canonical_scalar(chunk32(b, words - 2))
    &&& is_canonical_scalar(chunk32(b, words - 1))
}

/// The two proofs have identical components.
pub open spec fn same_components(p: RangeProof, q: RangeProof) -> bool {
    &&& p.a_bytes@ == q.a_bytes@
    &&& p.s_bytes@ == q.s_bytes@
    &&& p.t1_bytes@ == q.t1_bytes@
    &&& p.t2_bytes@ == q.t2_bytes@
    &&& p.t_x_bytes@ == q.t_x_bytes@
    &&& p.t_x_blinding_bytes@ == q.t_x_blinding_bytes@
    &&& p.e_blinding_bytes@ == q.e_blinding_bytes@
    &&& p.ipp.l_bytes@.len() == q.ipp.l_bytes@.len()
    &&& p.ipp.r_bytes@.len() == q.ipp.r_bytes@.len()
    &&& forall|i: int|
        0 <= i < p.ipp.l_bytes@.len() ==> (#[trigger] p.ipp.l_bytes@[i])@ == (
        #[trigger] q.ipp.l_bytes@[i])@
    &&& forall|i: int|
        0 <= i < p.ipp.r_bytes@.len() ==> (#[trigger] p.ipp.r_bytes@[i])@ == (
        #[trigger] q.ipp.r_bytes@[i])@
    &&& p.ipp.a_bytes@ == q.ipp.a_bytes@
    &&& p.ipp.b_bytes@ == q.ipp.b_bytes@
}

proof fn lemma_lr_prefix_len(l: Seq<Seq<u8>>, r: Seq<Seq<u8>>, i: int)
    requires
        0 <= i <= l.len(),
        l.len() == r.len(),
        forall|j: int| 0 <= j < l.len() ==> (#[trigger] l[j]).len() == 32,
        forall|j: int| 0 <= j < r.len() ==> (#[trigger] r[j]).len() == 32,
    ensures
        lr_prefix(l, r, i).len() == 64 * i,
    decreases i,
{
    if i > 0 {
        lemma_lr_prefix_len(l, r, i - 1);
    }
}

proof fn lemma_lr_prefix_index(l: Seq<Seq<u8>>, r: Seq<Seq<u8>>, i: int, k: int)
    requires
        0 <= i < k <= l.len(),
        l.len() == r.len(),
        forall|j: int| 0 <= j < l.len() ==> (#[trigger] l[j]).len() == 32,
        forall|j: int| 0 <= j < r.len() ==> (#[trigger] r[j]).len() == 32,
    ensures
        lr_prefix(l, r, k).subrange(64 * i, 64 * i + 32) == l[i],
        lr_prefix(l, r, k).subrange(64 * i + 32, 64 * i + 64) == r[i],
    decreases k,
{
    lemma_lr_prefix_len(l, r, k - 1);
    lemma_lr_prefix_len(l, r, k);
    if i == k - 1 {
        assert(lr_prefix(l, r, k).subrange(64 * i, 64 * i + 32) =~= l[i]);
        assert(lr_prefix(l, r, k).subrange(64 * i + 32, 64 * i + 64) =~= r[i]);
    } else {
        lemma_lr_prefix_index(l, r, i, k - 1);
        assert(lr_prefix(l, r, k).subrange(64 * i, 64 * i + 32) =~= lr_prefix(
            l,
            r,
            k - 1,
        ).subrange(64 * i, 64 * i + 32));
        assert(lr_prefix(l, r, k).subrange(64 * i + 32, 64 * i + 64) =~= lr_prefix(
            l,
            r,
            k - 1,
        ).subrange(64 * i + 32, 64 * i + 64));
    }
}

/// Where every component of a well-shaped proof stands in its encoding.
proof fn lemma_parts(p: RangeProof)
    requires
        p.wf_shape(),
    ensures
        proof_bytes(p).len() == 32 * (9 + 2 * p.ipp.l_bytes@.len()),
        chunk32(proof_bytes(p), 0) == p.a_bytes@,
        chunk32(proof_bytes(p), 1) == p.s_bytes@,
        chunk32(proof_bytes(p), 2) == p.t1_bytes@,
        chunk32(proof_bytes(p), 3) == p.t2_bytes@,
        chunk32(proof_bytes(p), 4) == p.t_x_bytes@,
        chunk32(proof_bytes(p), 5) == p.t_x_blinding_bytes@,
        chunk32(proof_bytes(p), 6) == p.e_blinding_bytes@,
        forall|i: int|
            0 <= i < p.ipp.l_bytes@.len() ==> #[trigger] chunk32(proof_bytes(p), 7 + 2 * i) == (
            p.ipp.l_bytes@[i])@ && chunk32(proof_bytes(p), 8 + 2 * i) == (p.ipp.r_bytes@[i])@,
        chunk32(proof_bytes(p), 7 + 2 * (p.ipp.l_bytes@.len() as int)) == p.ipp.a_bytes@,
        chunk32(proof_bytes(p), 8 + 2 * (p.ipp.l_bytes@.len() as int)) == p.ipp.b_bytes@,
{
    let lv = byte_views(p.ipp.l_bytes@);
    let rv = byte_views(p.ipp.r_bytes@);
    let k = p.ipp.l_bytes@.len() as int;
    let b = proof_bytes(p);
    lemma_lr_prefix_len(lv, rv, k);
    assert(b.len() == 32 * (9 + 2 * k));
    assert(chunk32(b, 0) =~= p.a_bytes@);
    assert(chunk32(b, 1) =~= p.s_bytes@);
    assert(chunk32(b, 2) =~= p.t1_bytes@);
    assert(chunk32(b, 3) =~= p.t2_bytes@);
    assert(chunk32(b, 4) =~= p.t_x_bytes@);
    assert(chunk32(b, 5) =~= p.t_x_blinding_bytes@);
    assert(chunk32(b, 6) =~= p.e_blinding_bytes@);
    assert forall|i: int| 0 <= i < k implies #[trigger] chunk32(b, 7 + 2 * i) == (
    p.ipp.l_bytes@[i])@ && chunk32(b, 8 + 2 * i) == (p.ipp.r_bytes@[i])@ by {
        lemma_lr_prefix_index(lv, rv, i, k);
        assert(chunk32(b, 7 + 2 * i) =~= lr_prefix(lv, rv, k).subrange(64 * i, 64 * i + 32));
        assert(chunk32(b, 8 + 2 * i) =~= lr_prefix(lv, rv, k).subrange(64 * i + 32, 64 * i + 64));
    }
    assert(chunk32(b, 7 + 2 * k) =~= p.ipp.a_bytes@);
    assert(chunk32(b, 8 + 2 * k) =~= p.ipp.b_bytes@);
}

/// A well-shaped proof whose components stand at their places in `b`
/// serializes exactly to `b`.
proof fn lemma_glue(p: RangeProof, b: Seq<u8>)
    requires
        p.wf_shape(),
        b.len() == 32 * (9 + 2 * p.ipp.l_bytes@.len()),
        chunk32(b, 0) == p.a_bytes@,
        chunk32(b, 1) == p.s_bytes@,
        chunk32(b, 2) == p.t1_bytes@,
        chunk32(b, 3) == p.t2_bytes@,
        chunk32(b, 4) == p.t_x_bytes@,
        chunk32(b, 5) == p.t_x_blinding_bytes@,
        chunk32(b, 6) == p.e_blinding_bytes@,
        forall|i: int|
            0 <= i < p.ipp.l_bytes@.len() ==> #[trigger] chunk32(b, 7 + 2 * i) == (
            p.ipp.l_bytes@[i])@ && chunk32(b, 8 + 2 * i) == (p.ipp.r_bytes@[i])@,
        chunk32(b, 7 + 2 * (p.ipp.l_bytes@.len() as int)) == p.ipp.a_bytes@,
        chunk32(b, 8 + 2 * (p.ipp.l_bytes@.len() as int)) == p.ipp.b_bytes@,
    ensures
        proof_bytes(p) == b,
{
    let lv = byte_views(p.ipp.l_bytes@);
    let rv = byte_views(p.ipp.r_bytes@);
    let k = p.ipp.l_bytes@.len() as int;
    lemma_lr_prefix_glue(lv, rv, b, k, k);
    lemma_lr_prefix_len(lv, rv, k);
    assert(proof_bytes(p) =~= b);
}

proof fn lemma_lr_prefix_glue(lv: Seq<Seq<u8>>, rv: Seq<Seq<u8>>, b: Seq<u8>, i: int, k: int)
    requires
        0 <= i <= k <= lv.len(),
        lv.len() == rv.len(),
        b.len() >= 32 * (9 + 2 * k),
        forall|j: int| 0 <= j < lv.len() ==> (#[trigger] lv[j]).len() == 32,
        forall|j: int| 0 <= j < rv.len() ==> (#[trigger] rv[j]).len() == 32,
        forall|j: int|
            0 <= j < k ==> #[trigger] chunk32(b, 7 + 2 * j) == lv[j] && chunk32(b, 8 + 2 * j)
                == rv[j],
    ensures
        lr_prefix(lv, rv, i) == b.subrange(224, 224 + 64 * i),
    decreases i,
{
    if i == 0 {
        assert(lr_prefix(lv, rv, 0) =~= b.subrange(224, 224));
    } else {
        lemma_lr_prefix_glue(lv, rv, b, i - 1, k);
        lemma_lr_prefix_len(lv, rv, i - 1);
        assert(chunk32(b, 7 + 2 * (i - 1)) == lv[i - 1]);
        assert(lr_prefix(lv, rv, i) =~= b.subrange(224, 224 + 64 * i));
    }
}

/// The encoding laws.  First: a well-formed proof's bytes always parse
/// back.  Second: the encoding is injective on well-shaped proofs, so
/// parsing the bytes of a proof returns a proof with identical
/// components, and verifying it is verifying the same statement.
pub proof fn lemma_bytes_roundtrip(p: RangeProof, q: RangeProof)
    ensures
        p.wf_shape() && p.wf_codes() ==> parseable(proof_bytes(p)),
        p.wf_shape() && q.wf_shape() && proof_bytes(q) == proof_bytes(p) ==> same_components(p, q),
{
    if p.wf_shape() {
        lemma_parts(p);
        let b = proof_bytes(p);
        let k = p.ipp.l_bytes@.len() as int;
        assert(b.len() == 32 * (9 + 2 * k));
        assert(b.len() % 32 == 0 && b.len() as int / 32 == 9 + 2 * k) by (nonlinear_arith)
            requires
                b.len() == 32 * (9 + 2 * k),
                k >= 0,
        ;
        assert((9 + 2 * k - 9) / 2 == k);
        if p.wf_codes() {
            assert(chunk32(b, 4) == p.t_x_bytes@ && is_canonical_scalar(p.t_x_bytes@));
            assert(chunk32(b, 5) == p.t_x_blinding_bytes@ && is_canonical_scalar(
                p.t_x_blinding_bytes@,
            ));
            assert(chunk32(b, 6) == p.e_blinding_bytes@ && is_canonical_scalar(
                p.e_blinding_bytes@,
            ));
            assert(chunk32(b, 7 + 2 * k) == p.ipp.a_bytes@ && is_canonical_scalar(
                p.ipp.a_bytes@,
            ));
            assert(chunk32(b, 8 + 2 * k) == p.ipp.b_bytes@ && is_canonical_scalar(
                p.ipp.b_bytes@,
            ));
            assert(parseable(b));
        }
        if q.wf_shape() && proof_bytes(q) == proof_bytes(p) {
            lemma_parts(q);
            let kq = q.ipp.l_bytes@.len() as int;
            assert(32 * (9 + 2 * kq) == 32 * (9 + 2 * k));
            assert(kq == k) by (nonlinear_arith)
                requires
                    32 * (9 + 2 * kq) == 32 * (9 + 2 * k),
            ;
            assert forall|i: int| 0 <= i < k implies (#[trigger] p.ipp.l_bytes@[i])@ == (
            #[trigger] q.ipp.l_bytes@[i])@ by {
                assert(chunk32(b, 7 + 2 * i) == (p.ipp.l_bytes@[i])@);
                assert(chunk32(b, 7 + 2 * i) == (q.ipp.l_bytes@[i])@);
            }
            assert forall|i: int| 0 <= i < k implies (#[trigger] p.ipp.r_bytes@[i])@ == (
            #[trigger] q.ipp.r_bytes@[i])@ by {
                assert(chunk32(b, 7 + 2 * i) == (p.ipp.l_bytes@[i])@);
                assert(chunk32(b, 8 + 2 * i) == (p.ipp.r_bytes@[i])@);
                assert(chunk32(b, 8 + 2 * i) == (q.ipp.r_bytes@[i])@);
            }
        }
    }
}

impl RangeProof {
    /// Serializes the proof into its fixed-layout byte encoding.
    pub fn to_bytes(&self) -> (out: Vec<u8>)
        requires
            self.wf_shape(),
        ensures
            out@ == proof_bytes(*self),
            out@.len() == 32 * (9 + 2 * self.ipp.l_bytes@.len()),
            self.wf_codes() ==> parseable(out@),
    {
        let mut out: Vec<u8> = Vec::new();
        append_vec(&mut out, &self.a_bytes);
        append_vec(&mut out, &self.s_bytes);
        append_vec(&mut out, &self.t1_bytes);
        append_vec(&mut out, &self.t2_bytes);
        append_vec(&mut out, &self.t_x_bytes);
        append_vec(&mut out, &self.t_x_blinding_bytes);
        append_vec(&mut out, &self.e_blinding_bytes);
        proof {
            assert(out@ =~= head_bytes(*self) + lr_prefix(
                byte_views(self.ipp.l_bytes@),
                byte_views(self.ipp.r_bytes@),
                0,
            ));
        }
        let rounds = self.ipp.l_bytes.len();
        let mut i: usize = 0;
        while i < rounds
            invariant
                i <= rounds,
                self.ipp.l_bytes@.len() == rounds,
                self.ipp.r_bytes@.len() == rounds,
                out@ == head_bytes(*self) + lr_prefix(
                    byte_views(self.ipp.l_bytes@),
                    byte_views(self.ipp.r_bytes@),
                    i as int,
                ),
            decreases rounds - i,
        {
            append_vec(&mut out, &self.ipp.l_bytes[i]);
            append_vec(&mut out, &self.ipp.r_bytes[i]);
            proof {
                assert(out@ =~= head_bytes(*self) + lr_prefix(
                    byte_views(self.ipp.l_bytes@),
                    byte_views(self.ipp.r_bytes@),
                    i + 1 as int,
                ));
            }
            i = i + 1;
        }
        append_vec(&mut out, &self.ipp.a_bytes);
        append_vec(&mut out, &self.ipp.b_bytes);
        proof {
            assert(out@ =~= proof_bytes(*self));
            lemma_parts(*self);
            lemma_bytes_roundtrip(*self, *self);
        }
        out
    }

    /// Parses a byte string produced by `to_bytes`.  Accepts exactly
    /// the `parseable` strings: the length must be `32 * (9 + 2k)`,
    /// every point must decompress, and every scalar must be canonical;
    /// anything else is an encoding error.
    #[verifier::loop_isolation(false)]
    pub fn from_bytes(bytes: &Vec<u8>) -> (res: Result<RangeProof, VerifyError>)
        ensures
            res is Ok <==> parseable(bytes@),
            res matches Ok(p) ==> p.wf_shape() && p.wf_codes() && proof_bytes(p) == bytes@,
            res matches Err(e) ==> e == VerifyError::InvalidEncoding,
    {
        let len = bytes.len();
        if len % 32 != 0 {
            return Err(VerifyError::InvalidEncoding);
        }
        let words = len / 32;
        proof {
            vstd::arithmetic::div_mod::lemma_fundamental_div_mod(len as int, 32);
        }
        if words < 9 {
            return Err(VerifyError::InvalidEncoding);
        }
        if (words - 9) % 2 != 0 {
            return Err(VerifyError::InvalidEncoding);
        }
        let k = (words - 9) / 2;
        proof {
            assert(words == 9 + 2 * k);
            assert(len == 32 * (9 + 2 * k));
        }
        let a_bytes = subvec(bytes, 0, 32);
        let s_bytes = subvec(bytes, 32, 64);
        let t1_bytes = subvec(bytes, 64, 96);
        let t2_bytes = subvec(bytes, 96, 128);
        let t_x_bytes = subvec(bytes, 128, 160);
        let t_x_blinding_bytes = subvec(bytes, 160, 192);
        let e_blinding_bytes = subvec(bytes, 192, 224);
        proof {
            assert(a_bytes@ == chunk32(bytes@, 0));
            assert(s_bytes@ == chunk32(bytes@, 1));
            assert(t1_bytes@ == chunk32(bytes@, 2));
            assert(t2_bytes@ == chunk32(bytes@, 3));
            assert(t_x_bytes@ == chunk32(bytes@, 4));
            assert(t_x_blinding_bytes@ == chunk32(bytes@, 5));
            assert(e_blinding_bytes@ == chunk32(bytes@, 6));
        }
        if point_decompress(&a_bytes).is_none() {
            return Err(VerifyError::InvalidEncoding);
        }
        if point_decompress(&s_bytes).is_none() {
            return Err(VerifyError::InvalidEncoding);
        }
        if point_decompress(&t1_bytes).is_none() {
            return Err(VerifyError::InvalidEncoding);
        }
        if point_decompress(&t2_bytes).is_none() {
            return Err(VerifyError::InvalidEncoding);
        }
        if scalar_from_canonical(&t_x_bytes).is_none() {
            return Err(VerifyError::InvalidEncoding);
        }
        if scalar_from_canonical(&t_x_blinding_bytes).is_none() {
            return Err(VerifyError::InvalidEncoding);
        }
        if scalar_from_canonical(&e_blinding_bytes).is_none() {
            return Err(VerifyError::InvalidEncoding);
        }
        let mut l_bytes: Vec<Vec<u8>> = Vec::new();
        let mut r_bytes: Vec<Vec<u8>> = Vec::new();
        let mut i: usize = 0;
        while i < k
            invariant
                i <= k,
                l_bytes@.len() == i,
                r_bytes@.len() == i,
                forall|j: int|
                    0 <= j < i ==> (#[trigger] l_bytes@[j])@ == chunk32(bytes@, 7 + 2 * j),
                forall|j: int|
                    0 <= j < i ==> (#[trigger] r_bytes@[j])@ == chunk32(bytes@, 8 + 2 * j),
                forall|j: int| 0 <= j < i ==> is_point_encoding(#[trigger] chunk32(bytes@, 7 + 2 * j)),
                forall|j: int| 0 <= j < i ==> is_point_encoding(#[trigger] chunk32(bytes@, 8 + 2 * j)),
            decreases k - i,
        {
            proof {
                assert(224 + 64 * i + 64 <= len) by (nonlinear_arith)
                    requires
                        len == 32 * (9 + 2 * k),
                        0 <= i < k,
                ;
            }
            let base = 224 + 64 * i;
            let lc = subvec(bytes, base, base + 32);
            let rc = subvec(bytes, base + 32, base + 64);
            proof {
                assert(lc@ == chunk32(bytes@, 7 + 2 * (i as int)));
                assert(rc@ == chunk32(bytes@, 8 + 2 * (i as int)));
            }
            if point_decompress(&lc).is_none() {
                return Err(VerifyError::InvalidEncoding);
            }
            if point_decompress(&rc).is_none() {
                return Err(VerifyError::InvalidEncoding);
            }
            l_bytes.push(lc);
            r_bytes.push(rc);
            i = i + 1;
        }
        let ipp_a_bytes = subvec(bytes, len - 64, len - 32);
        let ipp_b_bytes = subvec(bytes, len - 32, len);
        proof {
            assert(ipp_a_bytes@ == chunk32(bytes@, 7 + 2 * (k as int)));
            assert(ipp_b_bytes@ == chunk32(bytes@, 8 + 2 * (k as int)));
        }
        if scalar_from_canonical(&ipp_a_bytes).is_none() {
            return Err(VerifyError::InvalidEncoding);
        }
        if scalar_from_canonical(&ipp_b_bytes).is_none() {
            return Err(VerifyError::InvalidEncoding);
        }
        let p = RangeProof {
            a_bytes,
            s_bytes,
            t1_bytes,
            t2_bytes,
            t_x_bytes,
            t_x_blinding_bytes,
            e_blinding_bytes,
            ipp: InnerProductProof { l_bytes, r_bytes, a_bytes: ipp_a_bytes, b_bytes: ipp_b_bytes },
        };
        proof {
            assert(len - 64 == 32 * (7 + 2 * k) && len - 32 == 32 * (8 + 2 * k));
            lemma_glue(p, bytes@);
        }
        Ok(p)
    }
}

} // verus!
