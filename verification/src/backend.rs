//! Trusted boundary to the outside crates.
//!
//! Every item here either declares an outside type to Verus, names the
//! result of one outside function as an uninterpreted spec function, or
//! wraps a single call into `curve25519-dalek`, `merlin` or `rand`.
//! The contracts state only what those crates' sources plainly show:
//! each named operation is a deterministic function of its arguments,
//! and a merlin transcript is a deterministic function of the log of
//! operations applied to it.  Nothing in this module is verified;
//! everything else in the library is proved against these contracts.

use vstd::prelude::*;

verus! {

use curve25519_dalek::ristretto::CompressedRistretto;
use curve25519_dalek::ristretto::RistrettoPoint;
use curve25519_dalek::scalar::Scalar;
use curve25519_dalek::traits::VartimeMultiscalarMul;
use merlin::Transcript;
use rand::rngs::ThreadRng;

#[verifier::external_type_specification]
#[verifier::external_body]
pub struct ExScalar(Scalar);

#[verifier::external_type_specification]
#[verifier::external_body]
pub struct ExRistrettoPoint(RistrettoPoint);

#[verifier::external_type_specification]
#[verifier::external_body]
pub struct ExTranscript(Transcript);

#[verifier::external_type_specification]
#[verifier::external_body]
pub struct ExThreadRng(ThreadRng);

/// The integer a little-endian byte string encodes.
pub open spec fn le_bytes_value(b: Seq<u8>) -> nat
    decreases b.len(),
{
    if b.len() == 0 {
        0
    } else {
        (b[0] + 256 * le_bytes_value(b.drop_first())) as nat
    }
}

/// The order of the Ristretto group:
/// `2^252 + 27742317777372353535851937790883648493`.
pub open spec fn group_order() -> nat {
    0x1000000000000000000000000000000014DEF9DEA2F79CD65812631A5CF5D3EDnat
}

/// Whether a 32-byte string is the canonical little-endian encoding of a
/// scalar: the integer it encodes lies below the group order.  This is
/// the acceptance condition of `Scalar::from_canonical_bytes`.
pub open spec fn is_canonical_scalar(b: Seq<u8>) -> bool {
    b.len() == 32 && le_bytes_value(b) < group_order()
}

/// Whether a 32-byte string is the canonical encoding of a Ristretto
/// point.  This names the acceptance condition of
/// `CompressedRistretto::decompress`.
pub uninterp spec fn is_point_encoding(b: Seq<u8>) -> bool;

/// Names the result of `Scalar::from`: the value reduced into the field.
pub uninterp spec fn scalar_of_u64(x: u64) -> Scalar;

/// Names the result of `Scalar::from_bytes_mod_order_wide`.
pub uninterp spec fn wide_reduce_of(b: Seq<u8>) -> Scalar;

/// Names the result of `Scalar::to_bytes`: the canonical encoding.
pub uninterp spec fn scalar_encoding_of(s: Scalar) -> Seq<u8>;

/// Names the scalar that `Scalar::from_canonical_bytes` accepts.
pub uninterp spec fn canonical_scalar_of(b: Seq<u8>) -> Scalar;

/// Names the result of `Scalar`'s `Add`: the reduced sum.
pub uninterp spec fn sum_of(a: Scalar, b: Scalar) -> Scalar;

/// Names the result of `Scalar`'s `Sub`: the reduced difference.
pub uninterp spec fn diff_of(a: Scalar, b: Scalar) -> Scalar;

/// Names the result of `Scalar`'s `Mul`: the reduced product.
pub uninterp spec fn prod_of(a: Scalar, b: Scalar) -> Scalar;

/// Names the result of `Scalar`'s `Neg`: the reduced negation.
pub uninterp spec fn neg_of(a: Scalar) -> Scalar;

/// Names the result of `Scalar::invert`.
pub uninterp spec fn inv_of(a: Scalar) -> Scalar;

/// Names the result of `Scalar`'s `Mul<&RistrettoPoint>`.
pub uninterp spec fn smul_of(s: Scalar, p: RistrettoPoint) -> RistrettoPoint;

/// Names the result of `RistrettoPoint::vartime_multiscalar_mul`: the
/// sum of each point scaled by its scalar.
pub uninterp spec fn msm_of(scalars: Seq<Scalar>, points: Seq<RistrettoPoint>) -> RistrettoPoint;

/// Names the result of `RistrettoPoint::compress`.
pub uninterp spec fn compress_of(p: RistrettoPoint) -> Seq<u8>;

/// Names the point that `CompressedRistretto::decompress` accepts.
pub uninterp spec fn decompress_of(b: Seq<u8>) -> RistrettoPoint;

/// Names the result of `RistrettoPoint::from_uniform_bytes`.
pub uninterp spec fn uniform_point_of(b: Seq<u8>) -> RistrettoPoint;

/// Names the state of a merlin transcript as the log of the operations
/// applied to it since `Transcript::new`: one record per operation,
/// `(is_challenge, label, message)`.  Two transcripts driven with the
/// same log are in the same state; this is merlin's sequential,
/// deterministic construction.
pub uninterp spec fn transcript_state(t: Transcript) -> Seq<(bool, Seq<char>, Seq<u8>)>;

/// Names the 64 bytes that `Transcript::challenge_bytes` derives from a
/// given transcript state and label.
pub uninterp spec fn challenge_of(
    state: Seq<(bool, Seq<char>, Seq<u8>)>,
    label: Seq<char>,
) -> Seq<u8>;

/// The little-endian byte encoding of a `u64`, as
/// `Transcript::append_u64` absorbs it.
pub open spec fn u64_le_bytes(x: u64) -> Seq<u8> {
    Seq::new(8, |i: int| (x >> ((8 * i) as u64)) as u8)
}

/// Relies on `Scalar::from`: the value reduced into the scalar field.
#[verifier::external_body]
pub(crate) fn scalar_from_u64(x: u64) -> (r: Scalar)
    ensures
        r == scalar_of_u64(x),
{
    Scalar::from(x)
}

/// Relies on `Scalar::from_bytes_mod_order_wide`: a 64-byte string
/// reduced modulo the group order.
#[verifier::external_body]
pub(crate) fn scalar_from_wide(b: &Vec<u8>) -> (r: Scalar)
    requires
        b@.len() == 64,
    ensures
        r == wide_reduce_of(b@),
{
    let mut arr = [0u8; 64];
    arr.copy_from_slice(&b[..]);
    Scalar::from_bytes_mod_order_wide(&arr)
}

/// Relies on `Scalar::to_bytes`: scalars are kept in canonical reduced
/// form, so their 32-byte encoding is canonical.
#[verifier::external_body]
pub(crate) fn scalar_to_bytes(s: &Scalar) -> (r: Vec<u8>)
    ensures
        r@.len() == 32,
        is_canonical_scalar(r@),
        r@ == scalar_encoding_of(*s),
{
    s.to_bytes().to_vec()
}

/// Relies on `Scalar::from_canonical_bytes`: `Some` exactly on canonical
/// 32-byte encodings.
#[verifier::external_body]
pub(crate) fn scalar_from_canonical(b: &Vec<u8>) -> (r: Option<Scalar>)
    requires
        b@.len() == 32,
    ensures
        r is Some <==> is_canonical_scalar(b@),
        r matches Some(s) ==> s == canonical_scalar_of(b@),
{
    let mut arr = [0u8; 32];
    arr.copy_from_slice(&b[..]);
    Option::from(Scalar::from_canonical_bytes(arr))
}

/// Relies on `Scalar`'s `Add`: field addition modulo the group order.
#[verifier::external_body]
pub(crate) fn scalar_add(a: &Scalar, b: &Scalar) -> (r: Scalar)
    ensures
        r == sum_of(*a, *b),
{
    a + b
}

/// Relies on `Scalar`'s `Sub`: field subtraction modulo the group order.
#[verifier::external_body]
pub(crate) fn scalar_sub(a: &Scalar, b: &Scalar) -> (r: Scalar)
    ensures
        r == diff_of(*a, *b),
{
    a - b
}

/// Relies on `Scalar`'s `Mul`: field multiplication modulo the group order.
#[verifier::external_body]
pub(crate) fn scalar_mul(a: &Scalar, b: &Scalar) -> (r: Scalar)
    ensures
        r == prod_of(*a, *b),
{
    a * b
}

/// Relies on `Scalar`'s `Neg`: field negation modulo the group order.
#[verifier::external_body]
pub(crate) fn scalar_neg(a: &Scalar) -> (r: Scalar)
    ensures
        r == neg_of(*a),
{
    -a
}

/// Relies on `Scalar::invert`: the multiplicative inverse of a nonzero
/// scalar (unspecified for zero; no input panics).
#[verifier::external_body]
pub(crate) fn scalar_invert(a: &Scalar) -> (r: Scalar)
    ensures
        r == inv_of(*a),
{
    a.invert()
}

/// Relies on `rand::thread_rng`: a handle to the thread-local
/// cryptographically secure generator.
#[verifier::external_body]
pub(crate) fn rng_new() -> ThreadRng {
    rand::thread_rng()
}

/// Relies on `Scalar::random`: a scalar drawn from the given secure
/// generator; nothing is promised of its value.
#[verifier::external_body]
pub(crate) fn scalar_random(rng: &mut ThreadRng) -> Scalar {
    Scalar::random(rng)
}

/// Relies on `Scalar`'s `Mul<&RistrettoPoint>`: the scalar multiple of a
/// group element.
#[verifier::external_body]
pub(crate) fn point_mul(s: &Scalar, p: &RistrettoPoint) -> (r: RistrettoPoint)
    ensures
        r == smul_of(*s, *p),
{
    s * p
}

/// Relies on `RistrettoPoint::vartime_multiscalar_mul`: the sum of each
/// point scaled by its scalar.
#[verifier::external_body]
pub(crate) fn msm(scalars: &Vec<Scalar>, points: &Vec<RistrettoPoint>) -> (r: RistrettoPoint)
    requires
        scalars@.len() == points@.len(),
    ensures
        r == msm_of(scalars@, points@),
{
    RistrettoPoint::vartime_multiscalar_mul(scalars.iter(), points.iter())
}

/// Relies on `RistrettoPoint::compress`: the canonical 32-byte encoding
/// of a point, which `decompress` accepts.
#[verifier::external_body]
pub(crate) fn point_compress(p: &RistrettoPoint) -> (r: Vec<u8>)
    ensures
        r@.len() == 32,
        is_point_encoding(r@),
        r@ == compress_of(*p),
{
    p.compress().to_bytes().to_vec()
}

/// Relies on `CompressedRistretto::decompress`: `Some` exactly on
/// canonical 32-byte point encodings.
#[verifier::external_body]
pub(crate) fn point_decompress(b: &Vec<u8>) -> (r: Option<RistrettoPoint>)
    requires
        b@.len() == 32,
    ensures
        r is Some <==> is_point_encoding(b@),
        r matches Some(p) ==> p == decompress_of(b@),
{
    let mut arr = [0u8; 32];
    arr.copy_from_slice(&b[..]);
    CompressedRistretto(arr).decompress()
}

/// Relies on `RistrettoPoint::from_uniform_bytes`: a point derived from
/// a 64-byte string by the Elligator map (a hash to the group).
#[verifier::external_body]
pub(crate) fn point_from_uniform(b: &Vec<u8>) -> (r: RistrettoPoint)
    requires
        b@.len() == 64,
    ensures
        r == uniform_point_of(b@),
{
    let mut arr = [0u8; 64];
    arr.copy_from_slice(&b[..]);
    RistrettoPoint::from_uniform_bytes(&arr)
}

/// Relies on `RISTRETTO_BASEPOINT_POINT`: the fixed Ristretto base
/// point.  (A name for a constant would need a parameter, so nothing
/// further is stated of the value.)
#[verifier::external_body]
pub(crate) fn basepoint() -> RistrettoPoint {
    curve25519_dalek::constants::RISTRETTO_BASEPOINT_POINT
}

/// Relies on `Transcript::new`: a fresh transcript bound to the given
/// domain-separation label.
#[verifier::external_body]
pub(crate) fn t_new(label: &'static str) -> (r: Transcript)
    ensures
        transcript_state(r) == seq![(false, label@, Seq::<u8>::empty())],
{
    Transcript::new(label.as_bytes())
}

/// Relies on `Transcript::append_message`: absorbs the label and message
/// into the transcript state.
#[verifier::external_body]
pub(crate) fn t_append_bytes(t: &mut Transcript, label: &'static str, msg: &Vec<u8>)
    ensures
        transcript_state(*final(t)) == transcript_state(*old(t)).push((false, label@, msg@)),
{
    t.append_message(label.as_bytes(), msg.as_slice())
}

/// Relies on `Transcript::append_u64`: absorbs the label and the
/// little-endian encoding of the integer into the transcript state.
#[verifier::external_body]
pub(crate) fn t_append_u64(t: &mut Transcript, label: &'static str, x: u64)
    ensures
        transcript_state(*final(t)) == transcript_state(*old(t)).push(
            (false, label@, u64_le_bytes(x)),
        ),
{
    t.append_u64(label.as_bytes(), x)
}

/// Relies on `Transcript::challenge_bytes`: 64 challenge bytes derived
/// deterministically from the transcript state and the label, ratcheting
/// the state.
#[verifier::external_body]
pub(crate) fn t_challenge(t: &mut Transcript, label: &'static str) -> (r: Vec<u8>)
    ensures
        r@.len() == 64,
        r@ == challenge_of(transcript_state(*old(t)), label@),
        transcript_state(*final(t)) == transcript_state(*old(t)).push((true, label@, r@)),
{
    let mut buf = [0u8; 64];
    t.challenge_bytes(label.as_bytes(), &mut buf);
    buf.to_vec()
}

} // verus!
