//! The Fiat-Shamir challenge engine of the protocol.
//!
//! Prover and verifier drive a `merlin` transcript with the exact same
//! sequence of domain separators, absorbed messages and challenges; a
//! challenge is 64 transcript bytes reduced into the scalar field.  Each
//! operation's effect is stated over the transcript's operation log.

use vstd::prelude::*;

verus! {

use curve25519_dalek::scalar::Scalar;
use merlin::Transcript;
use crate::backend::challenge_of;
use crate::backend::scalar_from_wide;
use crate::backend::t_append_bytes;
use crate::backend::t_append_u64;
use crate::backend::t_challenge;
use crate::backend::transcript_state;
use crate::backend::u64_le_bytes;
use crate::backend::wide_reduce_of;

/// The log of operations applied to a transcript: one record per
/// absorbed message or drawn challenge, `(is_challenge, label, bytes)`.
pub type TranscriptLog = Seq<(bool, Seq<char>, Seq<u8>)>;

/// The scalar a challenge draw yields on a given transcript state.
pub open spec fn challenge_scalar_of(state: TranscriptLog, label: Seq<char>) -> Scalar {
    wide_reduce_of(challenge_of(state, label))
}

/// Binds the transcript to the range-proof protocol and the statement
/// size: `n` bits per value, `m` values.
pub fn range_proof_domain_sep(t: &mut Transcript, n: u64, m: u64)
    ensures
        transcript_state(*final(t)) == transcript_state(*old(t)).push(
            (false, "rangeproof v1 n"@, u64_le_bytes(n)),
        ).push((false, "rangeproof v1 m"@, u64_le_bytes(m))),
{
    t_append_u64(t, "rangeproof v1 n", n);
    t_append_u64(t, "rangeproof v1 m", m);
}

/// Binds the transcript to the inner-product argument and the vector
/// length `k`.
pub fn inner_product_domain_sep(t: &mut Transcript, k: u64)
    ensures
        transcript_state(*final(t)) == transcript_state(*old(t)).push(
            (false, "ipp v1 n"@, u64_le_bytes(k)),
        ),
{
    t_append_u64(t, "ipp v1 n", k);
}

/// Absorbs a 32-byte compressed point under the given label.
pub fn append_point(t: &mut Transcript, label: &'static str, bytes: &Vec<u8>)
    requires
        bytes@.len() == 32,
    ensures
        transcript_state(*final(t)) == transcript_state(*old(t)).push((false, label@, bytes@)),
{
    t_append_bytes(t, label, bytes);
}

/// Absorbs a 32-byte scalar encoding under the given label.
pub fn append_scalar_bytes(t: &mut Transcript, label: &'static str, bytes: &Vec<u8>)
    requires
        bytes@.len() == 32,
    ensures
        transcript_state(*final(t)) == transcript_state(*old(t)).push((false, label@, bytes@)),
{
    t_append_bytes(t, label, bytes);
}

/// Derives a challenge scalar from the current transcript state: the
/// 64 challenge bytes for this state and label, reduced into the field.
pub fn challenge_scalar(t: &mut Transcript, label: &'static str) -> (r: Scalar)
    ensures
        r == challenge_scalar_of(transcript_state(*old(t)), label@),
        transcript_state(*final(t)) == transcript_state(*old(t)).push(
            (true, label@, challenge_of(transcript_state(*old(t)), label@)),
        ),
{
    let b = t_challenge(t, label);
    scalar_from_wide(&b)
}

} // verus!
