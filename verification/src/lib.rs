//! Aggregated zero-knowledge range proofs over the Ristretto group.
//!
//! The library proves that one or more Pedersen-committed values lie in
//! `[0, 2^n)` without revealing them, and lets anyone verify such a proof
//! from the public commitments and the proof bytes alone.  Group and
//! scalar-field arithmetic come from `curve25519-dalek`, the Fiat-Shamir
//! transcript from `merlin`, and blinding randomness from `rand`; the
//! protocol logic, its error behaviour and the byte encoding are specified
//! and verified here.

pub mod backend;
pub mod errors;
pub mod util;
pub mod scalars;
pub mod transcript;
pub mod generators;
pub mod inner_product;
pub mod range_proof;
pub mod codec;
