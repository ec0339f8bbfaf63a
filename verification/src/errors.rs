//! Error taxonomy of the library.
//!
//! Configuration faults are detected before any cryptographic work and
//! always reported; encoding faults are detected while reading proof
//! bytes; a failed verification equation is a normal outcome reported as
//! a value, never a panic.

use vstd::prelude::*;

verus! {

/// Why a proof could not be constructed.
#[derive(Clone, Copy, Debug, PartialEq, Eq, Structural)]
pub enum ProofError {
    /// The bit length is not one of the supported powers of two.
    InvalidBitsize,
    /// The number of values is zero, not a power of two, or does not
    /// match the number of blinding factors.
    InvalidAggregation,
    /// The generator set does not cover `n` bits or `m` parties.
    GeneratorCapacityExceeded,
}

/// Why a proof did not verify.
#[derive(Clone, Copy, Debug, PartialEq, Eq, Structural)]
pub enum VerifyError {
    /// The bit length is not one of the supported powers of two.
    InvalidBitsize,
    /// The number of commitments is zero or not a power of two.
    InvalidAggregation,
    /// The generator set does not cover `n` bits or `m` parties.
    GeneratorCapacityExceeded,
    /// A component of the proof is malformed: a wrong field length, a
    /// point encoding that does not decompress, a non-canonical scalar,
    /// an identity protocol commitment, or an inner-product round count
    /// that does not fit the statement.
    InvalidEncoding,
    /// The proof is well formed but its aggregated identity does not
    /// hold for these commitments.
    ProofMismatch,
}

} // verus!
