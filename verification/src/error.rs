//! The reasons for which a protocol step is rejected.

use vstd::prelude::*;

verus! {

/// Why a protocol step was rejected. A rejected step changes nothing: no
/// token changes hands, and the step may be tried again with fresh
/// randomness.
#[derive(Copy, Clone, Debug, PartialEq, Eq, Structural)]
pub enum Error {
    /// The epoch a message is bound to is not the epoch that was expected, or
    /// is in a state in which the step is not accepted.
    EpochMismatch,
    /// Bytes received in place of a group element are not the encoding of one.
    MalformedPoint,
    /// A proof of knowledge from the client or from the issuer was rejected.
    ProofVerificationFailed,
    /// The proof that a balance fits in 64 bits was rejected, or could not be
    /// made.
    RangeProofFailed,
    /// The nullifier has been presented before.
    NullifierReused,
}

impl Error {
    /// A short description of the rejection.
    pub fn message(&self) -> (text: &'static str)
        ensures
            text@ == (match *self {
                Error::EpochMismatch => "epoch mismatch"@,
                Error::MalformedPoint => "malformed point"@,
                Error::ProofVerificationFailed => "proof verification failed"@,
                Error::RangeProofFailed => "range proof failed"@,
                Error::NullifierReused => "nullifier reused"@,
            }),
    {
        match self {
            Error::EpochMismatch => "epoch mismatch",
            Error::MalformedPoint => "malformed point",
            Error::ProofVerificationFailed => "proof verification failed",
            Error::RangeProofFailed => "range proof failed",
            Error::NullifierReused => "nullifier reused",
        }
    }
}

} // verus!
