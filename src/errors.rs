//! Errors of the signature schemes and of the key generation protocol.
use vstd::prelude::*;

use crate::algebra::G1;

verus! {

/// The equation of the algebraic signature that failed to hold.
#[derive(Debug, Clone, Copy, PartialEq, Eq)]
pub enum VerifyProofEquation {
    Eq1,
    Eq2,
    Eq3,
    EqAllProbabilistic,
    EqProbabilistic,
}

impl VerifyProofEquation {
    /// The name of the equation.
    pub fn name(&self) -> (r: &'static str)
        ensures
            r@ == match *self {
                VerifyProofEquation::Eq1 => "Eq1"@,
                VerifyProofEquation::Eq2 => "Eq2"@,
                VerifyProofEquation::Eq3 => "Eq3"@,
                VerifyProofEquation::EqAllProbabilistic => "EqAllProbabilistic"@,
                VerifyProofEquation::EqProbabilistic => "EqProbabilistic"@,
            },
    {
        match self {
            VerifyProofEquation::Eq1 => "Eq1",
            VerifyProofEquation::Eq2 => "Eq2",
            VerifyProofEquation::Eq3 => "Eq3",
            VerifyProofEquation::EqAllProbabilistic => "EqAllProbabilistic",
            VerifyProofEquation::EqProbabilistic => "EqProbabilistic",
        }
    }
}

/// Failures of the signature schemes.
#[derive(Debug, Clone, Copy, PartialEq, Eq)]
pub enum SignatureError {
    SRSSetupError,
    AlgebraicVerifyProof(VerifyProofEquation),
    BLSVerify,
    SchnorrVerify,
    SignatureDoesNotHaveInverse,
    SRSDifferent,
    SerializationError,
    /// The lengths of the public keys, messages and signatures handed to a
    /// batch verification.
    BatchVerification(usize, usize, usize),
    /// Hashing into a group drew no usable point within its bound of
    /// attempts.
    HashAttemptsExhausted,
}

/// Failures of the key generation protocol.
#[derive(Debug, Clone, PartialEq, Eq)]
pub enum DKGError {
    RatioIncorrect,
    /// The value of the polynomial-degree check, which should have been the
    /// identity.
    EvaluationsCheckError(G1),
    EvaluationDomainError,
    /// The lengths of the share's coefficient commitments, evaluations and
    /// encrypted evaluations, which must be the degree, the number of
    /// participants and the number of participants.
    ShareLengthsIncorrect(usize, usize, usize),
    DifferentSRS,
    SignatureError(SignatureError),
    SerializationError,
    InvalidParticipantId(usize),
    /// Degrees and numbers of participants of the two transcripts:
    /// `(self.degree, other.degree, self.num_participants, other.num_participants)`.
    TranscriptDifferentConfig(usize, usize, usize, usize),
    TranscriptDifferentCommitments,
}

impl DKGError {
    /// Wraps a failure of a signature scheme.
    pub fn from_signature(e: SignatureError) -> (r: DKGError)
        ensures
            r == DKGError::SignatureError(e),
    {
        DKGError::SignatureError(e)
    }
}

} // verus!
