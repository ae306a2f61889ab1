//! Shape checks shared by polynomial-commitment backends, and the backend
//! interface.
use vstd::prelude::*;
use crate::field::Scalar;
use crate::multilinear::Multilinear;
use crate::transcript::ProofTranscript;

verus! {

/// Shape-level validation errors shared by polynomial-commitment backends.
#[derive(Clone, Copy, Debug, PartialEq, Eq, Structural)]
pub enum PcsShapeError {
    UnsupportedVariableCount { requested: usize, supported: usize },
    PointLengthMismatch { expected: usize, actual: usize },
}

/// Checks that a backend key supports the requested number of variables.
pub fn validate_supported_variables(supported: usize, requested: usize) -> (r: Result<(), PcsShapeError>)
    ensures
        r == (if requested > supported {
            Err(PcsShapeError::UnsupportedVariableCount { requested, supported })
        } else {
            Ok(())
        }),
{
    if requested > supported {
        return Err(PcsShapeError::UnsupportedVariableCount { requested, supported });
    }
    Ok(())
}

/// Checks that an opening point has one coordinate per variable.
pub fn validate_opening_point(expected: usize, actual: usize) -> (r: Result<(), PcsShapeError>)
    ensures
        r == (if expected != actual {
            Err(PcsShapeError::PointLengthMismatch { expected, actual })
        } else {
            Ok(())
        }),
{
    if expected != actual {
        return Err(PcsShapeError::PointLengthMismatch { expected, actual });
    }
    Ok(())
}

/// Backend-side interface of a multilinear polynomial commitment scheme:
/// parameter generation, key separation, commitment, transcript binding,
/// opening, and verification of an opening.
pub trait MultilinearPcs {
    type PublicParameters;
    type ProverKey;
    type VerifierKey;
    type Commitment;
    type Opening;
    type Error;

    /// Creates public parameters supporting up to `max_variables` variables.
    fn setup(max_variables: usize) -> Result<Self::PublicParameters, Self::Error>;

    /// Splits public parameters into prover and verifier keys.
    fn trim(public_parameters: &Self::PublicParameters, supported_variables: usize) -> Result<
        (Self::ProverKey, Self::VerifierKey),
        Self::Error,
    >;

    /// Commits to the full multilinear evaluation table.
    fn commit(prover_key: &Self::ProverKey, polynomial: &Multilinear) -> Result<Self::Commitment, Self::Error>;

    /// Whether a commitment can be framed into a transcript.
    spec fn bindable(commitment: &Self::Commitment) -> bool;

    /// Binds the commitment into the Fiat–Shamir transcript.
    fn bind_commitment<T: ProofTranscript>(commitment: &Self::Commitment, transcript: &mut T)
        requires
            Self::bindable(commitment),
    ;

    /// Opens the committed polynomial at `point`.
    fn open(prover_key: &Self::ProverKey, polynomial: &Multilinear, point: &[Scalar]) -> Result<
        Self::Opening,
        Self::Error,
    >;

    /// Verifies an opening and returns the opened value.
    fn verify(
        verifier_key: &Self::VerifierKey,
        commitment: &Self::Commitment,
        point: &[Scalar],
        opening: &Self::Opening,
    ) -> Result<Scalar, Self::Error>;
}

} // verus!
