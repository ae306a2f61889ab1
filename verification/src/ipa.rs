//! Shape-only IPA polynomial-commitment backend: it fixes the key, commitment
//! and opening types and answers every cryptographic request with
//! `BackendNotImplemented` after the shape checks.
use vstd::prelude::*;
use vstd::string::StringSliceAdditionalSpecFns;
use crate::field::Scalar;
use crate::multilinear::Multilinear;
use crate::pcs::{validate_opening_point, validate_supported_variables, MultilinearPcs, PcsShapeError};
use crate::transcript::{dom_sep_label, lemma_ascii_label, message_entry, ProofTranscript};
use crate::field::u64_le_bytes;

verus! {

/// Public parameters of the IPA backend.
#[derive(Clone, Copy, Debug, PartialEq, Eq, Structural)]
pub struct IpaPublicParameters {
    pub max_variables: usize,
}

/// Prover key of the IPA backend.
#[derive(Clone, Copy, Debug, PartialEq, Eq, Structural)]
pub struct IpaProverKey {
    pub supported_variables: usize,
}

/// Verifier key of the IPA backend.
#[derive(Clone, Copy, Debug, PartialEq, Eq, Structural)]
pub struct IpaVerifierKey {
    pub supported_variables: usize,
}

/// An IPA commitment: the variable count and the commitment's bytes.
#[derive(Debug, PartialEq, Eq)]
pub struct IpaCommitment {
    pub variables: usize,
    pub commitment_bytes: Vec<u8>,
}

impl Clone for IpaCommitment {
    fn clone(&self) -> (r: IpaCommitment)
        ensures
            r.variables == self.variables,
            r.commitment_bytes@ == self.commitment_bytes@,
    {
        IpaCommitment { variables: self.variables, commitment_bytes: crate::bytes::copy_bytes(self.commitment_bytes.as_slice()) }
    }
}

/// An IPA opening: the claimed value and the proof's bytes.
#[derive(Clone, Debug, PartialEq, Eq)]
pub struct IpaOpening {
    pub claimed_value: Scalar,
    pub proof_bytes: Vec<u8>,
}

#[derive(Clone, Copy, Debug, PartialEq, Eq, Structural)]
pub enum IpaBackendError {
    Shape(PcsShapeError),
    BackendNotImplemented,
}

/// The shape-only IPA backend.
#[derive(Clone, Copy, Debug, PartialEq, Eq, Structural)]
pub struct IpaBackend;

/// The shape error, if any, for a key supporting `supported` variables asked
/// for `requested`.
pub open spec fn supported_check(supported: usize, requested: usize) -> Result<(), IpaBackendError> {
    if requested > supported {
        Err(IpaBackendError::Shape(PcsShapeError::UnsupportedVariableCount { requested, supported }))
    } else {
        Ok(())
    }
}

/// The shape error, if any, for a point of `actual` coordinates where
/// `expected` are needed.
pub open spec fn point_check(expected: usize, actual: usize) -> Result<(), IpaBackendError> {
    if expected != actual {
        Err(IpaBackendError::Shape(PcsShapeError::PointLengthMismatch { expected, actual }))
    } else {
        Ok(())
    }
}

fn supported_shape(supported: usize, requested: usize) -> (r: Result<(), IpaBackendError>)
    ensures
        r == supported_check(supported, requested),
{
    match validate_supported_variables(supported, requested) {
        Ok(()) => Ok(()),
        Err(error) => Err(IpaBackendError::Shape(error)),
    }
}

fn point_length(expected: usize, actual: usize) -> (r: Result<(), IpaBackendError>)
    ensures
        r == point_check(expected, actual),
{
    match validate_opening_point(expected, actual) {
        Ok(()) => Ok(()),
        Err(error) => Err(IpaBackendError::Shape(error)),
    }
}

impl MultilinearPcs for IpaBackend {
    type PublicParameters = IpaPublicParameters;
    type ProverKey = IpaProverKey;
    type VerifierKey = IpaVerifierKey;
    type Commitment = IpaCommitment;
    type Opening = IpaOpening;
    type Error = IpaBackendError;

    open spec fn bindable(commitment: &IpaCommitment) -> bool {
        commitment.commitment_bytes@.len() <= u32::MAX
    }

    fn setup(max_variables: usize) -> (r: Result<IpaPublicParameters, IpaBackendError>)
        ensures
            r == Ok::<IpaPublicParameters, IpaBackendError>(IpaPublicParameters { max_variables }),
    {
        Ok(IpaPublicParameters { max_variables })
    }

    fn trim(public_parameters: &IpaPublicParameters, supported_variables: usize) -> (r: Result<
        (IpaProverKey, IpaVerifierKey),
        IpaBackendError,
    >)
        ensures
            r == (match supported_check(public_parameters.max_variables, supported_variables) {
                Err(error) => Err(error),
                Ok(()) => Ok(
                    (IpaProverKey { supported_variables }, IpaVerifierKey { supported_variables }),
                ),
            }),
    {
        match supported_shape(public_parameters.max_variables, supported_variables) {
            Err(error) => Err(error),
            Ok(()) => Ok((IpaProverKey { supported_variables }, IpaVerifierKey { supported_variables })),
        }
    }

    fn commit(prover_key: &IpaProverKey, polynomial: &Multilinear) -> (r: Result<IpaCommitment, IpaBackendError>)
        ensures
            r matches Err(error) && error == (match supported_check(
                prover_key.supported_variables,
                polynomial.num_variables() as usize,
            ) {
                Err(shape) => shape,
                Ok(()) => IpaBackendError::BackendNotImplemented,
            }),
    {
        match supported_shape(prover_key.supported_variables, polynomial.variables()) {
            Err(error) => Err(error),
            Ok(()) => Err(IpaBackendError::BackendNotImplemented),
        }
    }

    fn bind_commitment<T: ProofTranscript>(commitment: &IpaCommitment, transcript: &mut T)
        ensures
            final(transcript).entries() == old(transcript).entries() + seq![
                message_entry(dom_sep_label(), "snark-lab/ipa-pcs/v1".spec_bytes()),
                message_entry("ipa-commitment-variables".spec_bytes(), u64_le_bytes(commitment.variables as u64)),
                message_entry("ipa-commitment-bytes".spec_bytes(), commitment.commitment_bytes@),
            ],
    {
        proof {
            reveal_strlit("snark-lab/ipa-pcs/v1");
            lemma_ascii_label("snark-lab/ipa-pcs/v1");
        }
        transcript.append_domain_separator("snark-lab/ipa-pcs/v1");
        transcript.append_u64("ipa-commitment-variables", commitment.variables as u64);
        transcript.append_bytes("ipa-commitment-bytes", commitment.commitment_bytes.as_slice());
        assert(final(transcript).entries() =~= old(transcript).entries() + seq![
            message_entry(dom_sep_label(), "snark-lab/ipa-pcs/v1".spec_bytes()),
            message_entry("ipa-commitment-variables".spec_bytes(), u64_le_bytes(commitment.variables as u64)),
            message_entry("ipa-commitment-bytes".spec_bytes(), commitment.commitment_bytes@),
        ]);
    }

    fn open(prover_key: &IpaProverKey, polynomial: &Multilinear, point: &[Scalar]) -> (r: Result<
        IpaOpening,
        IpaBackendError,
    >)
        ensures
            r matches Err(error) && error == (match supported_check(
                prover_key.supported_variables,
                polynomial.num_variables() as usize,
            ) {
                Err(shape) => shape,
                Ok(()) => match point_check(polynomial.num_variables() as usize, point@.len() as usize) {
                    Err(shape) => shape,
                    Ok(()) => IpaBackendError::BackendNotImplemented,
                },
            }),
    {
        match supported_shape(prover_key.supported_variables, polynomial.variables()) {
            Err(error) => Err(error),
            Ok(()) => match point_length(polynomial.variables(), point.len()) {
                Err(error) => Err(error),
                Ok(()) => Err(IpaBackendError::BackendNotImplemented),
            },
        }
    }

    fn verify(
        verifier_key: &IpaVerifierKey,
        commitment: &IpaCommitment,
        point: &[Scalar],
        opening: &IpaOpening,
    ) -> (r: Result<Scalar, IpaBackendError>)
        ensures
            r matches Err(error) && error == (match supported_check(
                verifier_key.supported_variables,
                commitment.variables,
            ) {
                Err(shape) => shape,
                Ok(()) => match point_check(commitment.variables, point@.len() as usize) {
                    Err(shape) => shape,
                    Ok(()) => IpaBackendError::BackendNotImplemented,
                },
            }),
    {
        match supported_shape(verifier_key.supported_variables, commitment.variables) {
            Err(error) => Err(error),
            Ok(()) => match point_length(commitment.variables, point.len()) {
                Err(error) => Err(error),
                Ok(()) => Err(IpaBackendError::BackendNotImplemented),
            },
        }
    }
}

} // verus!
