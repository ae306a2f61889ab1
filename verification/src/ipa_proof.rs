//! The layout of an IPA opening proof and its shape check.
use vstd::prelude::*;
use crate::field::Scalar;
use crate::ipa_transcript::{validate_ipa_round_count, expected_ipa_rounds, IpaTranscriptError, IpaTranscriptRound};

verus! {

#[derive(Clone, Copy, Debug, PartialEq, Eq)]
pub enum IpaProofShapeError {
    Transcript(IpaTranscriptError),
    EmptyFinalCommitment,
}

/// An IPA opening proof: one round message per variable, the final scalars
/// and the encoding of the final relation commitment.
#[derive(Clone, Debug, PartialEq, Eq)]
pub struct IpaOpeningProof {
    pub variables: usize,
    pub claimed_value: Scalar,
    pub rounds: Vec<IpaTranscriptRound>,
    pub final_polynomial_scalar: Scalar,
    pub final_evaluation_basis_scalar: Scalar,
    pub final_commitment_bytes: Vec<u8>,
}

/// The shape check of a proof with the given variable count, round count and
/// final commitment length.
pub open spec fn proof_shape_check(variables: usize, rounds: nat, final_commitment_len: nat) -> Result<
    (),
    IpaProofShapeError,
> {
    if variables != rounds {
        Err(
            IpaProofShapeError::Transcript(
                IpaTranscriptError::RoundCountMismatch { expected: variables, actual: rounds as usize },
            ),
        )
    } else if final_commitment_len == 0 {
        Err(IpaProofShapeError::EmptyFinalCommitment)
    } else {
        Ok(())
    }
}

impl IpaOpeningProof {
    pub fn new(
        variables: usize,
        claimed_value: Scalar,
        rounds: Vec<IpaTranscriptRound>,
        final_polynomial_scalar: Scalar,
        final_evaluation_basis_scalar: Scalar,
        final_commitment_bytes: Vec<u8>,
    ) -> (r: Result<IpaOpeningProof, IpaProofShapeError>)
        ensures
            match proof_shape_check(variables, rounds@.len(), final_commitment_bytes@.len()) {
                Err(error) => r == Err::<IpaOpeningProof, IpaProofShapeError>(error),
                Ok(()) => r == Ok::<IpaOpeningProof, IpaProofShapeError>(
                    IpaOpeningProof {
                        variables,
                        claimed_value,
                        rounds,
                        final_polynomial_scalar,
                        final_evaluation_basis_scalar,
                        final_commitment_bytes,
                    },
                ),
            },
    {
        match validate_ipa_round_count(variables, rounds.len()) {
            Err(error) => {
                return Err(IpaProofShapeError::Transcript(error));
            },
            Ok(()) => {},
        }
        if final_commitment_bytes.len() == 0 {
            return Err(IpaProofShapeError::EmptyFinalCommitment);
        }
        Ok(
            IpaOpeningProof {
                variables,
                claimed_value,
                rounds,
                final_polynomial_scalar,
                final_evaluation_basis_scalar,
                final_commitment_bytes,
            },
        )
    }

    pub fn expected_rounds(&self) -> (r: usize)
        ensures
            r == self.variables,
    {
        expected_ipa_rounds(self.variables)
    }
}

pub fn validate_ipa_opening_proof_shape(proof: &IpaOpeningProof) -> (r: Result<(), IpaProofShapeError>)
    ensures
        r == proof_shape_check(proof.variables, proof.rounds@.len(), proof.final_commitment_bytes@.len()),
{
    match validate_ipa_round_count(proof.variables, proof.rounds.len()) {
        Err(error) => {
            return Err(IpaProofShapeError::Transcript(error));
        },
        Ok(()) => {},
    }
    if proof.final_commitment_bytes.len() == 0 {
        return Err(IpaProofShapeError::EmptyFinalCommitment);
    }
    Ok(())
}

} // verus!
