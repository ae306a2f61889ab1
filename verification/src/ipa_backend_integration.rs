//! The integrated IPA backend: exact-size keys, a hiding commitment, and
//! opening and verification through the blinded path.
use vstd::prelude::*;
use crate::field::{scalars_view, Scalar};
use crate::ipa::IpaCommitment;
use crate::ipa_blinded_path::{
    blinded_prover_setup, blinded_verdict, prove_blinded_ipa_opening, verify_blinded_ipa_opening, IpaBlindedPathError,
    IpaBlindedProverInput, IpaBlindedVerifierInput,
};
use crate::ipa_blinding::{padding_plan, plan_padding};
use crate::ipa_commitment::{commit_ipa_polynomial, commitment_inputs_check, commitment_point, IpaCommitmentEquationError};
use crate::ipa_curve::{clone_points, points_view, IpaCurveGeneratorBasis, IpaCurvePoint, IpaCurvePointError};
use crate::ipa_evaluation::{evaluation_basis_of, inner_product};
use crate::ipa_generators::IpaGeneratorBasisError;
use crate::ipa_proof::IpaOpeningProof;
use crate::ipa_prover_opening::{proof_matches, prover_error_matches, prover_outcome};
use crate::multilinear::{evaluate_table, Multilinear};
use crate::pcs::{validate_opening_point, validate_supported_variables, PcsShapeError};
use crate::transcript::ProofTranscript;

verus! {

#[derive(Clone, Copy, Debug, PartialEq, Eq)]
pub enum IpaBackendIntegrationError {
    Shape(PcsShapeError),
    Commitment(IpaCommitmentEquationError),
    Curve(IpaCurvePointError),
    GeneratorShape(IpaGeneratorBasisError),
    BlindedPath(IpaBlindedPathError),
    EvaluationFailed,
    KeyVariableMismatch { key_variables: usize, polynomial_variables: usize },
    CommitmentVariableMismatch { key_variables: usize, commitment_variables: usize },
    PaddingGeneratorCountMismatch { label: &'static str, expected: usize, actual: usize },
    VariableOverflow,
}

/// Prover key of the integrated backend: exact-size generator material.
#[derive(Clone, Debug, PartialEq, Eq)]
pub struct IpaIntegratedProverKey {
    pub supported_variables: usize,
    pub basis: IpaCurveGeneratorBasis,
    pub inner_product_generator: IpaCurvePoint,
    pub padding_polynomial_generators: Vec<IpaCurvePoint>,
    pub padding_evaluation_generators: Vec<IpaCurvePoint>,
    pub extended_blinding_generator: IpaCurvePoint,
}

/// Verifier key of the integrated backend: public generator material only.
#[derive(Clone, Debug, PartialEq, Eq)]
pub struct IpaIntegratedVerifierKey {
    pub supported_variables: usize,
    pub basis: IpaCurveGeneratorBasis,
    pub inner_product_generator: IpaCurvePoint,
    pub padding_polynomial_generators: Vec<IpaCurvePoint>,
    pub padding_evaluation_generators: Vec<IpaCurvePoint>,
    pub extended_blinding_generator: IpaCurvePoint,
}

pub type IpaIntegratedKeyPair = (IpaIntegratedProverKey, IpaIntegratedVerifierKey);

/// A commitment with the prover's secret blinding scalar.
#[derive(Clone, Debug, PartialEq, Eq)]
pub struct IpaIntegratedCommitmentWitness {
    pub commitment: IpaCommitment,
    pub blinding: Scalar,
}

/// An opening of the integrated backend.
#[derive(Clone, Debug, PartialEq, Eq)]
pub struct IpaIntegratedOpening {
    pub claimed_value: Scalar,
    pub proof: IpaOpeningProof,
}

/// The check that a key supports exactly the polynomial's variable count.
pub open spec fn exact_variables_check(supported: usize, variables: usize) -> Result<(), IpaBackendIntegrationError> {
    if variables > supported {
        Err(
            IpaBackendIntegrationError::Shape(
                PcsShapeError::UnsupportedVariableCount { requested: variables, supported },
            ),
        )
    } else if supported != variables {
        Err(IpaBackendIntegrationError::KeyVariableMismatch { key_variables: supported, polynomial_variables: variables })
    } else {
        Ok(())
    }
}

fn validate_exact_variables(supported_variables: usize, polynomial_variables: usize) -> (r: Result<
    (),
    IpaBackendIntegrationError,
>)
    ensures
        r == exact_variables_check(supported_variables, polynomial_variables),
{
    match validate_supported_variables(supported_variables, polynomial_variables) {
        Err(error) => {
            return Err(IpaBackendIntegrationError::Shape(error));
        },
        Ok(()) => {},
    }
    if supported_variables != polynomial_variables {
        return Err(
            IpaBackendIntegrationError::KeyVariableMismatch { key_variables: supported_variables, polynomial_variables },
        );
    }
    Ok(())
}

/// The checks of key material: a valid basis and padding of the right sizes.
pub open spec fn key_material_check(
    basis: IpaCurveGeneratorBasis,
    padding_polynomial: nat,
    padding_evaluation: nat,
) -> Result<(), IpaBackendIntegrationError> {
    match basis.check() {
        Err(error) => Err(IpaBackendIntegrationError::Curve(error)),
        Ok(()) => match padding_plan(basis.variables) {
            Err(Some(error)) => Err(IpaBackendIntegrationError::GeneratorShape(error)),
            Err(None) => Err(IpaBackendIntegrationError::VariableOverflow),
            Ok((_original, polynomial_padding, evaluation_padding)) => if padding_polynomial != polynomial_padding {
                Err(
                    IpaBackendIntegrationError::PaddingGeneratorCountMismatch {
                        label: "polynomial",
                        expected: polynomial_padding,
                        actual: padding_polynomial as usize,
                    },
                )
            } else if padding_evaluation != evaluation_padding {
                Err(
                    IpaBackendIntegrationError::PaddingGeneratorCountMismatch {
                        label: "evaluation",
                        expected: evaluation_padding,
                        actual: padding_evaluation as usize,
                    },
                )
            } else {
                Ok(())
            },
        },
    }
}

fn validate_key_material(
    basis: &IpaCurveGeneratorBasis,
    padding_polynomial_generators: &[IpaCurvePoint],
    padding_evaluation_generators: &[IpaCurvePoint],
) -> (r: Result<(), IpaBackendIntegrationError>)
    ensures
        r == key_material_check(*basis, padding_polynomial_generators@.len(), padding_evaluation_generators@.len()),
{
    match basis.validate() {
        Err(error) => {
            return Err(IpaBackendIntegrationError::Curve(error));
        },
        Ok(()) => {},
    }
    let (_original, polynomial_padding, evaluation_padding) = match plan_padding(basis.variables) {
        Err(Some(error)) => {
            return Err(IpaBackendIntegrationError::GeneratorShape(error));
        },
        Err(None) => {
            return Err(IpaBackendIntegrationError::VariableOverflow);
        },
        Ok(plan) => plan,
    };
    if padding_polynomial_generators.len() != polynomial_padding {
        return Err(
            IpaBackendIntegrationError::PaddingGeneratorCountMismatch {
                label: "polynomial",
                expected: polynomial_padding,
                actual: padding_polynomial_generators.len(),
            },
        );
    }
    if padding_evaluation_generators.len() != evaluation_padding {
        return Err(
            IpaBackendIntegrationError::PaddingGeneratorCountMismatch {
                label: "evaluation",
                expected: evaluation_padding,
                actual: padding_evaluation_generators.len(),
            },
        );
    }
    Ok(())
}

/// Builds exact-size prover and verifier keys from supplied generator
/// material, after checking its shape.
pub fn trim_ipa_integrated_keys(
    basis: IpaCurveGeneratorBasis,
    inner_product_generator: IpaCurvePoint,
    padding_polynomial_generators: Vec<IpaCurvePoint>,
    padding_evaluation_generators: Vec<IpaCurvePoint>,
    extended_blinding_generator: IpaCurvePoint,
) -> (r: Result<IpaIntegratedKeyPair, IpaBackendIntegrationError>)
    ensures
        match key_material_check(basis, padding_polynomial_generators@.len(), padding_evaluation_generators@.len()) {
            Err(error) => r == Err::<IpaIntegratedKeyPair, IpaBackendIntegrationError>(error),
            Ok(()) => r matches Ok((prover_key, verifier_key)) && prover_key.supported_variables == basis.variables
                && verifier_key.supported_variables == basis.variables && prover_key.basis.variables == basis.variables
                && prover_key.basis.polynomial_view() == basis.polynomial_view()
                && prover_key.basis.evaluation_view() == basis.evaluation_view()
                && prover_key.basis.blinding_generator@ == basis.blinding_generator@ && verifier_key.basis == basis
                && prover_key.inner_product_generator@ == inner_product_generator@
                && verifier_key.inner_product_generator == inner_product_generator
                && points_view(prover_key.padding_polynomial_generators@) == points_view(
                padding_polynomial_generators@,
            ) && points_view(prover_key.padding_evaluation_generators@) == points_view(
                padding_evaluation_generators@,
            ) && verifier_key.padding_polynomial_generators == padding_polynomial_generators
                && verifier_key.padding_evaluation_generators == padding_evaluation_generators
                && prover_key.extended_blinding_generator@ == extended_blinding_generator@
                && verifier_key.extended_blinding_generator == extended_blinding_generator,
        },
{
    match validate_key_material(
        &basis,
        padding_polynomial_generators.as_slice(),
        padding_evaluation_generators.as_slice(),
    ) {
        Err(error) => {
            return Err(error);
        },
        Ok(()) => {},
    }
    let prover_key = IpaIntegratedProverKey {
        supported_variables: basis.variables,
        basis: basis.clone(),
        inner_product_generator: inner_product_generator.clone(),
        padding_polynomial_generators: clone_points(padding_polynomial_generators.as_slice()),
        padding_evaluation_generators: clone_points(padding_evaluation_generators.as_slice()),
        extended_blinding_generator: extended_blinding_generator.clone(),
    };
    let verifier_key = IpaIntegratedVerifierKey {
        supported_variables: basis.variables,
        basis,
        inner_product_generator,
        padding_polynomial_generators,
        padding_evaluation_generators,
        extended_blinding_generator,
    };
    Ok((prover_key, verifier_key))
}

/// Commits with an explicit hiding blinding scalar.
pub fn commit_ipa_backend(prover_key: &IpaIntegratedProverKey, polynomial: &Multilinear, blinding: Scalar) -> (r: Result<
    IpaIntegratedCommitmentWitness,
    IpaBackendIntegrationError,
>)
    ensures
        match exact_variables_check(prover_key.supported_variables, polynomial.num_variables() as usize) {
            Err(error) => r == Err::<IpaIntegratedCommitmentWitness, IpaBackendIntegrationError>(error),
            Ok(()) => match commitment_inputs_check(prover_key.basis, *polynomial) {
                Err(error) => r == Err::<IpaIntegratedCommitmentWitness, IpaBackendIntegrationError>(
                    IpaBackendIntegrationError::Commitment(error),
                ),
                Ok(()) => r matches Ok(witness) && witness.blinding == blinding && witness.commitment.variables
                    == polynomial.num_variables() && witness.commitment.commitment_bytes@ == commitment_point(
                    prover_key.basis,
                    polynomial@,
                    blinding@,
                ) && witness.commitment.commitment_bytes@.len() == 48,
            },
        },
{
    match validate_exact_variables(prover_key.supported_variables, polynomial.variables()) {
        Err(error) => {
            return Err(error);
        },
        Ok(()) => {},
    }
    let curve = match commit_ipa_polynomial(&prover_key.basis, polynomial, blinding) {
        Err(error) => {
            return Err(IpaBackendIntegrationError::Commitment(error));
        },
        Ok(curve) => curve,
    };
    let commitment = match curve.to_opaque_commitment(polynomial.variables()) {
        Err(error) => {
            return Err(IpaBackendIntegrationError::Commitment(error));
        },
        Ok(commitment) => commitment,
    };
    Ok(IpaIntegratedCommitmentWitness { commitment, blinding })
}

/// Opens a commitment through the blinded IPA path.
#[verifier::rlimit(40)]
pub fn open_ipa_backend<T: ProofTranscript>(
    prover_key: &IpaIntegratedProverKey,
    witness: &IpaIntegratedCommitmentWitness,
    polynomial: &Multilinear,
    point: &[Scalar],
    transcript: &mut T,
) -> (r: Result<IpaIntegratedOpening, IpaBackendIntegrationError>)
    requires
        witness.commitment.commitment_bytes@.len() <= u32::MAX,
    ensures
        match exact_variables_check(prover_key.supported_variables, polynomial.num_variables() as usize) {
            Err(error) => r == Err::<IpaIntegratedOpening, IpaBackendIntegrationError>(error),
            Ok(()) => if polynomial.num_variables() != point@.len() {
                r == Err::<IpaIntegratedOpening, IpaBackendIntegrationError>(
                    IpaBackendIntegrationError::Shape(
                        PcsShapeError::PointLengthMismatch {
                            expected: polynomial.num_variables() as usize,
                            actual: point@.len() as usize,
                        },
                    ),
                )
            } else {
                exists|claimed: Scalar|
                    claimed@ == evaluate_table(polynomial@, scalars_view(point@)) && match blinded_prover_setup(
                        prover_key.basis,
                        witness.commitment.variables,
                        witness.commitment.commitment_bytes@,
                        *polynomial,
                        scalars_view(point@),
                        witness.blinding@,
                        points_view(prover_key.padding_polynomial_generators@),
                        points_view(prover_key.padding_evaluation_generators@),
                        prover_key.extended_blinding_generator@,
                    ) {
                        Err(error) => r == Err::<IpaIntegratedOpening, IpaBackendIntegrationError>(
                            IpaBackendIntegrationError::BlindedPath(error),
                        ),
                        Ok((table, polynomial_generators, evaluation_generators)) => match prover_outcome::<T>(
                            old(transcript).entries(),
                            (prover_key.basis.variables + 1) as usize,
                            polynomial_generators,
                            evaluation_generators,
                            prover_key.extended_blinding_generator@,
                            (prover_key.basis.variables + 1) as usize,
                            witness.commitment.commitment_bytes@,
                            (prover_key.basis.variables + 1) as nat,
                            table,
                            scalars_view(point@).push(0),
                            claimed,
                            prover_key.inner_product_generator@,
                        ) {
                            Err(error) => r matches Err(
                                IpaBackendIntegrationError::BlindedPath(IpaBlindedPathError::Prover(actual)),
                            ) && prover_error_matches(
                                actual,
                                error,
                                inner_product(table, evaluation_basis_of(scalars_view(point@).push(0))),
                            ),
                            Ok(summary) => r matches Ok(opening) && opening.claimed_value == claimed
                                && final(transcript).entries() == summary.0 && proof_matches(
                                opening.proof,
                                summary,
                                (point@.len() + 1) as nat,
                                claimed,
                            ),
                        },
                    }
            },
        },
{
    match validate_exact_variables(prover_key.supported_variables, polynomial.variables()) {
        Err(error) => {
            return Err(error);
        },
        Ok(()) => {},
    }
    match validate_opening_point(polynomial.variables(), point.len()) {
        Err(error) => {
            return Err(IpaBackendIntegrationError::Shape(error));
        },
        Ok(()) => {},
    }
    let claimed_value = match polynomial.evaluate(point) {
        Err(_) => {
            return Err(IpaBackendIntegrationError::EvaluationFailed);
        },
        Ok(value) => value,
    };
    let input = IpaBlindedProverInput {
        basis: &prover_key.basis,
        commitment: witness.commitment.clone(),
        polynomial,
        point,
        claimed_value,
        commitment_blinding: witness.blinding,
        padding_polynomial_generators: clone_points(prover_key.padding_polynomial_generators.as_slice()),
        padding_evaluation_generators: clone_points(prover_key.padding_evaluation_generators.as_slice()),
        extended_blinding_generator: prover_key.extended_blinding_generator.clone(),
        inner_product_generator: &prover_key.inner_product_generator,
    };
    let output = match prove_blinded_ipa_opening(input, transcript) {
        Err(error) => {
            return Err(IpaBackendIntegrationError::BlindedPath(error));
        },
        Ok(output) => output,
    };
    Ok(IpaIntegratedOpening { claimed_value, proof: output.prover_output.proof })
}

/// Verifies an opening through the blinded IPA verifier; on success the
/// opened value is returned.
pub fn verify_ipa_backend<T: ProofTranscript>(
    verifier_key: &IpaIntegratedVerifierKey,
    commitment: &IpaCommitment,
    point: &[Scalar],
    opening: &IpaIntegratedOpening,
    transcript: &mut T,
) -> (r: Result<Scalar, IpaBackendIntegrationError>)
    requires
        commitment.commitment_bytes@.len() <= u32::MAX,
        forall|k: int|
            0 <= k < opening.proof.rounds@.len() ==> (#[trigger] opening.proof.rounds@[k]).left_commitment_bytes@.len()
                <= u32::MAX && opening.proof.rounds@[k].right_commitment_bytes@.len() <= u32::MAX,
    ensures
        commitment.variables > verifier_key.supported_variables ==> r == Err::<Scalar, IpaBackendIntegrationError>(
            IpaBackendIntegrationError::Shape(
                PcsShapeError::UnsupportedVariableCount {
                    requested: commitment.variables,
                    supported: verifier_key.supported_variables,
                },
            ),
        ),
        commitment.variables <= verifier_key.supported_variables && commitment.variables != point@.len() ==> r == Err::<
            Scalar,
            IpaBackendIntegrationError,
        >(
            IpaBackendIntegrationError::Shape(
                PcsShapeError::PointLengthMismatch { expected: commitment.variables, actual: point@.len() as usize },
            ),
        ),
        commitment.variables < verifier_key.supported_variables && commitment.variables == point@.len() ==> r == Err::<
            Scalar,
            IpaBackendIntegrationError,
        >(
            IpaBackendIntegrationError::CommitmentVariableMismatch {
                key_variables: verifier_key.supported_variables,
                commitment_variables: commitment.variables,
            },
        ),
        commitment.variables == verifier_key.supported_variables && commitment.variables == point@.len() ==> match blinded_verdict::<T>(
            old(transcript).entries(),
            verifier_key.basis,
            commitment.commitment_bytes@,
            scalars_view(point@),
            opening.claimed_value,
            opening.proof,
            points_view(verifier_key.padding_polynomial_generators@),
            points_view(verifier_key.padding_evaluation_generators@),
            verifier_key.extended_blinding_generator@,
            verifier_key.inner_product_generator@,
        ) {
            Err(error) => r == Err::<Scalar, IpaBackendIntegrationError>(IpaBackendIntegrationError::BlindedPath(error)),
            Ok(()) => r == Ok::<Scalar, IpaBackendIntegrationError>(opening.claimed_value),
        },
{
    match validate_supported_variables(verifier_key.supported_variables, commitment.variables) {
        Err(error) => {
            return Err(IpaBackendIntegrationError::Shape(error));
        },
        Ok(()) => {},
    }
    match validate_opening_point(commitment.variables, point.len()) {
        Err(error) => {
            return Err(IpaBackendIntegrationError::Shape(error));
        },
        Ok(()) => {},
    }
    if commitment.variables != verifier_key.supported_variables {
        return Err(
            IpaBackendIntegrationError::CommitmentVariableMismatch {
                key_variables: verifier_key.supported_variables,
                commitment_variables: commitment.variables,
            },
        );
    }
    let input = IpaBlindedVerifierInput {
        basis: &verifier_key.basis,
        commitment: commitment.clone(),
        point,
        claimed_value: opening.claimed_value,
        proof: &opening.proof,
        padding_polynomial_generators: clone_points(verifier_key.padding_polynomial_generators.as_slice()),
        padding_evaluation_generators: clone_points(verifier_key.padding_evaluation_generators.as_slice()),
        extended_blinding_generator: verifier_key.extended_blinding_generator.clone(),
        inner_product_generator: &verifier_key.inner_product_generator,
    };
    match verify_blinded_ipa_opening(input, transcript) {
        Err(error) => Err(IpaBackendIntegrationError::BlindedPath(error)),
        Ok(()) => Ok(opening.claimed_value),
    }
}

} // verus!
