//! Proving and verifying a blinded IPA opening through the extended relation.
use vstd::prelude::*;
use crate::bytes::{bytes_equal, copy_bytes};
use crate::field::{copy_scalars, scalars_view, Scalar};
use crate::ipa::IpaCommitment;
use crate::ipa_blinding::{
    extend_ipa_opening_for_blinding, extension_outcome, extend_points, padding_plan, plan_padding,
    IpaBlindedOpeningExtension, IpaBlindingExtensionError,
};
use crate::ipa_commitment::{commit_ipa_polynomial, commitment_inputs_check, commitment_point, IpaCommitmentEquationError};
use crate::ipa_curve::{clone_points, curve_basis_check, points_view, IpaCurveGeneratorBasis, IpaCurvePoint, IpaCurvePointError};
use crate::ipa_evaluation::{
    compute_ipa_evaluation_basis, evaluation_basis_of, inner_product, IpaEvaluationBasis, IpaEvaluationBasisError,
};
use crate::ipa_generators::{generator_count, IpaGeneratorBasisError};
use crate::ipa_opening_statement::{IpaOpeningStatement, IpaOpeningStatementError};
use crate::ipa_proof::IpaOpeningProof;
use crate::ipa_prover_opening::{prove_ipa_opening, prover_error_matches, prover_outcome, proof_matches, IpaProverOpeningError, IpaProverOpeningOutput};
use crate::ipa_reduction::scalars_equal;
use crate::ipa_verifier_opening::{opening_verdict_of_parts, verify_ipa_opening, IpaVerifierOpeningError};
use crate::multilinear::Multilinear;
use crate::arith::exact_log2;
use crate::transcript::{ProofTranscript, TranscriptEntry};

verus! {

#[derive(Clone, Copy, Debug, PartialEq, Eq)]
pub enum IpaBlindedPathError {
    BlindingExtension(IpaBlindingExtensionError),
    Commitment(IpaCommitmentEquationError),
    Curve(IpaCurvePointError),
    EvaluationBasis(IpaEvaluationBasisError),
    GeneratorShape(IpaGeneratorBasisError),
    OpeningStatement(IpaOpeningStatementError),
    Prover(IpaProverOpeningError),
    Verifier(IpaVerifierOpeningError),
    CommitmentWitnessMismatch,
    InvalidExtendedPolynomial,
    ExtendedEvaluationBasisMismatch,
    PointVariableMismatch { point_variables: usize, basis_variables: usize },
    VariableOverflow,
    PaddingGeneratorCountMismatch { label: &'static str, expected: usize, actual: usize },
}

/// What the blinded prover needs.
pub struct IpaBlindedProverInput<'a> {
    pub basis: &'a IpaCurveGeneratorBasis,
    pub commitment: IpaCommitment,
    pub polynomial: &'a Multilinear,
    pub point: &'a [Scalar],
    pub claimed_value: Scalar,
    pub commitment_blinding: Scalar,
    pub padding_polynomial_generators: Vec<IpaCurvePoint>,
    pub padding_evaluation_generators: Vec<IpaCurvePoint>,
    pub extended_blinding_generator: IpaCurvePoint,
    pub inner_product_generator: &'a IpaCurvePoint,
}

/// What the blinded verifier needs; it never sees the blinding scalar.
pub struct IpaBlindedVerifierInput<'a> {
    pub basis: &'a IpaCurveGeneratorBasis,
    pub commitment: IpaCommitment,
    pub point: &'a [Scalar],
    pub claimed_value: Scalar,
    pub proof: &'a IpaOpeningProof,
    pub padding_polynomial_generators: Vec<IpaCurvePoint>,
    pub padding_evaluation_generators: Vec<IpaCurvePoint>,
    pub extended_blinding_generator: IpaCurvePoint,
    pub inner_product_generator: &'a IpaCurvePoint,
}

#[derive(Clone, Debug, PartialEq, Eq)]
pub struct IpaBlindedProverOutput {
    pub extension: IpaBlindedOpeningExtension,
    pub extended_statement: IpaOpeningStatement,
    pub prover_output: IpaProverOpeningOutput,
}

/// The opening point extended by a zero coordinate for the blinding slot.
pub fn blinded_extension_point(point: &[Scalar]) -> (r: Vec<Scalar>)
    ensures
        scalars_view(r@) == scalars_view(point@).push(0),
{
    let mut extended = vstd::slice::slice_to_vec(point);
    let ghost before = extended@;
    extended.push(Scalar::zero());
    assert(scalars_view(extended@) =~= scalars_view(before).push(0));
    extended
}

/// The check that a commitment is the commitment of a witness.
pub open spec fn witness_check(
    basis: IpaCurveGeneratorBasis,
    commitment_variables: usize,
    commitment_bytes: Seq<u8>,
    polynomial: Multilinear,
    blinding: nat,
) -> Result<(), IpaBlindedPathError> {
    match commitment_inputs_check(basis, polynomial) {
        Err(error) => Err(IpaBlindedPathError::Commitment(error)),
        Ok(()) => if commitment_variables != polynomial.num_variables() || commitment_bytes != commitment_point(
            basis,
            polynomial@,
            blinding,
        ) {
            Err(IpaBlindedPathError::CommitmentWitnessMismatch)
        } else {
            Ok(())
        },
    }
}

fn validate_commitment_matches_witness(
    basis: &IpaCurveGeneratorBasis,
    commitment: &IpaCommitment,
    polynomial: &Multilinear,
    commitment_blinding: Scalar,
) -> (r: Result<(), IpaBlindedPathError>)
    ensures
        r == witness_check(
            *basis,
            commitment.variables,
            commitment.commitment_bytes@,
            *polynomial,
            commitment_blinding@,
        ),
{
    let curve = match commit_ipa_polynomial(basis, polynomial, commitment_blinding) {
        Err(error) => {
            return Err(IpaBlindedPathError::Commitment(error));
        },
        Ok(curve) => curve,
    };
    let expected = match curve.to_opaque_commitment(polynomial.variables()) {
        Err(error) => {
            return Err(IpaBlindedPathError::Commitment(error));
        },
        Ok(expected) => expected,
    };
    if expected.variables != commitment.variables || !bytes_equal(
        expected.commitment_bytes.as_slice(),
        commitment.commitment_bytes.as_slice(),
    ) {
        return Err(IpaBlindedPathError::CommitmentWitnessMismatch);
    }
    Ok(())
}

/// The generator encodings of the extended basis, or the first failing check.
pub open spec fn extended_basis_outcome(
    basis: IpaCurveGeneratorBasis,
    padding_polynomial: Seq<Seq<u8>>,
    padding_evaluation: Seq<Seq<u8>>,
    extended_blinding: Seq<u8>,
) -> Result<(Seq<Seq<u8>>, Seq<Seq<u8>>), IpaBlindedPathError> {
    match basis.check() {
        Err(error) => Err(IpaBlindedPathError::Curve(error)),
        Ok(()) => match padding_plan(basis.variables) {
            Err(Some(error)) => Err(IpaBlindedPathError::GeneratorShape(error)),
            Err(None) => Err(IpaBlindedPathError::VariableOverflow),
            Ok((_original, polynomial_padding, evaluation_padding)) => if padding_polynomial.len()
                != polynomial_padding {
                Err(
                    IpaBlindedPathError::PaddingGeneratorCountMismatch {
                        label: "polynomial",
                        expected: polynomial_padding,
                        actual: padding_polynomial.len() as usize,
                    },
                )
            } else if padding_evaluation.len() != evaluation_padding {
                Err(
                    IpaBlindedPathError::PaddingGeneratorCountMismatch {
                        label: "evaluation",
                        expected: evaluation_padding,
                        actual: padding_evaluation.len() as usize,
                    },
                )
            } else {
                let polynomial = basis.polynomial_view().push(basis.blinding_generator@) + padding_polynomial;
                let evaluation = basis.evaluation_view() + padding_evaluation;
                match curve_basis_check((basis.variables + 1) as usize, polynomial, evaluation, extended_blinding) {
                    Err(error) => Err(IpaBlindedPathError::Curve(error)),
                    Ok(()) => Ok((polynomial, evaluation)),
                }
            },
        },
    }
}

fn build_extended_generator_basis_for_blinding(
    basis: &IpaCurveGeneratorBasis,
    padding_polynomial_generators: Vec<IpaCurvePoint>,
    padding_evaluation_generators: Vec<IpaCurvePoint>,
    extended_blinding_generator: IpaCurvePoint,
) -> (r: Result<IpaCurveGeneratorBasis, IpaBlindedPathError>)
    ensures
        match extended_basis_outcome(
            *basis,
            points_view(padding_polynomial_generators@),
            points_view(padding_evaluation_generators@),
            extended_blinding_generator@,
        ) {
            Err(error) => r == Err::<IpaCurveGeneratorBasis, IpaBlindedPathError>(error),
            Ok((polynomial, evaluation)) => r matches Ok(extended) && extended.variables == basis.variables + 1
                && extended.polynomial_view() == polynomial && extended.evaluation_view() == evaluation
                && extended.blinding_generator@ == extended_blinding_generator@,
        },
{
    match basis.validate() {
        Err(error) => {
            return Err(IpaBlindedPathError::Curve(error));
        },
        Ok(()) => {},
    }
    let (_original, polynomial_padding, evaluation_padding) = match plan_padding(basis.variables) {
        Err(Some(error)) => {
            return Err(IpaBlindedPathError::GeneratorShape(error));
        },
        Err(None) => {
            return Err(IpaBlindedPathError::VariableOverflow);
        },
        Ok(plan) => plan,
    };
    if padding_polynomial_generators.len() != polynomial_padding {
        return Err(
            IpaBlindedPathError::PaddingGeneratorCountMismatch {
                label: "polynomial",
                expected: polynomial_padding,
                actual: padding_polynomial_generators.len(),
            },
        );
    }
    if padding_evaluation_generators.len() != evaluation_padding {
        return Err(
            IpaBlindedPathError::PaddingGeneratorCountMismatch {
                label: "evaluation",
                expected: evaluation_padding,
                actual: padding_evaluation_generators.len(),
            },
        );
    }
    let mut polynomial_generators = clone_points(basis.polynomial_generators.as_slice());
    let ghost cloned = polynomial_generators@;
    polynomial_generators.push(basis.blinding_generator.clone());
    assert(points_view(polynomial_generators@) =~= points_view(cloned).push(basis.blinding_generator@));
    extend_points(&mut polynomial_generators, padding_polynomial_generators.as_slice());
    let mut evaluation_generators = clone_points(basis.evaluation_generators.as_slice());
    extend_points(&mut evaluation_generators, padding_evaluation_generators.as_slice());
    match IpaCurveGeneratorBasis::new(
        basis.variables + 1,
        polynomial_generators,
        evaluation_generators,
        extended_blinding_generator,
    ) {
        Err(error) => Err(IpaBlindedPathError::Curve(error)),
        Ok(extended) => Ok(extended),
    }
}

/// The outcome of the blinded prover before the ordinary prover runs: the
/// extended table, point and generator encodings.
pub open spec fn blinded_prover_setup(
    basis: IpaCurveGeneratorBasis,
    commitment_variables: usize,
    commitment_bytes: Seq<u8>,
    polynomial: Multilinear,
    point: Seq<nat>,
    blinding: nat,
    padding_polynomial: Seq<Seq<u8>>,
    padding_evaluation: Seq<Seq<u8>>,
    extended_blinding: Seq<u8>,
) -> Result<(Seq<nat>, Seq<Seq<u8>>, Seq<Seq<u8>>), IpaBlindedPathError> {
    if point.len() != basis.variables {
        Err(
            IpaBlindedPathError::PointVariableMismatch {
                point_variables: point.len() as usize,
                basis_variables: basis.variables,
            },
        )
    } else {
        match witness_check(basis, commitment_variables, commitment_bytes, polynomial, blinding) {
            Err(error) => Err(error),
            Ok(()) => match generator_count(point.len() as usize) {
                Err(error) => Err(
                    IpaBlindedPathError::EvaluationBasis(IpaEvaluationBasisError::GeneratorShape(error)),
                ),
                Ok(_) => match extension_outcome(
                    basis,
                    polynomial.num_variables(),
                    polynomial@,
                    point.len() as usize,
                    evaluation_basis_of(point),
                    blinding,
                    padding_polynomial,
                    padding_evaluation,
                    extended_blinding,
                ) {
                    Err(error) => Err(IpaBlindedPathError::BlindingExtension(error)),
                    Ok((table, evaluation_vector, polynomial_generators, evaluation_generators)) => match generator_count(
                        (point.len() + 1) as usize,
                    ) {
                        Err(error) => Err(
                            IpaBlindedPathError::EvaluationBasis(IpaEvaluationBasisError::GeneratorShape(error)),
                        ),
                        Ok(_) => if evaluation_basis_of(point.push(0)) != evaluation_vector {
                            Err(IpaBlindedPathError::ExtendedEvaluationBasisMismatch)
                        } else if exact_log2(table.len()) is None {
                            Err(IpaBlindedPathError::InvalidExtendedPolynomial)
                        } else {
                            Ok((table, polynomial_generators, evaluation_generators))
                        },
                    },
                },
            },
        }
    }
}

/// Two statements with the same parts.
pub open spec fn same_statement(a: IpaOpeningStatement, b: IpaOpeningStatement) -> bool {
    &&& a.commitment.variables == b.commitment.variables
    &&& a.commitment.commitment_bytes@ == b.commitment.commitment_bytes@
    &&& a.point@ == b.point@
    &&& a.claimed_value == b.claimed_value
    &&& a.evaluation_basis.variables == b.evaluation_basis.variables
    &&& a.evaluation_basis.point@ == b.evaluation_basis.point@
    &&& a.evaluation_basis.basis_evaluations@ == b.evaluation_basis.basis_evaluations@
}

/// A copy of a statement, part by part.
fn copy_statement(statement: &IpaOpeningStatement) -> (r: IpaOpeningStatement)
    ensures
        same_statement(r, *statement),
{
    IpaOpeningStatement {
        commitment: statement.commitment.clone(),
        point: copy_scalars(statement.point.as_slice()),
        claimed_value: statement.claimed_value,
        evaluation_basis: IpaEvaluationBasis {
            variables: statement.evaluation_basis.variables,
            point: copy_scalars(statement.evaluation_basis.point.as_slice()),
            basis_evaluations: copy_scalars(statement.evaluation_basis.basis_evaluations.as_slice()),
        },
    }
}

/// Proves a blinded opening by reducing it to the extended ordinary IPA
/// relation, after checking that the commitment matches the witness.
#[verifier::rlimit(40)]
pub fn prove_blinded_ipa_opening<T: ProofTranscript>(input: IpaBlindedProverInput, transcript: &mut T) -> (r: Result<
    IpaBlindedProverOutput,
    IpaBlindedPathError,
>)
    requires
        input.commitment.commitment_bytes@.len() <= u32::MAX,
    ensures
        match blinded_prover_setup(
            *input.basis,
            input.commitment.variables,
            input.commitment.commitment_bytes@,
            *input.polynomial,
            scalars_view(input.point@),
            input.commitment_blinding@,
            points_view(input.padding_polynomial_generators@),
            points_view(input.padding_evaluation_generators@),
            input.extended_blinding_generator@,
        ) {
            Err(error) => r == Err::<IpaBlindedProverOutput, IpaBlindedPathError>(error) && final(transcript).entries()
                == old(transcript).entries(),
            Ok((table, polynomial_generators, evaluation_generators)) => match prover_outcome::<T>(
                old(transcript).entries(),
                (input.basis.variables + 1) as usize,
                polynomial_generators,
                evaluation_generators,
                input.extended_blinding_generator@,
                (input.basis.variables + 1) as usize,
                input.commitment.commitment_bytes@,
                (input.basis.variables + 1) as nat,
                table,
                scalars_view(input.point@).push(0),
                input.claimed_value,
                input.inner_product_generator@,
            ) {
                Err(error) => r matches Err(IpaBlindedPathError::Prover(actual)) && prover_error_matches(
                    actual,
                    error,
                    inner_product(table, evaluation_basis_of(scalars_view(input.point@).push(0))),
                ),
                Ok(summary) => r matches Ok(output) && final(transcript).entries() == summary.0 && proof_matches(
                    output.prover_output.proof,
                    summary,
                    (input.point@.len() + 1) as nat,
                    input.claimed_value,
                ) && same_statement(output.extended_statement, output.prover_output.statement)
                    && output.extension.original_variables == input.basis.variables
                    && output.extension.extended_variables == input.basis.variables + 1
                    && output.extension.commitment_blinding == input.commitment_blinding
                    && scalars_view(output.extension.polynomial_vector@) == table
                    && scalars_view(output.extension.evaluation_vector@) == evaluation_basis_of(
                    scalars_view(input.point@).push(0),
                ) && output.extension.generator_basis.variables == input.basis.variables + 1
                    && output.extension.generator_basis.polynomial_view() == polynomial_generators
                    && output.extension.generator_basis.evaluation_view() == evaluation_generators
                    && output.extension.generator_basis.blinding_generator@ == input.extended_blinding_generator@
                    && output.prover_output.statement.commitment.variables == input.basis.variables + 1
                    && output.prover_output.statement.commitment.commitment_bytes@ == input.commitment.commitment_bytes@
                    && scalars_view(output.prover_output.statement.point@) == scalars_view(input.point@).push(0)
                    && output.prover_output.statement.claimed_value == input.claimed_value
                    && output.prover_output.round_commitments@.len() == input.point@.len() + 1
                    && output.prover_output.final_relation_commitment@ == summary.4
                    && output.prover_output.final_generator_basis.variables == 0
                    && output.prover_output.final_generator_basis.polynomial_view() == seq![summary.6]
                    && output.prover_output.final_generator_basis.evaluation_view() == seq![summary.7]
                    && output.prover_output.final_generator_basis.blinding_generator@ == input.extended_blinding_generator@,
            },
        },
{
    if input.point.len() != input.basis.variables {
        return Err(
            IpaBlindedPathError::PointVariableMismatch {
                point_variables: input.point.len(),
                basis_variables: input.basis.variables,
            },
        );
    }
    match validate_commitment_matches_witness(
        input.basis,
        &input.commitment,
        input.polynomial,
        input.commitment_blinding,
    ) {
        Err(error) => {
            return Err(error);
        },
        Ok(()) => {},
    }
    let original_evaluation_basis = match compute_ipa_evaluation_basis(input.point) {
        Err(error) => {
            return Err(IpaBlindedPathError::EvaluationBasis(error));
        },
        Ok(basis) => basis,
    };
    let extension = match extend_ipa_opening_for_blinding(
        input.basis,
        input.polynomial,
        &original_evaluation_basis,
        input.commitment_blinding,
        input.padding_polynomial_generators,
        input.padding_evaluation_generators,
        input.extended_blinding_generator,
    ) {
        Err(error) => {
            return Err(IpaBlindedPathError::BlindingExtension(error));
        },
        Ok(extension) => extension,
    };
    let extended_point = blinded_extension_point(input.point);
    let extended_evaluation_basis = match compute_ipa_evaluation_basis(extended_point.as_slice()) {
        Err(error) => {
            return Err(IpaBlindedPathError::EvaluationBasis(error));
        },
        Ok(basis) => basis,
    };
    if !scalars_equal(
        extended_evaluation_basis.basis_evaluations.as_slice(),
        extension.evaluation_vector.as_slice(),
    ) {
        return Err(IpaBlindedPathError::ExtendedEvaluationBasisMismatch);
    }
    let extended_polynomial = match Multilinear::new(vstd::slice::slice_to_vec(extension.polynomial_vector.as_slice())) {
        Err(_) => {
            return Err(IpaBlindedPathError::InvalidExtendedPolynomial);
        },
        Ok(polynomial) => polynomial,
    };
    proof {
        crate::arith::lemma_exact_log2_sound(extension.polynomial_vector@.len());
        assert(crate::arith::pow2((input.basis.variables + 1) as nat) == 2 * crate::arith::pow2(
            input.basis.variables as nat,
        ));
        assert(extension.polynomial_vector@.len() == scalars_view(extension.polynomial_vector@).len());
        crate::arith::lemma_exact_log2_pow2((input.basis.variables + 1) as nat);
        assert(extended_polynomial.num_variables() == input.basis.variables + 1);
        assert(extended_point@.len() == scalars_view(extended_point@).len());
    }
    let extended_commitment = IpaCommitment {
        variables: extension.extended_variables,
        commitment_bytes: copy_bytes(input.commitment.commitment_bytes.as_slice()),
    };
    let prover_output = match prove_ipa_opening(
        &extension.generator_basis,
        extended_commitment,
        &extended_polynomial,
        extended_point.as_slice(),
        input.claimed_value,
        input.inner_product_generator,
        transcript,
    ) {
        Err(error) => {
            return Err(IpaBlindedPathError::Prover(error));
        },
        Ok(output) => output,
    };
    let extended_statement = copy_statement(&prover_output.statement);
    Ok(IpaBlindedProverOutput { extension, extended_statement, prover_output })
}

/// The verdict of the blinded verifier.
pub open spec fn blinded_verdict<T: ProofTranscript>(
    entries: Seq<TranscriptEntry>,
    basis: IpaCurveGeneratorBasis,
    commitment_bytes: Seq<u8>,
    point: Seq<nat>,
    claimed: Scalar,
    proof: IpaOpeningProof,
    padding_polynomial: Seq<Seq<u8>>,
    padding_evaluation: Seq<Seq<u8>>,
    extended_blinding: Seq<u8>,
    u: Seq<u8>,
) -> Result<(), IpaBlindedPathError> {
    if point.len() != basis.variables {
        Err(
            IpaBlindedPathError::PointVariableMismatch {
                point_variables: point.len() as usize,
                basis_variables: basis.variables,
            },
        )
    } else {
        match extended_basis_outcome(basis, padding_polynomial, padding_evaluation, extended_blinding) {
            Err(error) => Err(error),
            Ok((polynomial, evaluation)) => match generator_count((point.len() + 1) as usize) {
                Err(error) => Err(
                    IpaBlindedPathError::OpeningStatement(
                        IpaOpeningStatementError::EvaluationBasis(IpaEvaluationBasisError::GeneratorShape(error)),
                    ),
                ),
                Ok(_) => match opening_verdict_of_parts::<T>(
                    entries,
                    ((basis.variables + 1) as usize, polynomial, evaluation, extended_blinding),
                    (
                        (basis.variables + 1) as usize,
                        commitment_bytes,
                        point.push(0),
                        claimed,
                        (basis.variables + 1) as usize,
                        point.push(0),
                        evaluation_basis_of(point.push(0)),
                    ),
                    proof,
                    u,
                ) {
                    Err(error) => Err(IpaBlindedPathError::Verifier(error)),
                    Ok(()) => Ok(()),
                },
            },
        }
    }
}

/// Verifies a blinded opening by rebuilding the extended relation and running
/// the ordinary IPA verifier on it.
pub fn verify_blinded_ipa_opening<T: ProofTranscript>(input: IpaBlindedVerifierInput, transcript: &mut T) -> (r: Result<
    (),
    IpaBlindedPathError,
>)
    requires
        input.commitment.commitment_bytes@.len() <= u32::MAX,
        forall|k: int|
            0 <= k < input.proof.rounds@.len() ==> (#[trigger] input.proof.rounds@[k]).left_commitment_bytes@.len()
                <= u32::MAX && input.proof.rounds@[k].right_commitment_bytes@.len() <= u32::MAX,
    ensures
        r == blinded_verdict::<T>(
            old(transcript).entries(),
            *input.basis,
            input.commitment.commitment_bytes@,
            scalars_view(input.point@),
            input.claimed_value,
            *input.proof,
            points_view(input.padding_polynomial_generators@),
            points_view(input.padding_evaluation_generators@),
            input.extended_blinding_generator@,
            input.inner_product_generator@,
        ),
{
    if input.point.len() != input.basis.variables {
        return Err(
            IpaBlindedPathError::PointVariableMismatch {
                point_variables: input.point.len(),
                basis_variables: input.basis.variables,
            },
        );
    }
    let extended_basis = match build_extended_generator_basis_for_blinding(
        input.basis,
        input.padding_polynomial_generators,
        input.padding_evaluation_generators,
        input.extended_blinding_generator,
    ) {
        Err(error) => {
            return Err(error);
        },
        Ok(extended) => extended,
    };
    let extended_point = blinded_extension_point(input.point);
    assert(extended_point@.len() == scalars_view(extended_point@).len());
    let extended_commitment = IpaCommitment {
        variables: extended_basis.variables,
        commitment_bytes: copy_bytes(input.commitment.commitment_bytes.as_slice()),
    };
    proof {
        if input.point@.len() + 1 < usize::BITS {
            crate::ipa_generators::lemma_pow2_fits_usize((input.point@.len() + 1) as nat);
        }
    }
    let extended_statement = match IpaOpeningStatement::new(extended_commitment, extended_point, input.claimed_value) {
        Err(error) => {
            return Err(IpaBlindedPathError::OpeningStatement(error));
        },
        Ok(statement) => statement,
    };
    let verdict = verify_ipa_opening(
        &extended_basis,
        &extended_statement,
        input.proof,
        input.inner_product_generator,
        transcript,
    );
    match verdict {
        Err(error) => Err(IpaBlindedPathError::Verifier(error)),
        Ok(()) => Ok(()),
    }
}

} // verus!
