//! The verifier of an IPA opening: it replays the round challenges, folds the
//! relation commitment and the basis, and checks the final relation.
use vstd::prelude::*;
use crate::curve::{g1_add, g1_decode, g1_mul, lincomb, linear_combination, GroupElement};
use crate::field::{field_inverse, fmul, scalars_view, Scalar};
use crate::ipa_commitment::{points_of, IpaCommitmentEquationError, IpaCurveCommitment};
use crate::ipa_curve::{curve_basis_check, IpaCurveGeneratorBasis, IpaCurvePoint, IpaCurvePointError};
use crate::ipa_opening_statement::{
    bind_ipa_opening_statement_context, context_entries, statement_context_entries, statement_parts_check,
    validate_ipa_opening_statement, IpaOpeningStatement, IpaOpeningStatementError,
};
use crate::ipa_proof::{proof_shape_check, validate_ipa_opening_proof_shape, IpaOpeningProof, IpaProofShapeError};
use crate::ipa_prover_opening::{after_opening_challenge, derive_round_challenge, final_relation, opening_challenge, opening_round_entries};
use crate::ipa_reduction::{input_length_check, IpaReductionRound, IpaReductionRoundError};
use crate::ipa_round_commitments::{fold_basis_outcome, fold_ipa_generator_basis, IpaGeneratorFoldingError};
use crate::ipa_transcript::{IpaRoundSide, IpaTranscriptError, IpaTranscriptRound};
use crate::transcript::{ProofTranscript, TranscriptEntry};

verus! {

#[derive(Clone, Copy, Debug, PartialEq, Eq)]
pub enum IpaVerifierOpeningError {
    Curve(IpaCurvePointError),
    Commitment(IpaCommitmentEquationError),
    GeneratorFolding(IpaGeneratorFoldingError),
    OpeningStatement(IpaOpeningStatementError),
    ProofShape(IpaProofShapeError),
    Reduction(IpaReductionRoundError),
    BasisVariableMismatch { basis_variables: usize, statement_variables: usize },
    ProofVariableMismatch { proof_variables: usize, statement_variables: usize },
    ProofClaimMismatch { proof_claimed: Scalar, statement_claimed: Scalar },
    GeneratorCountMismatch { expected: usize, actual: usize },
    UnexpectedRoundIndex { expected: usize, actual: usize },
    FinalCommitmentMismatch,
}

/// The verifier's state between rounds: transcript, relation commitment,
/// basis variable count, polynomial and evaluation generators, and the
/// current vector length.
pub type VerifierState = (Seq<TranscriptEntry>, Seq<u8>, usize, Seq<Seq<u8>>, Seq<Seq<u8>>, nat);

/// A round message as its index and its `L` and `R` encodings.
pub open spec fn round_message(round: IpaTranscriptRound) -> (usize, Seq<u8>, Seq<u8>) {
    (round.round_index, round.left_commitment_bytes@, round.right_commitment_bytes@)
}

/// `C + x²·L + x⁻²·R`.
pub open spec fn updated_relation(current: Seq<u8>, left: Seq<u8>, right: Seq<u8>, x: nat) -> Seq<u8> {
    g1_add(
        g1_add(current, g1_mul(left, fmul(x, x))),
        g1_mul(right, fmul(field_inverse(x), field_inverse(x))),
    )
}

/// One verifier round on the message of round `expected`.
#[verifier::opaque]
pub open spec fn verifier_step<T: ProofTranscript>(
    state: VerifierState,
    blinding: Seq<u8>,
    message: (usize, Seq<u8>, Seq<u8>),
    expected: nat,
) -> Result<VerifierState, IpaVerifierOpeningError> {
    let (entries, relation, variables, polynomial, evaluation, length) = state;
    let (index, left, right) = message;
    if index != expected {
        Err(IpaVerifierOpeningError::UnexpectedRoundIndex { expected: expected as usize, actual: index })
    } else {
        let bound = entries + opening_round_entries(expected, length, left, right);
        let x = opening_challenge::<T>(bound);
        match input_length_check(length as usize) {
            Err(error) => Err(IpaVerifierOpeningError::Reduction(error)),
            Ok(()) => if left.len() == 0 {
                Err(
                    IpaVerifierOpeningError::Reduction(
                        IpaReductionRoundError::Transcript(
                            IpaTranscriptError::EmptyRoundCommitment {
                                round_index: expected as usize,
                                side: IpaRoundSide::Left,
                            },
                        ),
                    ),
                )
            } else if right.len() == 0 {
                Err(
                    IpaVerifierOpeningError::Reduction(
                        IpaReductionRoundError::Transcript(
                            IpaTranscriptError::EmptyRoundCommitment {
                                round_index: expected as usize,
                                side: IpaRoundSide::Right,
                            },
                        ),
                    ),
                )
            } else if x == 0 {
                Err(IpaVerifierOpeningError::Reduction(IpaReductionRoundError::ZeroChallenge))
            } else {
                match g1_decode(left) {
                    None => Err(IpaVerifierOpeningError::Commitment(IpaCommitmentEquationError::DeserializationFailed)),
                    Some(left_point) => match g1_decode(right) {
                        None => Err(
                            IpaVerifierOpeningError::Commitment(IpaCommitmentEquationError::DeserializationFailed),
                        ),
                        Some(right_point) => match fold_basis_outcome(variables, polynomial, evaluation, blinding, x) {
                            Err(error) => Err(IpaVerifierOpeningError::GeneratorFolding(error)),
                            Ok((folded_polynomial, folded_evaluation)) => Ok(
                                (
                                    after_opening_challenge::<T>(bound),
                                    updated_relation(relation, left_point, right_point, x),
                                    (variables - 1) as usize,
                                    folded_polynomial,
                                    folded_evaluation,
                                    length / 2,
                                ),
                            ),
                        },
                    },
                }
            }
        }
    }
}

/// The verifier's state after the first `count` rounds, or the first failure.
pub open spec fn verifier_rounds<T: ProofTranscript>(
    start: VerifierState,
    blinding: Seq<u8>,
    messages: Seq<(usize, Seq<u8>, Seq<u8>)>,
    count: nat,
) -> Result<VerifierState, IpaVerifierOpeningError>
    decreases count,
{
    if count == 0 {
        Ok(start)
    } else {
        match verifier_rounds::<T>(start, blinding, messages, (count - 1) as nat) {
            Err(error) => Err(error),
            Ok(state) => verifier_step::<T>(state, blinding, messages[count - 1], (count - 1) as nat),
        }
    }
}

/// The relation commitment the verifier starts from:
/// `C + <eq(z, ·), H> + v·U`.
pub open spec fn initial_relation(
    basis: BasisParts,
    statement: StatementParts,
    u: Seq<u8>,
) -> Result<Seq<u8>, IpaVerifierOpeningError> {
    let (variables, polynomial, evaluation, blinding) = basis;
    let (_commitment_variables, commitment_bytes, point, claimed, _basis_variables, _basis_point, values) = statement;
    match curve_basis_check(variables, polynomial, evaluation, blinding) {
        Err(error) => Err(IpaVerifierOpeningError::Curve(error)),
        Ok(()) => if variables != point.len() {
            Err(
                IpaVerifierOpeningError::BasisVariableMismatch {
                    basis_variables: variables,
                    statement_variables: point.len() as usize,
                },
            )
        } else {
            match g1_decode(commitment_bytes) {
                None => Err(IpaVerifierOpeningError::Commitment(IpaCommitmentEquationError::DeserializationFailed)),
                Some(commitment) => if values.len() != evaluation.len() {
                    Err(
                        IpaVerifierOpeningError::GeneratorCountMismatch {
                            expected: values.len() as usize,
                            actual: evaluation.len() as usize,
                        },
                    )
                } else {
                    Ok(g1_add(g1_add(commitment, lincomb(evaluation, values)), g1_mul(u, claimed@)))
                },
            }
        }
    }
}

/// A generator basis by its parts: variable count, polynomial and
/// evaluation generator encodings, blinding generator encoding.
pub type BasisParts = (usize, Seq<Seq<u8>>, Seq<Seq<u8>>, Seq<u8>);

/// An opening statement by its parts: commitment variable count and bytes,
/// point, claimed value, and the evaluation basis's variable count, point
/// and values.
pub type StatementParts = (usize, Seq<u8>, Seq<nat>, Scalar, usize, Seq<nat>, Seq<nat>);

pub open spec fn basis_parts(basis: IpaCurveGeneratorBasis) -> BasisParts {
    (basis.variables, basis.polynomial_view(), basis.evaluation_view(), basis.blinding_generator@)
}

pub open spec fn statement_parts(statement: IpaOpeningStatement) -> StatementParts {
    (
        statement.commitment.variables,
        statement.commitment.commitment_bytes@,
        scalars_view(statement.point@),
        statement.claimed_value,
        statement.evaluation_basis.variables,
        scalars_view(statement.evaluation_basis.point@),
        scalars_view(statement.evaluation_basis.basis_evaluations@),
    )
}

/// The final checks of a verifier run, given the state after the rounds.
pub open spec fn final_checks(state: VerifierState, blinding: Seq<u8>, proof: IpaOpeningProof, u: Seq<u8>) -> Result<
    (),
    IpaVerifierOpeningError,
> {
    let (_entries, relation, variables, polynomial, evaluation, _length) = state;
    match curve_basis_check(variables, polynomial, evaluation, blinding) {
        Err(error) => Err(IpaVerifierOpeningError::Curve(error)),
        Ok(()) => if polynomial.len() != 1 {
            Err(IpaVerifierOpeningError::GeneratorCountMismatch { expected: 1, actual: polynomial.len() as usize })
        } else if evaluation.len() != 1 {
            Err(IpaVerifierOpeningError::GeneratorCountMismatch { expected: 1, actual: evaluation.len() as usize })
        } else {
            match g1_decode(proof.final_commitment_bytes@) {
                None => Err(IpaVerifierOpeningError::Commitment(IpaCommitmentEquationError::DeserializationFailed)),
                Some(claimed_final) => if relation != claimed_final {
                    Err(IpaVerifierOpeningError::FinalCommitmentMismatch)
                } else if final_relation(
                    polynomial[0],
                    evaluation[0],
                    u,
                    proof.final_polynomial_scalar@,
                    proof.final_evaluation_basis_scalar@,
                ) != claimed_final {
                    Err(IpaVerifierOpeningError::FinalCommitmentMismatch)
                } else {
                    Ok(())
                },
            }
        },
    }
}

/// The verdict of the IPA opening verifier on a statement and a proof given
/// by their parts, with the transcript in state `entries`.
pub open spec fn opening_verdict_of_parts<T: ProofTranscript>(
    entries: Seq<TranscriptEntry>,
    basis: BasisParts,
    statement: StatementParts,
    proof: IpaOpeningProof,
    u: Seq<u8>,
) -> Result<(), IpaVerifierOpeningError> {
    let (commitment_variables, commitment_bytes, point, claimed, basis_variables, basis_point, values) = statement;
    match statement_parts_check(commitment_variables, point, basis_variables, basis_point, values.len()) {
        Err(error) => Err(IpaVerifierOpeningError::OpeningStatement(error)),
        Ok(()) => match proof_shape_check(proof.variables, proof.rounds@.len(), proof.final_commitment_bytes@.len()) {
            Err(error) => Err(IpaVerifierOpeningError::ProofShape(error)),
            Ok(()) => if proof.variables != point.len() {
                Err(
                    IpaVerifierOpeningError::ProofVariableMismatch {
                        proof_variables: proof.variables,
                        statement_variables: point.len() as usize,
                    },
                )
            } else if proof.claimed_value@ != claimed@ {
                Err(
                    IpaVerifierOpeningError::ProofClaimMismatch {
                        proof_claimed: proof.claimed_value,
                        statement_claimed: claimed,
                    },
                )
            } else {
                match initial_relation(basis, statement, u) {
                    Err(error) => Err(error),
                    Ok(relation) => {
                        let start = (
                            entries + context_entries(
                                commitment_variables,
                                commitment_bytes,
                                point,
                                claimed@,
                                basis_variables,
                                basis_point,
                                values,
                            ),
                            relation,
                            basis.0,
                            basis.1,
                            basis.2,
                            values.len(),
                        );
                        match verifier_rounds::<T>(
                            start,
                            basis.3,
                            proof.rounds@.map_values(|round: IpaTranscriptRound| round_message(round)),
                            proof.rounds@.len(),
                        ) {
                            Err(error) => Err(error),
                            Ok(state) => final_checks(state, basis.3, proof, u),
                        }
                    },
                }
            },
        },
    }
}

/// The verdict of the IPA opening verifier on a statement and a proof, with
/// the transcript in state `entries`.
pub open spec fn opening_verdict<T: ProofTranscript>(
    entries: Seq<TranscriptEntry>,
    basis: IpaCurveGeneratorBasis,
    statement: IpaOpeningStatement,
    proof: IpaOpeningProof,
    u: Seq<u8>,
) -> Result<(), IpaVerifierOpeningError> {
    opening_verdict_of_parts::<T>(entries, basis_parts(basis), statement_parts(statement), proof, u)
}

/// The checks the verifier makes before it binds anything: the statement's
/// consistency, the proof's shape, and agreement of the proof with the
/// statement on the variable count and the claimed value.
pub open spec fn opening_precheck(statement: IpaOpeningStatement, proof: IpaOpeningProof) -> bool {
    let (commitment_variables, _bytes, point, claimed, basis_variables, basis_point, values) = statement_parts(
        statement,
    );
    &&& statement_parts_check(commitment_variables, point, basis_variables, basis_point, values.len()) is Ok
    &&& proof_shape_check(proof.variables, proof.rounds@.len(), proof.final_commitment_bytes@.len()) is Ok
    &&& proof.variables == point.len()
    &&& proof.claimed_value@ == claimed@
}

fn initial_relation_commitment(
    basis: &IpaCurveGeneratorBasis,
    statement: &IpaOpeningStatement,
    inner_product_generator: &IpaCurvePoint,
) -> (r: Result<IpaCurveCommitment, IpaVerifierOpeningError>)
    ensures
        match initial_relation(basis_parts(*basis), statement_parts(*statement), inner_product_generator@) {
            Err(error) => r == Err::<IpaCurveCommitment, IpaVerifierOpeningError>(error),
            Ok(relation) => r matches Ok(commitment) && commitment@ == relation,
        },
{
    match basis.validate() {
        Err(error) => {
            return Err(IpaVerifierOpeningError::Curve(error));
        },
        Ok(()) => {},
    }
    if basis.variables != statement.variables() {
        return Err(
            IpaVerifierOpeningError::BasisVariableMismatch {
                basis_variables: basis.variables,
                statement_variables: statement.variables(),
            },
        );
    }
    let commitment = match IpaCurveCommitment::from_compressed_bytes(statement.commitment.commitment_bytes.as_slice()) {
        Err(error) => {
            return Err(IpaVerifierOpeningError::Commitment(error));
        },
        Ok(commitment) => commitment,
    };
    let values = statement.evaluation_basis.basis_evaluations.as_slice();
    if values.len() != basis.evaluation_generators.len() {
        return Err(
            IpaVerifierOpeningError::GeneratorCountMismatch {
                expected: values.len(),
                actual: basis.evaluation_generators.len(),
            },
        );
    }
    let generators = points_of(basis.evaluation_generators.as_slice());
    let relation = commitment.affine().add(&linear_combination(values, generators.as_slice())).add(
        &inner_product_generator.affine().mul(&statement.claimed_value),
    );
    match IpaCurveCommitment::from_projective(relation) {
        Err(error) => Err(IpaVerifierOpeningError::Commitment(error)),
        Ok(commitment) => Ok(commitment),
    }
}

fn update_relation_commitment(
    current: &IpaCurveCommitment,
    left: &IpaCurveCommitment,
    right: &IpaCurveCommitment,
    challenge: Scalar,
) -> (r: Result<IpaCurveCommitment, IpaVerifierOpeningError>)
    ensures
        challenge@ == 0 ==> r == Err::<IpaCurveCommitment, IpaVerifierOpeningError>(
            IpaVerifierOpeningError::Reduction(IpaReductionRoundError::ZeroChallenge),
        ),
        challenge@ != 0 ==> (r matches Ok(updated) && updated@ == updated_relation(
            current@,
            left@,
            right@,
            challenge@,
        )),
{
    let inverse = match challenge.inverse() {
        None => {
            return Err(IpaVerifierOpeningError::Reduction(IpaReductionRoundError::ZeroChallenge));
        },
        Some(inverse) => inverse,
    };
    let squared = challenge.mul(&challenge);
    let inverse_squared = inverse.mul(&inverse);
    let updated = current.affine().add(&left.affine().mul(&squared)).add(&right.affine().mul(&inverse_squared));
    match IpaCurveCommitment::from_projective(updated) {
        Err(error) => Err(IpaVerifierOpeningError::Commitment(error)),
        Ok(commitment) => Ok(commitment),
    }
}

fn verifier_round<T: ProofTranscript>(
    transcript: &mut T,
    relation: &IpaCurveCommitment,
    current: &IpaCurveGeneratorBasis,
    length: usize,
    round: &IpaTranscriptRound,
    expected: usize,
) -> (r: Result<(IpaCurveCommitment, IpaCurveGeneratorBasis), IpaVerifierOpeningError>)
    requires
        round.left_commitment_bytes@.len() <= u32::MAX,
        round.right_commitment_bytes@.len() <= u32::MAX,
    ensures
        match verifier_step::<T>(
            (
                old(transcript).entries(),
                relation@,
                current.variables,
                current.polynomial_view(),
                current.evaluation_view(),
                length as nat,
            ),
            current.blinding_generator@,
            round_message(*round),
            expected as nat,
        ) {
            Err(error) => r == Err::<(IpaCurveCommitment, IpaCurveGeneratorBasis), IpaVerifierOpeningError>(error),
            Ok((entries, next_relation, variables, polynomial, evaluation, next_length)) => r matches Ok(
                (updated, folded),
            ) && final(transcript).entries() == entries && updated@ == next_relation && folded.variables == variables
                && folded.polynomial_view() == polynomial && folded.evaluation_view() == evaluation
                && folded.blinding_generator@ == current.blinding_generator@ && next_length == length / 2,
        },
{
    proof {
        reveal(verifier_step);
    }
    if round.round_index != expected {
        return Err(IpaVerifierOpeningError::UnexpectedRoundIndex { expected, actual: round.round_index });
    }
    let challenge = derive_round_challenge(transcript, expected, length, round);
    let left_bytes = crate::bytes::copy_bytes(round.left_commitment_bytes.as_slice());
    let right_bytes = crate::bytes::copy_bytes(round.right_commitment_bytes.as_slice());
    match IpaReductionRound::new(expected, left_bytes, right_bytes, challenge, length) {
        Err(error) => {
            return Err(IpaVerifierOpeningError::Reduction(error));
        },
        Ok(_) => {},
    }
    let left = match IpaCurveCommitment::from_compressed_bytes(round.left_commitment_bytes.as_slice()) {
        Err(error) => {
            return Err(IpaVerifierOpeningError::Commitment(error));
        },
        Ok(commitment) => commitment,
    };
    let right = match IpaCurveCommitment::from_compressed_bytes(round.right_commitment_bytes.as_slice()) {
        Err(error) => {
            return Err(IpaVerifierOpeningError::Commitment(error));
        },
        Ok(commitment) => commitment,
    };
    let updated = match update_relation_commitment(relation, &left, &right, challenge) {
        Err(error) => {
            return Err(error);
        },
        Ok(updated) => updated,
    };
    let folded = match fold_ipa_generator_basis(current, challenge) {
        Err(error) => {
            return Err(IpaVerifierOpeningError::GeneratorFolding(error));
        },
        Ok(folded) => folded,
    };
    Ok((updated, folded))
}

/// Once a round fails, later round counts report that failure.
pub proof fn lemma_verifier_rounds_stay_failed<T: ProofTranscript>(
    start: VerifierState,
    blinding: Seq<u8>,
    messages: Seq<(usize, Seq<u8>, Seq<u8>)>,
    failed: nat,
    count: nat,
)
    requires
        failed <= count,
        verifier_rounds::<T>(start, blinding, messages, failed) is Err,
    ensures
        verifier_rounds::<T>(start, blinding, messages, count) == verifier_rounds::<T>(start, blinding, messages, failed),
    decreases count,
{
    if failed < count {
        lemma_verifier_rounds_stay_failed::<T>(start, blinding, messages, failed, (count - 1) as nat);
    }
}

fn run_verifier_rounds<T: ProofTranscript>(
    transcript: &mut T,
    relation: IpaCurveCommitment,
    basis: &IpaCurveGeneratorBasis,
    length: usize,
    rounds: &[IpaTranscriptRound],
) -> (r: Result<(IpaCurveCommitment, IpaCurveGeneratorBasis), IpaVerifierOpeningError>)
    requires
        forall|k: int|
            0 <= k < rounds@.len() ==> (#[trigger] rounds@[k]).left_commitment_bytes@.len() <= u32::MAX
                && rounds@[k].right_commitment_bytes@.len() <= u32::MAX,
    ensures
        match verifier_rounds::<T>(
            (
                old(transcript).entries(),
                relation@,
                basis.variables,
                basis.polynomial_view(),
                basis.evaluation_view(),
                length as nat,
            ),
            basis.blinding_generator@,
            rounds@.map_values(|round: IpaTranscriptRound| round_message(round)),
            rounds@.len(),
        ) {
            Err(error) => r == Err::<(IpaCurveCommitment, IpaCurveGeneratorBasis), IpaVerifierOpeningError>(error),
            Ok((entries, final_relation, variables, polynomial, evaluation, _length)) => r matches Ok(
                (updated, folded),
            ) && final(transcript).entries() == entries && updated@ == final_relation && folded.variables == variables
                && folded.polynomial_view() == polynomial && folded.evaluation_view() == evaluation
                && folded.blinding_generator@ == basis.blinding_generator@,
        },
{
    let ghost blinding = basis.blinding_generator@;
    let ghost messages = rounds@.map_values(|round: IpaTranscriptRound| round_message(round));
    let ghost start: VerifierState = (
        old(transcript).entries(),
        relation@,
        basis.variables,
        basis.polynomial_view(),
        basis.evaluation_view(),
        length as nat,
    );
    let mut current_relation = relation;
    let mut current = basis.clone();
    let mut current_length = length;
    let mut index: usize = 0;
    while index < rounds.len()
        invariant
            index <= rounds@.len(),
            messages == rounds@.map_values(|round: IpaTranscriptRound| round_message(round)),
            blinding == basis.blinding_generator@,
            current.blinding_generator@ == blinding,
            start == (
                old(transcript).entries(),
                relation@,
                basis.variables,
                basis.polynomial_view(),
                basis.evaluation_view(),
                length as nat,
            ),
            forall|k: int|
                0 <= k < rounds@.len() ==> (#[trigger] rounds@[k]).left_commitment_bytes@.len() <= u32::MAX
                    && rounds@[k].right_commitment_bytes@.len() <= u32::MAX,
            verifier_rounds::<T>(start, blinding, messages, index as nat) == Ok::<
                VerifierState,
                IpaVerifierOpeningError,
            >(
                (
                    transcript.entries(),
                    current_relation@,
                    current.variables,
                    current.polynomial_view(),
                    current.evaluation_view(),
                    current_length as nat,
                ),
            ),
        decreases rounds@.len() - index,
    {
        assert(messages[index as int] == round_message(rounds@[index as int]));
        let (updated, folded) = match verifier_round(
            transcript,
            &current_relation,
            &current,
            current_length,
            &rounds[index],
            index,
        ) {
            Err(error) => {
                proof {
                    assert(verifier_rounds::<T>(start, blinding, messages, (index + 1) as nat) == Err::<
                        VerifierState,
                        IpaVerifierOpeningError,
                    >(error));
                    lemma_verifier_rounds_stay_failed::<T>(
                        start,
                        blinding,
                        messages,
                        (index + 1) as nat,
                        rounds@.len(),
                    );
                }
                return Err(error);
            },
            Ok(state) => state,
        };
        current_relation = updated;
        current = folded;
        current_length = current_length / 2;
        index = index + 1;
    }
    Ok((current_relation, current))
}

fn final_relation_commitment(
    basis: &IpaCurveGeneratorBasis,
    final_polynomial_scalar: Scalar,
    final_evaluation_basis_scalar: Scalar,
    inner_product_generator: &IpaCurvePoint,
) -> (r: Result<IpaCurveCommitment, IpaVerifierOpeningError>)
    ensures
        match basis.check() {
            Err(error) => r == Err::<IpaCurveCommitment, IpaVerifierOpeningError>(IpaVerifierOpeningError::Curve(error)),
            Ok(()) => if basis.polynomial_view().len() != 1 {
                r == Err::<IpaCurveCommitment, IpaVerifierOpeningError>(
                    IpaVerifierOpeningError::GeneratorCountMismatch {
                        expected: 1,
                        actual: basis.polynomial_view().len() as usize,
                    },
                )
            } else if basis.evaluation_view().len() != 1 {
                r == Err::<IpaCurveCommitment, IpaVerifierOpeningError>(
                    IpaVerifierOpeningError::GeneratorCountMismatch {
                        expected: 1,
                        actual: basis.evaluation_view().len() as usize,
                    },
                )
            } else {
                r matches Ok(commitment) && commitment@ == final_relation(
                    basis.polynomial_view()[0],
                    basis.evaluation_view()[0],
                    inner_product_generator@,
                    final_polynomial_scalar@,
                    final_evaluation_basis_scalar@,
                )
            },
        },
{
    match basis.validate() {
        Err(error) => {
            return Err(IpaVerifierOpeningError::Curve(error));
        },
        Ok(()) => {},
    }
    if basis.polynomial_generators.len() != 1 {
        return Err(
            IpaVerifierOpeningError::GeneratorCountMismatch { expected: 1, actual: basis.polynomial_generators.len() },
        );
    }
    if basis.evaluation_generators.len() != 1 {
        return Err(
            IpaVerifierOpeningError::GeneratorCountMismatch { expected: 1, actual: basis.evaluation_generators.len() },
        );
    }
    let product = final_polynomial_scalar.mul(&final_evaluation_basis_scalar);
    let relation = basis.polynomial_generators[0].affine().mul(&final_polynomial_scalar).add(
        &basis.evaluation_generators[0].affine().mul(&final_evaluation_basis_scalar),
    ).add(&inner_product_generator.affine().mul(&product));
    match IpaCurveCommitment::from_projective(relation) {
        Err(error) => Err(IpaVerifierOpeningError::Commitment(error)),
        Ok(commitment) => Ok(commitment),
    }
}

/// Verifies an IPA opening proof against a public statement; on success the
/// folded relation commitment equals both the proof's final commitment and
/// the final relation recomputed from the proof's final scalars.
#[verifier::rlimit(60)]
pub fn verify_ipa_opening<T: ProofTranscript>(
    basis: &IpaCurveGeneratorBasis,
    statement: &IpaOpeningStatement,
    proof: &IpaOpeningProof,
    inner_product_generator: &IpaCurvePoint,
    transcript: &mut T,
) -> (r: Result<(), IpaVerifierOpeningError>)
    requires
        statement.commitment.commitment_bytes@.len() <= u32::MAX,
        forall|k: int|
            0 <= k < proof.rounds@.len() ==> (#[trigger] proof.rounds@[k]).left_commitment_bytes@.len() <= u32::MAX
                && proof.rounds@[k].right_commitment_bytes@.len() <= u32::MAX,
    ensures
        r == opening_verdict::<T>(old(transcript).entries(), *basis, *statement, *proof, inner_product_generator@),
        !opening_precheck(*statement, *proof) ==> final(transcript).entries() == old(transcript).entries(),
{
    match validate_ipa_opening_statement(statement) {
        Err(error) => {
            return Err(IpaVerifierOpeningError::OpeningStatement(error));
        },
        Ok(()) => {},
    }
    match validate_ipa_opening_proof_shape(proof) {
        Err(error) => {
            return Err(IpaVerifierOpeningError::ProofShape(error));
        },
        Ok(()) => {},
    }
    if proof.variables != statement.variables() {
        return Err(
            IpaVerifierOpeningError::ProofVariableMismatch {
                proof_variables: proof.variables,
                statement_variables: statement.variables(),
            },
        );
    }
    if !proof.claimed_value.equals(&statement.claimed_value) {
        return Err(
            IpaVerifierOpeningError::ProofClaimMismatch {
                proof_claimed: proof.claimed_value,
                statement_claimed: statement.claimed_value,
            },
        );
    }
    match bind_ipa_opening_statement_context(transcript, statement) {
        Err(error) => {
            return Err(IpaVerifierOpeningError::OpeningStatement(error));
        },
        Ok(()) => {},
    }
    let relation = match initial_relation_commitment(basis, statement, inner_product_generator) {
        Err(error) => {
            return Err(error);
        },
        Ok(relation) => relation,
    };
    let length = statement.evaluation_basis.basis_evaluations.len();
    let (current_relation, current) = match run_verifier_rounds(
        transcript,
        relation,
        basis,
        length,
        proof.rounds.as_slice(),
    ) {
        Err(error) => {
            return Err(error);
        },
        Ok(state) => state,
    };
    let expected_final = match final_relation_commitment(
        &current,
        proof.final_polynomial_scalar,
        proof.final_evaluation_basis_scalar,
        inner_product_generator,
    ) {
        Err(error) => {
            return Err(error);
        },
        Ok(commitment) => commitment,
    };
    let proof_final = match IpaCurveCommitment::from_compressed_bytes(proof.final_commitment_bytes.as_slice()) {
        Err(error) => {
            return Err(IpaVerifierOpeningError::Commitment(error));
        },
        Ok(commitment) => commitment,
    };
    if !current_relation.affine().equals(&proof_final.affine()) {
        return Err(IpaVerifierOpeningError::FinalCommitmentMismatch);
    }
    if !expected_final.affine().equals(&proof_final.affine()) {
        return Err(IpaVerifierOpeningError::FinalCommitmentMismatch);
    }
    Ok(())
}

/// The verifier's state before its rounds: the transcript after binding the
/// statement, the initial relation commitment, and the full basis.
pub open spec fn verifier_start(
    entries: Seq<TranscriptEntry>,
    basis: BasisParts,
    statement: StatementParts,
    relation: Seq<u8>,
) -> VerifierState {
    let (commitment_variables, commitment_bytes, point, claimed, basis_variables, basis_point, values) = statement;
    (
        entries + context_entries(
            commitment_variables,
            commitment_bytes,
            point,
            claimed@,
            basis_variables,
            basis_point,
            values,
        ),
        relation,
        basis.0,
        basis.1,
        basis.2,
        values.len(),
    )
}

/// An accepted opening closes the relation: the proof agrees with the
/// statement on variable count and claimed value, and the relation
/// commitment obtained by folding `C + <eq, H> + v·U` through the round
/// messages (`C' = C + x²·L + x⁻²·R`) is the proof's final commitment and
/// equals `a·G + b·H + (a·b)·U` over the single folded generators `G`, `H`
/// and the proof's final scalars `a`, `b`.
pub proof fn lemma_accepted_opening_closes_relation<T: ProofTranscript>(
    entries: Seq<TranscriptEntry>,
    basis: BasisParts,
    statement: StatementParts,
    proof: IpaOpeningProof,
    u: Seq<u8>,
)
    requires
        opening_verdict_of_parts::<T>(entries, basis, statement, proof, u) is Ok,
    ensures
        proof.variables == statement.2.len(),
        proof.claimed_value@ == statement.3@,
        match initial_relation(basis, statement, u) {
            Err(_) => false,
            Ok(relation) => match verifier_rounds::<T>(
                verifier_start(entries, basis, statement, relation),
                basis.3,
                proof.rounds@.map_values(|round: IpaTranscriptRound| round_message(round)),
                proof.rounds@.len(),
            ) {
                Err(_) => false,
                Ok(state) => {
                    &&& state.3.len() == 1
                    &&& state.4.len() == 1
                    &&& g1_decode(proof.final_commitment_bytes@) == Some(state.1)
                    &&& state.1 == g1_add(
                        g1_add(
                            g1_mul(state.3[0], proof.final_polynomial_scalar@),
                            g1_mul(state.4[0], proof.final_evaluation_basis_scalar@),
                        ),
                        g1_mul(u, fmul(proof.final_polynomial_scalar@, proof.final_evaluation_basis_scalar@)),
                    )
                },
            },
        },
{
}

} // verus!
