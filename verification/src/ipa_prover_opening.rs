//! The prover's IPA opening loop: bind the statement, then per round compute
//! `L` and `R`, derive the challenge, and fold the vectors and the basis.
use vstd::prelude::*;
use vstd::string::StringSliceAdditionalSpecFns;
use crate::curve::{g1_add, g1_mul};
use crate::field::{fmul, field_inverse, le_nat, modulus, scalars_view, u64_le_bytes, Scalar};
use crate::ipa::IpaCommitment;
use crate::ipa_commitment::{IpaCommitmentEquationError, IpaCurveCommitment};
use crate::ipa_curve::{curve_basis_check, IpaCurveGeneratorBasis, IpaCurvePoint, IpaCurvePointError};
use crate::ipa_evaluation::{evaluation_basis_of, inner_product, IpaEvaluationBasisError};
use crate::ipa_opening_statement::{
    bind_ipa_opening_statement_context, context_entries, opening_statement_from_witness,
    statement_from_witness_check, IpaOpeningStatement, IpaOpeningStatementError,
};
use crate::ipa_proof::{IpaOpeningProof, IpaProofShapeError};
use crate::ipa_reduction::{fold_halves, fold_ipa_evaluation_vector, fold_ipa_polynomial_vector, IpaReductionRoundError};
use crate::ipa_round_commitments::{
    compute_ipa_round_commitments, fold_basis_outcome, fold_ipa_generator_basis, left_round_commitment,
    right_round_commitment, round_inputs_check, IpaGeneratorFoldingError, IpaRoundCommitmentError,
    IpaRoundCommitments,
};
use crate::ipa_transcript::IpaTranscriptRound;
use crate::multilinear::Multilinear;
use crate::transcript::{challenge_entry, dom_sep_label, lemma_ascii_label, message_entry, modulus_le_bytes, ProofTranscript, TranscriptEntry};
use crate::arith::pow2;

verus! {

#[derive(Clone, Copy, Debug, PartialEq, Eq)]
pub enum IpaProverOpeningError {
    Curve(IpaCurvePointError),
    Commitment(IpaCommitmentEquationError),
    EvaluationBasis(IpaEvaluationBasisError),
    OpeningStatement(IpaOpeningStatementError),
    ProofShape(IpaProofShapeError),
    Reduction(IpaReductionRoundError),
    RoundCommitment(IpaRoundCommitmentError),
    GeneratorFolding(IpaGeneratorFoldingError),
    EmptyFinalVector,
    FinalGeneratorCountMismatch { polynomial_generators: usize, evaluation_generators: usize },
}

/// What a round appends before its challenge is drawn.
pub open spec fn opening_round_entries(round_index: nat, input_length: nat, left: Seq<u8>, right: Seq<u8>) -> Seq<
    TranscriptEntry,
> {
    seq![
        message_entry(dom_sep_label(), "snark-lab/ipa-prover-opening-round/v1".spec_bytes()),
        message_entry("field-modulus".spec_bytes(), modulus_le_bytes()),
        message_entry("ipa-prover-opening-round-index".spec_bytes(), u64_le_bytes(round_index as u64)),
        message_entry("ipa-prover-opening-input-length".spec_bytes(), u64_le_bytes(input_length as u64)),
        message_entry("ipa-prover-opening-left-commitment".spec_bytes(), left),
        message_entry("ipa-prover-opening-right-commitment".spec_bytes(), right),
    ]
}

/// The round challenge a transcript yields after `bound`.
pub open spec fn opening_challenge<T: ProofTranscript>(bound: Seq<TranscriptEntry>) -> nat {
    le_nat(T::challenge_output(bound, "ipa-prover-opening-challenge".spec_bytes())) % modulus()
}

/// The transcript after the round challenge is drawn.
pub open spec fn after_opening_challenge<T: ProofTranscript>(bound: Seq<TranscriptEntry>) -> Seq<TranscriptEntry> {
    bound.push(
        challenge_entry(
            "ipa-prover-opening-challenge".spec_bytes(),
            T::challenge_output(bound, "ipa-prover-opening-challenge".spec_bytes()),
        ),
    )
}

/// Binds one round's messages and derives its challenge.
pub fn derive_round_challenge<T: ProofTranscript>(
    transcript: &mut T,
    round_index: usize,
    input_length: usize,
    transcript_round: &IpaTranscriptRound,
) -> (r: Scalar)
    requires
        transcript_round.left_commitment_bytes@.len() <= u32::MAX,
        transcript_round.right_commitment_bytes@.len() <= u32::MAX,
    ensures
        ({
            let bound = old(transcript).entries() + opening_round_entries(
                round_index as nat,
                input_length as nat,
                transcript_round.left_commitment_bytes@,
                transcript_round.right_commitment_bytes@,
            );
            &&& r@ == opening_challenge::<T>(bound)
            &&& final(transcript).entries() == after_opening_challenge::<T>(bound)
        }),
{
    proof {
        reveal_strlit("snark-lab/ipa-prover-opening-round/v1");
        lemma_ascii_label("snark-lab/ipa-prover-opening-round/v1");
    }
    transcript.append_domain_separator("snark-lab/ipa-prover-opening-round/v1");
    transcript.append_field_modulus();
    transcript.append_u64("ipa-prover-opening-round-index", round_index as u64);
    transcript.append_u64("ipa-prover-opening-input-length", input_length as u64);
    transcript.append_bytes("ipa-prover-opening-left-commitment", transcript_round.left_commitment_bytes.as_slice());
    transcript.append_bytes("ipa-prover-opening-right-commitment", transcript_round.right_commitment_bytes.as_slice());
    assert(transcript.entries() =~= old(transcript).entries() + opening_round_entries(
        round_index as nat,
        input_length as nat,
        transcript_round.left_commitment_bytes@,
        transcript_round.right_commitment_bytes@,
    ));
    transcript.challenge_scalar("ipa-prover-opening-challenge")
}

/// The prover's state between rounds: transcript, witness vector, evaluation
/// vector, basis variable count, polynomial and evaluation generators, and
/// the `(L, R)` encodings sent so far.
pub type ProverState = (
    Seq<TranscriptEntry>,
    Seq<nat>,
    Seq<nat>,
    usize,
    Seq<Seq<u8>>,
    Seq<Seq<u8>>,
    Seq<(Seq<u8>, Seq<u8>)>,
);

/// One prover round: the next transcript, vectors, basis, and the round's
/// `L` and `R` encodings, or the first failure.
#[verifier::opaque]
pub open spec fn round_outcome<T: ProofTranscript>(
    entries: Seq<TranscriptEntry>,
    a: Seq<nat>,
    b: Seq<nat>,
    variables: usize,
    polynomial: Seq<Seq<u8>>,
    evaluation: Seq<Seq<u8>>,
    blinding: Seq<u8>,
    u: Seq<u8>,
    round_index: nat,
) -> Result<
    (Seq<TranscriptEntry>, Seq<nat>, Seq<nat>, usize, Seq<Seq<u8>>, Seq<Seq<u8>>, Seq<u8>, Seq<u8>),
    IpaProverOpeningError,
> {
    match round_inputs_check(variables, polynomial, evaluation, blinding, a, b) {
        Err(error) => Err(IpaProverOpeningError::RoundCommitment(error)),
        Ok(()) => {
            let left = left_round_commitment(polynomial, evaluation, a, b, u);
            let right = right_round_commitment(polynomial, evaluation, a, b, u);
            let bound = entries + opening_round_entries(round_index, a.len(), left, right);
            let x = opening_challenge::<T>(bound);
            if x == 0 {
                Err(
                    IpaProverOpeningError::RoundCommitment(
                        IpaRoundCommitmentError::Reduction(IpaReductionRoundError::ZeroChallenge),
                    ),
                )
            } else {
                match fold_basis_outcome(variables, polynomial, evaluation, blinding, x) {
                    Err(error) => Err(IpaProverOpeningError::GeneratorFolding(error)),
                    Ok((folded_polynomial, folded_evaluation)) => Ok(
                        (
                            after_opening_challenge::<T>(bound),
                            fold_halves(a, x, field_inverse(x)),
                            fold_halves(b, field_inverse(x), x),
                            (variables - 1) as usize,
                            folded_polynomial,
                            folded_evaluation,
                            left,
                            right,
                        ),
                    ),
                }
            }
        },
    }
}

/// One prover round from `state`, with blinding generator `blinding` and
/// inner-product generator `u`.
pub open spec fn prover_step<T: ProofTranscript>(state: ProverState, blinding: Seq<u8>, u: Seq<u8>) -> Result<
    ProverState,
    IpaProverOpeningError,
> {
    let (entries, a, b, variables, polynomial, evaluation, rounds) = state;
    match round_outcome::<T>(entries, a, b, variables, polynomial, evaluation, blinding, u, rounds.len()) {
        Err(error) => Err(error),
        Ok((next, next_a, next_b, next_variables, next_polynomial, next_evaluation, left, right)) => Ok(
            (next, next_a, next_b, next_variables, next_polynomial, next_evaluation, rounds.push((left, right))),
        ),
    }
}

/// The prover's state after `count` rounds, or the first failure.
pub open spec fn prover_rounds<T: ProofTranscript>(start: ProverState, blinding: Seq<u8>, u: Seq<u8>, count: nat) -> Result<
    ProverState,
    IpaProverOpeningError,
>
    decreases count,
{
    if count == 0 {
        Ok(start)
    } else {
        match prover_rounds::<T>(start, blinding, u, (count - 1) as nat) {
            Err(error) => Err(error),
            Ok(state) => prover_step::<T>(state, blinding, u),
        }
    }
}

/// The prover's rounds fail only with round-commitment or folding errors.
proof fn lemma_prover_rounds_error_kind<T: ProofTranscript>(
    start: ProverState,
    blinding: Seq<u8>,
    u: Seq<u8>,
    count: nat,
)
    ensures
        prover_rounds::<T>(start, blinding, u, count) matches Err(error) ==> !(error is OpeningStatement),
    decreases count,
{
    if count > 0 {
        lemma_prover_rounds_error_kind::<T>(start, blinding, u, (count - 1) as nat);
        reveal(round_outcome);
    }
}

/// `a·P + b·H + (a·b)·U` over single generators `P` and `H`.
pub open spec fn final_relation(p: Seq<u8>, h: Seq<u8>, u: Seq<u8>, a: nat, b: nat) -> Seq<u8> {
    g1_add(g1_add(g1_mul(p, a), g1_mul(h, b)), g1_mul(u, fmul(a, b)))
}

/// The round messages of a proof, as encodings.
pub open spec fn rounds_view(rounds: Seq<IpaTranscriptRound>) -> Seq<(Seq<u8>, Seq<u8>)> {
    rounds.map_values(|round: IpaTranscriptRound| (round.left_commitment_bytes@, round.right_commitment_bytes@))
}

/// Prover-side output of the opening loop.
#[derive(Clone, Debug, PartialEq, Eq)]
pub struct IpaProverOpeningOutput {
    pub statement: IpaOpeningStatement,
    pub proof: IpaOpeningProof,
    pub round_commitments: Vec<IpaRoundCommitments>,
    pub final_generator_basis: IpaCurveGeneratorBasis,
    pub final_relation_commitment: IpaCurveCommitment,
}

fn final_relation_commitment(
    basis: &IpaCurveGeneratorBasis,
    final_polynomial_scalar: Scalar,
    final_evaluation_scalar: Scalar,
    inner_product_generator: &IpaCurvePoint,
) -> (r: Result<IpaCurveCommitment, IpaProverOpeningError>)
    ensures
        match basis.check() {
            Err(error) => r == Err::<IpaCurveCommitment, IpaProverOpeningError>(IpaProverOpeningError::Curve(error)),
            Ok(()) => if basis.polynomial_view().len() != 1 || basis.evaluation_view().len() != 1 {
                r == Err::<IpaCurveCommitment, IpaProverOpeningError>(
                    IpaProverOpeningError::FinalGeneratorCountMismatch {
                        polynomial_generators: basis.polynomial_view().len() as usize,
                        evaluation_generators: basis.evaluation_view().len() as usize,
                    },
                )
            } else {
                r matches Ok(commitment) && commitment@ == final_relation(
                    basis.polynomial_view()[0],
                    basis.evaluation_view()[0],
                    inner_product_generator@,
                    final_polynomial_scalar@,
                    final_evaluation_scalar@,
                )
            },
        },
{
    match basis.validate() {
        Err(error) => {
            return Err(IpaProverOpeningError::Curve(error));
        },
        Ok(()) => {},
    }
    if basis.polynomial_generators.len() != 1 || basis.evaluation_generators.len() != 1 {
        return Err(
            IpaProverOpeningError::FinalGeneratorCountMismatch {
                polynomial_generators: basis.polynomial_generators.len(),
                evaluation_generators: basis.evaluation_generators.len(),
            },
        );
    }
    let product = final_polynomial_scalar.mul(&final_evaluation_scalar);
    let relation = basis.polynomial_generators[0].affine().mul(&final_polynomial_scalar).add(
        &basis.evaluation_generators[0].affine().mul(&final_evaluation_scalar),
    ).add(&inner_product_generator.affine().mul(&product));
    match IpaCurveCommitment::from_projective(relation) {
        Err(error) => Err(IpaProverOpeningError::Commitment(error)),
        Ok(commitment) => Ok(commitment),
    }
}

/// One prover round on the current vectors and basis.
fn prover_round<T: ProofTranscript>(
    transcript: &mut T,
    current: &IpaCurveGeneratorBasis,
    a: &Vec<Scalar>,
    b: &Vec<Scalar>,
    round_index: usize,
    inner_product_generator: &IpaCurvePoint,
) -> (r: Result<
    (Vec<Scalar>, Vec<Scalar>, IpaCurveGeneratorBasis, IpaTranscriptRound, IpaRoundCommitments),
    IpaProverOpeningError,
>)
    ensures
        match round_outcome::<T>(
            old(transcript).entries(),
            scalars_view(a@),
            scalars_view(b@),
            current.variables,
            current.polynomial_view(),
            current.evaluation_view(),
            current.blinding_generator@,
            inner_product_generator@,
            round_index as nat,
        ) {
            Err(error) => r == Err::<
                (Vec<Scalar>, Vec<Scalar>, IpaCurveGeneratorBasis, IpaTranscriptRound, IpaRoundCommitments),
                IpaProverOpeningError,
            >(error),
            Ok((entries, next_a, next_b, variables, polynomial, evaluation, left, right)) => r matches Ok(
                (folded_a, folded_b, folded, round, _commitments),
            ) && final(transcript).entries() == entries && scalars_view(folded_a@) == next_a && scalars_view(
                folded_b@,
            ) == next_b && folded_a@.len() == a@.len() / 2 && folded_b@.len() == b@.len() / 2
                && folded.variables == variables && folded.polynomial_view() == polynomial
                && folded.evaluation_view() == evaluation && folded.blinding_generator@ == current.blinding_generator@
                && round.round_index == round_index && round.left_commitment_bytes@ == left
                && round.right_commitment_bytes@ == right,
        },
{
    proof {
        reveal(round_outcome);
    }
    let commitments = match compute_ipa_round_commitments(
        round_index,
        current,
        a.as_slice(),
        b.as_slice(),
        inner_product_generator,
    ) {
        Err(error) => {
            return Err(IpaProverOpeningError::RoundCommitment(error));
        },
        Ok(commitments) => commitments,
    };
    let transcript_round = match commitments.to_transcript_round() {
        Err(error) => {
            return Err(IpaProverOpeningError::RoundCommitment(error));
        },
        Ok(round) => round,
    };
    let challenge = derive_round_challenge(transcript, round_index, a.len(), &transcript_round);
    match commitments.to_reduction_round(challenge) {
        Err(error) => {
            return Err(IpaProverOpeningError::RoundCommitment(error));
        },
        Ok(_) => {},
    }
    let next_a = match fold_ipa_polynomial_vector(a.as_slice(), challenge) {
        Err(error) => {
            return Err(IpaProverOpeningError::Reduction(error));
        },
        Ok(folded) => folded,
    };
    let next_b = match fold_ipa_evaluation_vector(b.as_slice(), challenge) {
        Err(error) => {
            return Err(IpaProverOpeningError::Reduction(error));
        },
        Ok(folded) => folded,
    };
    let next_basis = match fold_ipa_generator_basis(current, challenge) {
        Err(error) => {
            return Err(IpaProverOpeningError::GeneratorFolding(error));
        },
        Ok(folded) => folded,
    };
    assert(scalars_view(next_a@).len() == next_a@.len());
    assert(scalars_view(next_b@).len() == next_b@.len());
    Ok((next_a, next_b, next_basis, transcript_round, commitments))
}

/// Runs the prover's rounds until the vectors have one entry.
fn run_prover_rounds<T: ProofTranscript>(
    transcript: &mut T,
    basis: &IpaCurveGeneratorBasis,
    a: Vec<Scalar>,
    b: Vec<Scalar>,
    inner_product_generator: &IpaCurvePoint,
    variables: usize,
) -> (r: Result<
    (Vec<Scalar>, Vec<Scalar>, IpaCurveGeneratorBasis, Vec<IpaTranscriptRound>, Vec<IpaRoundCommitments>),
    IpaProverOpeningError,
>)
    requires
        a@.len() == pow2(variables as nat),
        b@.len() == a@.len(),
    ensures
        ({
            let start = (
                old(transcript).entries(),
                scalars_view(a@),
                scalars_view(b@),
                basis.variables,
                basis.polynomial_view(),
                basis.evaluation_view(),
                Seq::<(Seq<u8>, Seq<u8>)>::empty(),
            );
            match prover_rounds::<T>(start, basis.blinding_generator@, inner_product_generator@, variables as nat) {
                Err(error) => r == Err::<
                    (Vec<Scalar>, Vec<Scalar>, IpaCurveGeneratorBasis, Vec<IpaTranscriptRound>, Vec<IpaRoundCommitments>),
                    IpaProverOpeningError,
                >(error),
                Ok((entries, final_a, final_b, final_variables, polynomial, evaluation, rounds)) => r matches Ok(
                    (folded_a, folded_b, folded, transcript_rounds, commitments),
                ) && final(transcript).entries() == entries && scalars_view(folded_a@) == final_a && scalars_view(
                    folded_b@,
                ) == final_b && folded_a@.len() == 1 && folded_b@.len() == 1 && folded.variables == final_variables
                    && folded.polynomial_view() == polynomial && folded.evaluation_view() == evaluation
                    && folded.blinding_generator@ == basis.blinding_generator@ && rounds_view(transcript_rounds@)
                    == rounds && transcript_rounds@.len() == variables && commitments@.len() == variables && (forall|
                    k: int,
                | 0 <= k < transcript_rounds@.len() ==> #[trigger] transcript_rounds@[k].round_index == k),
            }
        }),
{
    let ghost blinding = basis.blinding_generator@;
    let ghost u = inner_product_generator@;
    let ghost start: ProverState = (
        old(transcript).entries(),
        scalars_view(a@),
        scalars_view(b@),
        basis.variables,
        basis.polynomial_view(),
        basis.evaluation_view(),
        Seq::<(Seq<u8>, Seq<u8>)>::empty(),
    );
    let mut current_a = a;
    let mut current_b = b;
    let mut current = basis.clone();
    let mut transcript_rounds: Vec<IpaTranscriptRound> = Vec::new();
    let mut round_commitments: Vec<IpaRoundCommitments> = Vec::new();
    assert(rounds_view(transcript_rounds@) =~= Seq::<(Seq<u8>, Seq<u8>)>::empty());
    while current_a.len() > 1
        invariant
            start == (
                old(transcript).entries(),
                scalars_view(a@),
                scalars_view(b@),
                basis.variables,
                basis.polynomial_view(),
                basis.evaluation_view(),
                Seq::<(Seq<u8>, Seq<u8>)>::empty(),
            ),
            blinding == basis.blinding_generator@,
            transcript_rounds@.len() <= variables,
            round_commitments@.len() == transcript_rounds@.len(),
            current_a@.len() == pow2((variables - transcript_rounds@.len()) as nat),
            current_b@.len() == current_a@.len(),
            current.blinding_generator@ == blinding,
            u == inner_product_generator@,
            forall|k: int| 0 <= k < transcript_rounds@.len() ==> #[trigger] transcript_rounds@[k].round_index == k,
            prover_rounds::<T>(start, blinding, u, transcript_rounds@.len() as nat) == Ok::<
                ProverState,
                IpaProverOpeningError,
            >(
                (
                    transcript.entries(),
                    scalars_view(current_a@),
                    scalars_view(current_b@),
                    current.variables,
                    current.polynomial_view(),
                    current.evaluation_view(),
                    rounds_view(transcript_rounds@),
                ),
            ),
        decreases current_a@.len(),
    {
        proof {
            if variables - transcript_rounds@.len() == 0 {
                assert(pow2(0) == 1);
            }
            assert(pow2((variables - transcript_rounds@.len()) as nat) == 2 * pow2(
                (variables - transcript_rounds@.len() - 1) as nat,
            ));
        }
        let round_index = transcript_rounds.len();
        let (next_a, next_b, next_basis, transcript_round, commitments) = match prover_round(
            transcript,
            &current,
            &current_a,
            &current_b,
            round_index,
            inner_product_generator,
        ) {
            Err(error) => {
                proof {
                    assert(rounds_view(transcript_rounds@).len() == round_index as nat);
                    assert(prover_rounds::<T>(start, blinding, u, (round_index + 1) as nat) == Err::<
                        ProverState,
                        IpaProverOpeningError,
                    >(error));
                    lemma_prover_rounds_stay_failed::<T>(
                        start,
                        blinding,
                        u,
                        (round_index + 1) as nat,
                        variables as nat,
                    );
                    assert(prover_rounds::<T>(start, blinding, u, variables as nat) == Err::<
                        ProverState,
                        IpaProverOpeningError,
                    >(error));
                }
                return Err(error);
            },
            Ok(state) => state,
        };
        let ghost previous_rounds = transcript_rounds@;
        current_a = next_a;
        current_b = next_b;
        current = next_basis;
        transcript_rounds.push(transcript_round);
        round_commitments.push(commitments);
        proof {
            assert(rounds_view(transcript_rounds@) =~= rounds_view(previous_rounds).push(
                (transcript_rounds@.last().left_commitment_bytes@, transcript_rounds@.last().right_commitment_bytes@),
            ));
            assert(current_a@.len() == current_b@.len());
        }
    }
    proof {
        if variables - transcript_rounds@.len() > 0 {
            crate::arith::lemma_pow2_monotone(1, (variables - transcript_rounds@.len()) as nat);
            assert(pow2(1) == 2) by {
                reveal_with_fuel(pow2, 2);
            }
        }
    }
    Ok((current_a, current_b, current, transcript_rounds, round_commitments))
}

/// Once a round fails, running more rounds reports that failure.
pub proof fn lemma_prover_rounds_stay_failed<T: ProofTranscript>(
    start: ProverState,
    blinding: Seq<u8>,
    u: Seq<u8>,
    failed: nat,
    count: nat,
)
    requires
        failed <= count,
        prover_rounds::<T>(start, blinding, u, failed) is Err,
    ensures
        prover_rounds::<T>(start, blinding, u, count) == prover_rounds::<T>(start, blinding, u, failed),
    decreases count,
{
    if failed < count {
        lemma_prover_rounds_stay_failed::<T>(start, blinding, u, failed, (count - 1) as nat);
    }
}

/// The statement entries of an opening for `point` of a committed table.
pub open spec fn prover_statement_entries(
    commitment_variables: usize,
    commitment_bytes: Seq<u8>,
    point: Seq<nat>,
    claimed: nat,
) -> Seq<TranscriptEntry> {
    context_entries(
        commitment_variables,
        commitment_bytes,
        point,
        claimed,
        point.len() as usize,
        point,
        evaluation_basis_of(point),
    )
}

/// What the opening prover sends and keeps: the transcript after it, the
/// round messages, the final scalars, the final relation encoding, and the
/// folded basis's variable count and single polynomial and evaluation
/// generators.
pub type ProverSummary = (Seq<TranscriptEntry>, Seq<(Seq<u8>, Seq<u8>)>, nat, nat, Seq<u8>, usize, Seq<u8>, Seq<u8>);

/// The outcome of the opening prover for a table with `variables`
/// variables, at `point`, with the transcript in state `entries`.
pub open spec fn prover_outcome<T: ProofTranscript>(
    entries: Seq<TranscriptEntry>,
    basis_variables: usize,
    basis_polynomial: Seq<Seq<u8>>,
    basis_evaluation: Seq<Seq<u8>>,
    basis_blinding: Seq<u8>,
    commitment_variables: usize,
    commitment_bytes: Seq<u8>,
    variables: nat,
    table: Seq<nat>,
    point: Seq<nat>,
    claimed: Scalar,
    u: Seq<u8>,
) -> Result<ProverSummary, IpaProverOpeningError> {
    match statement_from_witness_check(variables, table, commitment_variables, point, claimed) {
        Err(error) => Err(IpaProverOpeningError::OpeningStatement(error)),
        Ok(()) => {
            let bound = entries + prover_statement_entries(commitment_variables, commitment_bytes, point, claimed@);
            let start = (
                bound,
                table,
                evaluation_basis_of(point),
                basis_variables,
                basis_polynomial,
                basis_evaluation,
                Seq::<(Seq<u8>, Seq<u8>)>::empty(),
            );
            match curve_basis_check(basis_variables, basis_polynomial, basis_evaluation, basis_blinding) {
                Err(error) => Err(IpaProverOpeningError::Curve(error)),
                Ok(()) => match prover_rounds::<T>(start, basis_blinding, u, point.len()) {
                    Err(error) => Err(error),
                    Ok((after, a, b, final_variables, polynomial, evaluation, rounds)) => match curve_basis_check(
                        final_variables,
                        polynomial,
                        evaluation,
                        basis_blinding,
                    ) {
                        Err(error) => Err(IpaProverOpeningError::Curve(error)),
                        Ok(()) => if polynomial.len() != 1 || evaluation.len() != 1 {
                            Err(
                                IpaProverOpeningError::FinalGeneratorCountMismatch {
                                    polynomial_generators: polynomial.len() as usize,
                                    evaluation_generators: evaluation.len() as usize,
                                },
                            )
                        } else {
                            Ok(
                                (
                                    after,
                                    rounds,
                                    a[0],
                                    b[0],
                                    final_relation(polynomial[0], evaluation[0], u, a[0], b[0]),
                                    final_variables,
                                    polynomial[0],
                                    evaluation[0],
                                ),
                            )
                        },
                    },
                },
            }
        },
    }
}

/// A prover error matches the predicted one; a claimed-value mismatch is
/// matched by its claimed value and by `computed`, the value the table
/// actually has at the point.
pub open spec fn prover_error_matches(
    actual: IpaProverOpeningError,
    predicted: IpaProverOpeningError,
    computed: nat,
) -> bool {
    match predicted {
        IpaProverOpeningError::OpeningStatement(IpaOpeningStatementError::ClaimedValueMismatch { claimed, .. }) => {
            actual matches IpaProverOpeningError::OpeningStatement(
                IpaOpeningStatementError::ClaimedValueMismatch { claimed: actual_claimed, computed: actual_computed },
            ) && actual_claimed == claimed && actual_computed@ == computed
        },
        _ => actual == predicted,
    }
}

/// An opening proof agrees with a predicted prover summary.
pub open spec fn proof_matches(proof: IpaOpeningProof, summary: ProverSummary, variables: nat, claimed: Scalar) -> bool {
    let (_entries, rounds, a, b, relation, _variables, _polynomial, _evaluation) = summary;
    &&& proof.variables == variables
    &&& proof.claimed_value == claimed
    &&& rounds_view(proof.rounds@) == rounds
    &&& forall|k: int| 0 <= k < proof.rounds@.len() ==> #[trigger] proof.rounds@[k].round_index == k
    &&& proof.final_polynomial_scalar@ == a
    &&& proof.final_evaluation_basis_scalar@ == b
    &&& proof.final_commitment_bytes@ == relation
}

/// Produces an IPA opening proof for a committed table at `point`: binds the
/// statement, then computes every `L` and `R`, derives the challenges, folds
/// the vectors and the basis, and emits the final scalars and the encoding
/// of the final relation commitment.
#[verifier::rlimit(60)]
pub fn prove_ipa_opening<T: ProofTranscript>(
    basis: &IpaCurveGeneratorBasis,
    commitment: IpaCommitment,
    polynomial: &Multilinear,
    point: &[Scalar],
    claimed_value: Scalar,
    inner_product_generator: &IpaCurvePoint,
    transcript: &mut T,
) -> (r: Result<IpaProverOpeningOutput, IpaProverOpeningError>)
    requires
        commitment.commitment_bytes@.len() <= u32::MAX,
    ensures
        statement_from_witness_check(
            polynomial.num_variables(),
            polynomial@,
            commitment.variables,
            scalars_view(point@),
            claimed_value,
        ) is Err ==> final(transcript).entries() == old(transcript).entries(),
        match prover_outcome::<T>(
            old(transcript).entries(),
            basis.variables,
            basis.polynomial_view(),
            basis.evaluation_view(),
            basis.blinding_generator@,
            commitment.variables,
            commitment.commitment_bytes@,
            polynomial.num_variables(),
            polynomial@,
            scalars_view(point@),
            claimed_value,
            inner_product_generator@,
        ) {
            Err(error) => r matches Err(actual) && prover_error_matches(
                actual,
                error,
                inner_product(polynomial@, evaluation_basis_of(scalars_view(point@))),
            ),
            Ok(summary) => r matches Ok(output) && final(transcript).entries() == summary.0 && proof_matches(
                output.proof,
                summary,
                point@.len(),
                claimed_value,
            ) && output.final_relation_commitment@ == summary.4 && output.statement.commitment == commitment
                && output.statement.point@ == point@ && output.statement.claimed_value == claimed_value
                && output.round_commitments@.len() == point@.len() && output.final_generator_basis.variables
                == summary.5 && summary.5 == 0 && output.final_generator_basis.polynomial_view() == seq![summary.6]
                && output.final_generator_basis.evaluation_view() == seq![summary.7]
                && output.final_generator_basis.blinding_generator@ == basis.blinding_generator@,
        },
{
    let statement = match opening_statement_from_witness(commitment, polynomial, point, claimed_value) {
        Err(error) => {
            return Err(IpaProverOpeningError::OpeningStatement(error));
        },
        Ok(statement) => statement,
    };
    match bind_ipa_opening_statement_context(transcript, &statement) {
        Err(error) => {
            return Err(IpaProverOpeningError::OpeningStatement(error));
        },
        Ok(()) => {},
    }
    match basis.validate() {
        Err(error) => {
            return Err(IpaProverOpeningError::Curve(error));
        },
        Ok(()) => {},
    }
    let ghost transcript_entries_after_bind = transcript.entries();
    let evaluations = vstd::slice::slice_to_vec(polynomial.evaluations());
    let basis_values = statement.evaluation_basis.basis_evaluations.clone();
    assert(basis_values@ == statement.evaluation_basis.basis_evaluations@);
    let (a, b, current, transcript_rounds, round_commitments) = match run_prover_rounds(
        transcript,
        basis,
        evaluations,
        basis_values,
        inner_product_generator,
        polynomial.variables(),
    ) {
        Err(error) => {
            proof {
                lemma_prover_rounds_error_kind::<T>(
                    (
                        transcript_entries_after_bind,
                        scalars_view(polynomial.table()),
                        scalars_view(statement.evaluation_basis.basis_evaluations@),
                        basis.variables,
                        basis.polynomial_view(),
                        basis.evaluation_view(),
                        Seq::<(Seq<u8>, Seq<u8>)>::empty(),
                    ),
                    basis.blinding_generator@,
                    inner_product_generator@,
                    polynomial.num_variables(),
                );
            }
            return Err(error);
        },
        Ok(state) => state,
    };
    let final_polynomial_scalar = a[0];
    let final_evaluation_basis_scalar = b[0];
    let relation = match final_relation_commitment(
        &current,
        final_polynomial_scalar,
        final_evaluation_basis_scalar,
        inner_product_generator,
    ) {
        Err(error) => {
            return Err(error);
        },
        Ok(relation) => relation,
    };
    proof {
        assert(current.polynomial_view() =~= seq![current.polynomial_view()[0]]);
        assert(current.evaluation_view() =~= seq![current.evaluation_view()[0]]);
        if current.variables > 0 {
            crate::arith::lemma_pow2_monotone(1, current.variables as nat);
            reveal_with_fuel(crate::arith::pow2, 2);
            if current.variables < usize::BITS {
                crate::ipa_generators::lemma_pow2_fits_usize(current.variables as nat);
            }
        }
    }
    let final_commitment_bytes = match relation.to_compressed_bytes() {
        Err(error) => {
            return Err(IpaProverOpeningError::Commitment(error));
        },
        Ok(bytes) => bytes,
    };
    let proof = match IpaOpeningProof::new(
        statement.variables(),
        statement.claimed_value,
        transcript_rounds,
        final_polynomial_scalar,
        final_evaluation_basis_scalar,
        final_commitment_bytes,
    ) {
        Err(error) => {
            return Err(IpaProverOpeningError::ProofShape(error));
        },
        Ok(proof) => proof,
    };
    Ok(
        IpaProverOpeningOutput {
            statement,
            proof,
            round_commitments,
            final_generator_basis: current,
            final_relation_commitment: relation,
        },
    )
}

} // verus!
