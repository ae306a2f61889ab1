//! One IPA reduction round: the folding of the witness and evaluation vectors
//! at the round challenge, and the checked round object.
use vstd::prelude::*;
use vstd::string::StringSliceAdditionalSpecFns;
use crate::field::{fadd, field_inverse, fmul, scalar_bytes, scalars_view, u64_le_bytes, Scalar};
use crate::ipa_transcript::{IpaTranscriptError, IpaTranscriptRound};
use crate::transcript::{dom_sep_label, lemma_ascii_label, message_entry, modulus_le_bytes, ProofTranscript, TranscriptEntry};

verus! {

#[derive(Clone, Copy, Debug, PartialEq, Eq)]
pub enum IpaReductionRoundError {
    Transcript(IpaTranscriptError),
    InvalidInputLength { minimum: usize, actual: usize },
    OddInputLength { actual: usize },
    LengthMismatch { left: usize, right: usize },
    ZeroChallenge,
    FoldedLengthMismatch { expected: usize, actual: usize },
    UnexpectedChallenge { expected: Scalar, actual: Scalar },
}

/// The input-length check of a round: at least two entries, an even count.
pub open spec fn input_length_check(input_length: usize) -> Result<(), IpaReductionRoundError> {
    if input_length < 2 {
        Err(IpaReductionRoundError::InvalidInputLength { minimum: 2, actual: input_length })
    } else if input_length % 2 != 0 {
        Err(IpaReductionRoundError::OddInputLength { actual: input_length })
    } else {
        Ok(())
    }
}

/// `x·v_L + y·v_R`, entry by entry, over the two halves of `values`.
pub open spec fn fold_halves(values: Seq<nat>, x: nat, y: nat) -> Seq<nat> {
    Seq::new(values.len() / 2, |i: int| fadd(fmul(x, values[i]), fmul(y, values[i + values.len() / 2])))
}

pub fn validate_ipa_reduction_input_length(input_length: usize) -> (r: Result<(), IpaReductionRoundError>)
    ensures
        r == input_length_check(input_length),
{
    if input_length < 2 {
        return Err(IpaReductionRoundError::InvalidInputLength { minimum: 2, actual: input_length });
    }
    if input_length % 2 != 0 {
        return Err(IpaReductionRoundError::OddInputLength { actual: input_length });
    }
    Ok(())
}

/// `x·v_L + y·v_R` over the halves of `values`.
fn fold_with(values: &[Scalar], x: &Scalar, y: &Scalar) -> (r: Vec<Scalar>)
    ensures
        scalars_view(r@) == fold_halves(scalars_view(values@), x@, y@),
{
    let length = values.len();
    let half = length / 2;
    let mut out: Vec<Scalar> = Vec::new();
    let mut i: usize = 0;
    while i < half
        invariant
            i <= half,
            length == values@.len(),
            half == length / 2,
            out@.len() == i,
            forall|k: int|
                0 <= k < i ==> (#[trigger] out@[k])@ == fadd(fmul(x@, values@[k]@), fmul(y@, values@[k + half]@)),
        decreases half - i,
    {
        let left = x.mul(&values[i]);
        let right = y.mul(&values[i + half]);
        out.push(left.add(&right));
        i = i + 1;
    }
    assert(scalars_view(out@) =~= fold_halves(scalars_view(values@), x@, y@));
    out
}

/// Folds the committed vector: `a' = x·a_L + x⁻¹·a_R`.
pub fn fold_ipa_polynomial_vector(values: &[Scalar], challenge: Scalar) -> (r: Result<Vec<Scalar>, IpaReductionRoundError>)
    ensures
        challenge@ == 0 ==> r == Err::<Vec<Scalar>, IpaReductionRoundError>(IpaReductionRoundError::ZeroChallenge),
        challenge@ != 0 && input_length_check(values@.len() as usize) is Err ==> r == Err::<
            Vec<Scalar>,
            IpaReductionRoundError,
        >(input_length_check(values@.len() as usize)->Err_0),
        challenge@ != 0 && input_length_check(values@.len() as usize) is Ok ==> (r matches Ok(folded)
            && scalars_view(folded@) == fold_halves(scalars_view(values@), challenge@, field_inverse(challenge@))),
{
    let inverse = match challenge.inverse() {
        None => {
            return Err(IpaReductionRoundError::ZeroChallenge);
        },
        Some(inverse) => inverse,
    };
    match validate_ipa_reduction_input_length(values.len()) {
        Err(error) => {
            return Err(error);
        },
        Ok(()) => {},
    }
    Ok(fold_with(values, &challenge, &inverse))
}

/// Folds the evaluation vector: `b' = x⁻¹·b_L + x·b_R`.
pub fn fold_ipa_evaluation_vector(values: &[Scalar], challenge: Scalar) -> (r: Result<
    Vec<Scalar>,
    IpaReductionRoundError,
>)
    ensures
        challenge@ == 0 ==> r == Err::<Vec<Scalar>, IpaReductionRoundError>(IpaReductionRoundError::ZeroChallenge),
        challenge@ != 0 && input_length_check(values@.len() as usize) is Err ==> r == Err::<
            Vec<Scalar>,
            IpaReductionRoundError,
        >(input_length_check(values@.len() as usize)->Err_0),
        challenge@ != 0 && input_length_check(values@.len() as usize) is Ok ==> (r matches Ok(folded)
            && scalars_view(folded@) == fold_halves(scalars_view(values@), field_inverse(challenge@), challenge@)),
{
    let inverse = match challenge.inverse() {
        None => {
            return Err(IpaReductionRoundError::ZeroChallenge);
        },
        Some(inverse) => inverse,
    };
    match validate_ipa_reduction_input_length(values.len()) {
        Err(error) => {
            return Err(error);
        },
        Ok(()) => {},
    }
    Ok(fold_with(values, &inverse, &challenge))
}

/// Scalar vectors equal entry by entry.
pub fn scalars_equal(a: &[Scalar], b: &[Scalar]) -> (r: bool)
    ensures
        r == (scalars_view(a@) == scalars_view(b@)),
{
    if a.len() != b.len() {
        return false;
    }
    let mut i: usize = 0;
    while i < a.len()
        invariant
            i <= a@.len(),
            a@.len() == b@.len(),
            forall|k: int| 0 <= k < i ==> a@[k]@ == b@[k]@,
        decreases a@.len() - i,
    {
        if !a[i].equals(&b[i]) {
            assert(scalars_view(a@)[i as int] != scalars_view(b@)[i as int]);
            return false;
        }
        i = i + 1;
    }
    assert(scalars_view(a@) =~= scalars_view(b@));
    true
}

/// What checking supplied folded vectors gives: the original vectors must
/// have equal length, the challenge must be nonzero and the length foldable,
/// and each folded vector must equal the fold of its original (the
/// polynomial vector with `x`, the evaluation vector with `x⁻¹`). Lengths
/// are compared before contents; a folded vector that differs is reported as
/// `FoldedLengthMismatch`.
pub open spec fn vector_fold_check(
    polynomial: Seq<nat>,
    evaluation: Seq<nat>,
    folded_polynomial: Seq<nat>,
    folded_evaluation: Seq<nat>,
    x: nat,
) -> Result<(), IpaReductionRoundError> {
    if polynomial.len() != evaluation.len() {
        Err(
            IpaReductionRoundError::LengthMismatch {
                left: polynomial.len() as usize,
                right: evaluation.len() as usize,
            },
        )
    } else if x == 0 {
        Err(IpaReductionRoundError::ZeroChallenge)
    } else if input_length_check(polynomial.len() as usize) is Err {
        input_length_check(polynomial.len() as usize)
    } else {
        let expected_polynomial = fold_halves(polynomial, x, field_inverse(x));
        let expected_evaluation = fold_halves(evaluation, field_inverse(x), x);
        let polynomial_mismatch = IpaReductionRoundError::FoldedLengthMismatch {
            expected: expected_polynomial.len() as usize,
            actual: folded_polynomial.len() as usize,
        };
        let evaluation_mismatch = IpaReductionRoundError::FoldedLengthMismatch {
            expected: expected_evaluation.len() as usize,
            actual: folded_evaluation.len() as usize,
        };
        if expected_polynomial.len() != folded_polynomial.len() {
            Err(polynomial_mismatch)
        } else if expected_evaluation.len() != folded_evaluation.len() {
            Err(evaluation_mismatch)
        } else if expected_polynomial != folded_polynomial {
            Err(polynomial_mismatch)
        } else if expected_evaluation != folded_evaluation {
            Err(evaluation_mismatch)
        } else {
            Ok(())
        }
    }
}

/// Checks supplied folded vectors against the folding rules.
pub fn validate_ipa_vector_fold(
    original_polynomial_vector: &[Scalar],
    original_evaluation_vector: &[Scalar],
    folded_polynomial_vector: &[Scalar],
    folded_evaluation_vector: &[Scalar],
    challenge: Scalar,
) -> (r: Result<(), IpaReductionRoundError>)
    ensures
        r == vector_fold_check(
            scalars_view(original_polynomial_vector@),
            scalars_view(original_evaluation_vector@),
            scalars_view(folded_polynomial_vector@),
            scalars_view(folded_evaluation_vector@),
            challenge@,
        ),
{
    if original_polynomial_vector.len() != original_evaluation_vector.len() {
        return Err(
            IpaReductionRoundError::LengthMismatch {
                left: original_polynomial_vector.len(),
                right: original_evaluation_vector.len(),
            },
        );
    }
    let expected_polynomial = match fold_ipa_polynomial_vector(original_polynomial_vector, challenge) {
        Err(error) => {
            return Err(error);
        },
        Ok(folded) => folded,
    };
    let expected_evaluation = match fold_ipa_evaluation_vector(original_evaluation_vector, challenge) {
        Err(error) => {
            return Err(error);
        },
        Ok(folded) => folded,
    };
    if expected_polynomial.len() != folded_polynomial_vector.len() {
        return Err(
            IpaReductionRoundError::FoldedLengthMismatch {
                expected: expected_polynomial.len(),
                actual: folded_polynomial_vector.len(),
            },
        );
    }
    if expected_evaluation.len() != folded_evaluation_vector.len() {
        return Err(
            IpaReductionRoundError::FoldedLengthMismatch {
                expected: expected_evaluation.len(),
                actual: folded_evaluation_vector.len(),
            },
        );
    }
    if !scalars_equal(expected_polynomial.as_slice(), folded_polynomial_vector) {
        return Err(
            IpaReductionRoundError::FoldedLengthMismatch {
                expected: expected_polynomial.len(),
                actual: folded_polynomial_vector.len(),
            },
        );
    }
    if !scalars_equal(expected_evaluation.as_slice(), folded_evaluation_vector) {
        return Err(
            IpaReductionRoundError::FoldedLengthMismatch {
                expected: expected_evaluation.len(),
                actual: folded_evaluation_vector.len(),
            },
        );
    }
    Ok(())
}

/// One checked reduction round: its messages, its challenge and inverse, and
/// the vector length before and after folding.
#[derive(Clone, Debug, PartialEq, Eq)]
pub struct IpaReductionRound {
    pub transcript_round: IpaTranscriptRound,
    pub challenge: Scalar,
    pub challenge_inverse: Scalar,
    pub input_length: usize,
    pub output_length: usize,
}

impl IpaReductionRound {
    pub fn new(
        round_index: usize,
        left_commitment_bytes: Vec<u8>,
        right_commitment_bytes: Vec<u8>,
        challenge: Scalar,
        input_length: usize,
    ) -> (r: Result<IpaReductionRound, IpaReductionRoundError>)
        ensures
            input_length_check(input_length) matches Err(error) ==> r == Err::<
                IpaReductionRound,
                IpaReductionRoundError,
            >(error),
            input_length_check(input_length) is Ok && left_commitment_bytes@.len() == 0 ==> r == Err::<
                IpaReductionRound,
                IpaReductionRoundError,
            >(
                IpaReductionRoundError::Transcript(
                    IpaTranscriptError::EmptyRoundCommitment {
                        round_index,
                        side: crate::ipa_transcript::IpaRoundSide::Left,
                    },
                ),
            ),
            input_length_check(input_length) is Ok && left_commitment_bytes@.len() != 0
                && right_commitment_bytes@.len() == 0 ==> r == Err::<IpaReductionRound, IpaReductionRoundError>(
                IpaReductionRoundError::Transcript(
                    IpaTranscriptError::EmptyRoundCommitment {
                        round_index,
                        side: crate::ipa_transcript::IpaRoundSide::Right,
                    },
                ),
            ),
            input_length_check(input_length) is Ok && left_commitment_bytes@.len() != 0
                && right_commitment_bytes@.len() != 0 && challenge@ == 0 ==> r == Err::<
                IpaReductionRound,
                IpaReductionRoundError,
            >(IpaReductionRoundError::ZeroChallenge),
            input_length_check(input_length) is Ok && left_commitment_bytes@.len() != 0
                && right_commitment_bytes@.len() != 0 && challenge@ != 0 ==> (r matches Ok(round)
                && round.transcript_round.round_index == round_index
                && round.transcript_round.left_commitment_bytes@ == left_commitment_bytes@
                && round.transcript_round.right_commitment_bytes@ == right_commitment_bytes@
                && round.challenge == challenge && round.challenge_inverse@ == field_inverse(challenge@)
                && round.input_length == input_length && round.output_length == input_length / 2),
    {
        match validate_ipa_reduction_input_length(input_length) {
            Err(error) => {
                return Err(error);
            },
            Ok(()) => {},
        }
        let transcript_round = match IpaTranscriptRound::new(round_index, left_commitment_bytes, right_commitment_bytes) {
            Err(error) => {
                return Err(IpaReductionRoundError::Transcript(error));
            },
            Ok(round) => round,
        };
        let challenge_inverse = match challenge.inverse() {
            None => {
                return Err(IpaReductionRoundError::ZeroChallenge);
            },
            Some(inverse) => inverse,
        };
        Ok(IpaReductionRound { transcript_round, challenge, challenge_inverse, input_length, output_length: input_length / 2 })
    }

    pub fn round_index(&self) -> (r: usize)
        ensures
            r == self.transcript_round.round_index,
    {
        self.transcript_round.round_index
    }
}

/// What binding a checked round appends.
pub open spec fn reduction_context_entries(round: IpaReductionRound) -> Seq<TranscriptEntry> {
    seq![
        message_entry(dom_sep_label(), "snark-lab/ipa-reduction-round/v1".spec_bytes()),
        message_entry("field-modulus".spec_bytes(), modulus_le_bytes()),
        message_entry("ipa-reduction-round-index".spec_bytes(), u64_le_bytes(round.transcript_round.round_index as u64)),
        message_entry("ipa-reduction-input-length".spec_bytes(), u64_le_bytes(round.input_length as u64)),
        message_entry("ipa-reduction-output-length".spec_bytes(), u64_le_bytes(round.output_length as u64)),
        message_entry("ipa-reduction-left-commitment".spec_bytes(), round.transcript_round.left_commitment_bytes@),
        message_entry("ipa-reduction-right-commitment".spec_bytes(), round.transcript_round.right_commitment_bytes@),
        message_entry("ipa-reduction-challenge".spec_bytes(), scalar_bytes(round.challenge@)),
        message_entry("ipa-reduction-challenge-inverse".spec_bytes(), scalar_bytes(round.challenge_inverse@)),
    ]
}

/// Binds a checked reduction round, after checking its lengths and that the
/// stored inverse is the challenge's inverse.
pub fn bind_ipa_reduction_round_context<T: ProofTranscript>(transcript: &mut T, round: &IpaReductionRound) -> (r: Result<
    (),
    IpaReductionRoundError,
>)
    requires
        round.transcript_round.left_commitment_bytes@.len() <= u32::MAX,
        round.transcript_round.right_commitment_bytes@.len() <= u32::MAX,
    ensures
        r is Err ==> final(transcript).entries() == old(transcript).entries(),
        r is Ok <==> input_length_check(round.input_length) is Ok && round.output_length == round.input_length / 2
            && round.challenge@ != 0 && round.challenge_inverse@ == field_inverse(round.challenge@),
        input_length_check(round.input_length) matches Err(error) ==> r == Err::<(), IpaReductionRoundError>(error),
        r is Ok ==> final(transcript).entries() == old(transcript).entries() + reduction_context_entries(*round),
        input_length_check(round.input_length) is Ok && round.output_length != round.input_length / 2 ==> r == Err::<
            (),
            IpaReductionRoundError,
        >(
            IpaReductionRoundError::FoldedLengthMismatch {
                expected: round.input_length / 2,
                actual: round.output_length,
            },
        ),
        input_length_check(round.input_length) is Ok && round.output_length == round.input_length / 2
            && round.challenge@ == 0 ==> r == Err::<(), IpaReductionRoundError>(IpaReductionRoundError::ZeroChallenge),
        input_length_check(round.input_length) is Ok && round.output_length == round.input_length / 2
            && round.challenge@ != 0 && round.challenge_inverse@ != field_inverse(round.challenge@) ==> (r matches Err(
            IpaReductionRoundError::UnexpectedChallenge { expected, actual },
        ) && expected@ == field_inverse(round.challenge@) && actual == round.challenge_inverse),
{
    match validate_ipa_reduction_input_length(round.input_length) {
        Err(error) => {
            return Err(error);
        },
        Ok(()) => {},
    }
    if round.output_length != round.input_length / 2 {
        return Err(
            IpaReductionRoundError::FoldedLengthMismatch {
                expected: round.input_length / 2,
                actual: round.output_length,
            },
        );
    }
    let recomputed = match round.challenge.inverse() {
        None => {
            return Err(IpaReductionRoundError::ZeroChallenge);
        },
        Some(inverse) => inverse,
    };
    if !recomputed.equals(&round.challenge_inverse) {
        proof {
            assert(round.challenge_inverse@ != field_inverse(round.challenge@));
        }
        return Err(IpaReductionRoundError::UnexpectedChallenge { expected: recomputed, actual: round.challenge_inverse });
    }
    proof {
        reveal_strlit("snark-lab/ipa-reduction-round/v1");
        lemma_ascii_label("snark-lab/ipa-reduction-round/v1");
    }
    transcript.append_domain_separator("snark-lab/ipa-reduction-round/v1");
    transcript.append_field_modulus();
    transcript.append_u64("ipa-reduction-round-index", round.round_index() as u64);
    transcript.append_u64("ipa-reduction-input-length", round.input_length as u64);
    transcript.append_u64("ipa-reduction-output-length", round.output_length as u64);
    transcript.append_bytes("ipa-reduction-left-commitment", round.transcript_round.left_commitment_bytes.as_slice());
    transcript.append_bytes("ipa-reduction-right-commitment", round.transcript_round.right_commitment_bytes.as_slice());
    transcript.append_field_element("ipa-reduction-challenge", &round.challenge);
    transcript.append_field_element("ipa-reduction-challenge-inverse", &round.challenge_inverse);
    assert(final(transcript).entries() =~= old(transcript).entries() + reduction_context_entries(*round));
    Ok(())
}

} // verus!
