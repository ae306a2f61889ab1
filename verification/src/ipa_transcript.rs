//! The transcript schedule of an IPA opening: the statement, then one round
//! message and challenge per variable.
use vstd::prelude::*;
use vstd::string::StringSliceAdditionalSpecFns;
use crate::field::{le_nat, modulus, scalars_view, u64_le_bytes, Scalar};
use crate::ipa::IpaCommitment;
use crate::pcs::{validate_opening_point, PcsShapeError};
use crate::transcript::{
    append_indexed_scalars, challenge_entry, dom_sep_label, indexed_entries, lemma_ascii_label,
    message_entry, modulus_le_bytes, scalar_encodings, ProofTranscript, TranscriptEntry,
};

verus! {

#[derive(Clone, Copy, Debug, PartialEq, Eq, Structural)]
pub enum IpaRoundSide {
    Left,
    Right,
}

#[derive(Clone, Copy, Debug, PartialEq, Eq, Structural)]
pub enum IpaTranscriptError {
    Shape(PcsShapeError),
    EmptyRoundCommitment { round_index: usize, side: IpaRoundSide },
    RoundCountMismatch { expected: usize, actual: usize },
}

/// One IPA reduction-round message: the encodings of the round's `L` and `R`.
#[derive(Clone, Debug, PartialEq, Eq)]
pub struct IpaTranscriptRound {
    pub round_index: usize,
    pub left_commitment_bytes: Vec<u8>,
    pub right_commitment_bytes: Vec<u8>,
}

impl IpaTranscriptRound {
    /// A round message; both commitments must be non-empty.
    pub fn new(round_index: usize, left_commitment_bytes: Vec<u8>, right_commitment_bytes: Vec<u8>) -> (r: Result<
        IpaTranscriptRound,
        IpaTranscriptError,
    >)
        ensures
            left_commitment_bytes@.len() == 0 ==> r == Err::<IpaTranscriptRound, IpaTranscriptError>(
                IpaTranscriptError::EmptyRoundCommitment { round_index, side: IpaRoundSide::Left },
            ),
            left_commitment_bytes@.len() != 0 && right_commitment_bytes@.len() == 0 ==> r == Err::<
                IpaTranscriptRound,
                IpaTranscriptError,
            >(IpaTranscriptError::EmptyRoundCommitment { round_index, side: IpaRoundSide::Right }),
            left_commitment_bytes@.len() != 0 && right_commitment_bytes@.len() != 0 ==> (r matches Ok(round)
                && round.round_index == round_index && round.left_commitment_bytes@ == left_commitment_bytes@
                && round.right_commitment_bytes@ == right_commitment_bytes@),
    {
        if left_commitment_bytes.len() == 0 {
            return Err(IpaTranscriptError::EmptyRoundCommitment { round_index, side: IpaRoundSide::Left });
        }
        if right_commitment_bytes.len() == 0 {
            return Err(IpaTranscriptError::EmptyRoundCommitment { round_index, side: IpaRoundSide::Right });
        }
        Ok(IpaTranscriptRound { round_index, left_commitment_bytes, right_commitment_bytes })
    }
}

/// A multilinear IPA opening over `variables` variables has one reduction
/// round per variable.
pub fn expected_ipa_rounds(variables: usize) -> (r: usize)
    ensures
        r == variables,
{
    variables
}

pub fn validate_ipa_round_count(variables: usize, actual_rounds: usize) -> (r: Result<(), IpaTranscriptError>)
    ensures
        r == (if variables != actual_rounds {
            Err(IpaTranscriptError::RoundCountMismatch { expected: variables, actual: actual_rounds })
        } else {
            Ok(())
        }),
{
    let expected = expected_ipa_rounds(variables);
    if expected != actual_rounds {
        return Err(IpaTranscriptError::RoundCountMismatch { expected, actual: actual_rounds });
    }
    Ok(())
}

/// What binding an opening statement appends.
pub open spec fn opening_statement_entries(variables: usize, commitment: Seq<u8>, point: Seq<nat>) -> Seq<
    TranscriptEntry,
> {
    seq![
        message_entry(dom_sep_label(), "snark-lab/ipa-opening-statement/v1".spec_bytes()),
        message_entry("field-modulus".spec_bytes(), modulus_le_bytes()),
        message_entry("ipa-statement-variables".spec_bytes(), u64_le_bytes(variables as u64)),
        message_entry("ipa-statement-commitment".spec_bytes(), commitment),
        message_entry("ipa-statement-point-len".spec_bytes(), u64_le_bytes(point.len() as u64)),
    ] + indexed_entries(
        "ipa-statement-point-index".spec_bytes(),
        "ipa-statement-point-coordinate".spec_bytes(),
        scalar_encodings(point),
    )
}

/// Binds the opening statement (modulus, variable count, commitment bytes and
/// point) before any reduction round.
pub fn bind_ipa_opening_statement<T: ProofTranscript>(
    transcript: &mut T,
    commitment: &IpaCommitment,
    point: &[Scalar],
) -> (r: Result<(), IpaTranscriptError>)
    requires
        commitment.commitment_bytes@.len() <= u32::MAX,
    ensures
        commitment.variables != point@.len() ==> r == Err::<(), IpaTranscriptError>(
            IpaTranscriptError::Shape(
                PcsShapeError::PointLengthMismatch { expected: commitment.variables, actual: point@.len() as usize },
            ),
        ) && final(transcript).entries() == old(transcript).entries(),
        commitment.variables == point@.len() ==> r is Ok && final(transcript).entries() == old(transcript).entries()
            + opening_statement_entries(commitment.variables, commitment.commitment_bytes@, scalars_view(point@)),
{
    match validate_opening_point(commitment.variables, point.len()) {
        Err(error) => {
            return Err(IpaTranscriptError::Shape(error));
        },
        Ok(()) => {},
    }
    proof {
        reveal_strlit("snark-lab/ipa-opening-statement/v1");
        lemma_ascii_label("snark-lab/ipa-opening-statement/v1");
    }
    transcript.append_domain_separator("snark-lab/ipa-opening-statement/v1");
    transcript.append_field_modulus();
    transcript.append_u64("ipa-statement-variables", commitment.variables as u64);
    transcript.append_bytes("ipa-statement-commitment", commitment.commitment_bytes.as_slice());
    transcript.append_u64("ipa-statement-point-len", point.len() as u64);
    append_indexed_scalars(transcript, "ipa-statement-point-index", "ipa-statement-point-coordinate", point);
    assert(final(transcript).entries() =~= old(transcript).entries() + opening_statement_entries(
        commitment.variables,
        commitment.commitment_bytes@,
        scalars_view(point@),
    ));
    Ok(())
}

/// What absorbing a reduction round appends before its challenge.
pub open spec fn reduction_round_entries(round_index: usize, left: Seq<u8>, right: Seq<u8>) -> Seq<TranscriptEntry> {
    seq![
        message_entry(dom_sep_label(), "snark-lab/ipa-reduction-round/v1".spec_bytes()),
        message_entry("ipa-round-index".spec_bytes(), u64_le_bytes(round_index as u64)),
        message_entry("ipa-round-left-commitment".spec_bytes(), left),
        message_entry("ipa-round-right-commitment".spec_bytes(), right),
    ]
}

/// Binds one reduction round and derives its challenge.
pub fn absorb_ipa_reduction_round<T: ProofTranscript>(transcript: &mut T, round: &IpaTranscriptRound) -> (r: Scalar)
    requires
        round.left_commitment_bytes@.len() <= u32::MAX,
        round.right_commitment_bytes@.len() <= u32::MAX,
    ensures
        ({
            let bound = old(transcript).entries() + reduction_round_entries(
                round.round_index,
                round.left_commitment_bytes@,
                round.right_commitment_bytes@,
            );
            let output = T::challenge_output(bound, "ipa-round-challenge".spec_bytes());
            &&& r@ == le_nat(output) % modulus()
            &&& final(transcript).entries() == bound.push(challenge_entry("ipa-round-challenge".spec_bytes(), output))
        }),
{
    proof {
        reveal_strlit("snark-lab/ipa-reduction-round/v1");
        lemma_ascii_label("snark-lab/ipa-reduction-round/v1");
    }
    transcript.append_domain_separator("snark-lab/ipa-reduction-round/v1");
    transcript.append_u64("ipa-round-index", round.round_index as u64);
    transcript.append_bytes("ipa-round-left-commitment", round.left_commitment_bytes.as_slice());
    transcript.append_bytes("ipa-round-right-commitment", round.right_commitment_bytes.as_slice());
    assert(transcript.entries() =~= old(transcript).entries() + reduction_round_entries(
        round.round_index,
        round.left_commitment_bytes@,
        round.right_commitment_bytes@,
    ));
    transcript.challenge_scalar("ipa-round-challenge")
}

} // verus!
