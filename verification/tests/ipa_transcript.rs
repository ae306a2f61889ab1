use snark_lab::field::Scalar;
use snark_lab::ipa::IpaCommitment;
use snark_lab::ipa_transcript::{
    absorb_ipa_reduction_round, bind_ipa_opening_statement, expected_ipa_rounds, validate_ipa_round_count,
    IpaRoundSide, IpaTranscriptError, IpaTranscriptRound,
};
use snark_lab::pcs::PcsShapeError;
use snark_lab::transcript::{MerlinTranscript, ProofTranscript};

fn round_challenge(left: &[u8], right: &[u8]) -> Scalar {
    let round = IpaTranscriptRound::new(0, left.to_vec(), right.to_vec()).unwrap();
    let mut transcript = MerlinTranscript::new("ipa-transcript-test");
    absorb_ipa_reduction_round(&mut transcript, &round)
}

fn statement_challenge(point: &[Scalar]) -> Result<Scalar, IpaTranscriptError> {
    let commitment = IpaCommitment { variables: point.len(), commitment_bytes: vec![1, 2, 3] };
    let mut transcript = MerlinTranscript::new("ipa-statement-test");
    bind_ipa_opening_statement(&mut transcript, &commitment, point)?;
    Ok(transcript.challenge_scalar("after-ipa-statement"))
}

#[test]
fn transcript_round_rejects_empty_left_commitment() {
    assert_eq!(
        IpaTranscriptRound::new(0, Vec::new(), vec![1]),
        Err(IpaTranscriptError::EmptyRoundCommitment { round_index: 0, side: IpaRoundSide::Left })
    );
}

#[test]
fn transcript_round_rejects_empty_right_commitment() {
    assert_eq!(
        IpaTranscriptRound::new(2, vec![1], Vec::new()),
        Err(IpaTranscriptError::EmptyRoundCommitment { round_index: 2, side: IpaRoundSide::Right })
    );
}

#[test]
fn ipa_round_challenge_is_deterministic() {
    assert_eq!(round_challenge(&[1, 2], &[3, 4]), round_challenge(&[1, 2], &[3, 4]));
}

#[test]
fn ipa_round_challenge_changes_when_left_commitment_changes() {
    assert_ne!(round_challenge(&[1, 2], &[3, 4]), round_challenge(&[9, 2], &[3, 4]));
}

#[test]
fn ipa_opening_statement_binds_point() {
    let a = statement_challenge(&[Scalar::from_u64(1), Scalar::from_u64(2), Scalar::from_u64(3)]).unwrap();
    let b = statement_challenge(&[Scalar::from_u64(1), Scalar::from_u64(2), Scalar::from_u64(4)]).unwrap();
    assert_ne!(a, b);
}

#[test]
fn ipa_opening_statement_rejects_wrong_point_length() {
    let commitment = IpaCommitment { variables: 3, commitment_bytes: vec![1, 2, 3] };
    let mut transcript = MerlinTranscript::new("ipa-statement-test");
    assert_eq!(
        bind_ipa_opening_statement(&mut transcript, &commitment, &[Scalar::from_u64(1)]),
        Err(IpaTranscriptError::Shape(PcsShapeError::PointLengthMismatch { expected: 3, actual: 1 }))
    );
}

#[test]
fn ipa_round_count_matches_variable_count() {
    assert_eq!(expected_ipa_rounds(0), 0);
    assert_eq!(expected_ipa_rounds(4), 4);
    assert_eq!(validate_ipa_round_count(4, 4), Ok(()));
}

#[test]
fn ipa_round_count_rejects_wrong_count() {
    assert_eq!(
        validate_ipa_round_count(4, 3),
        Err(IpaTranscriptError::RoundCountMismatch { expected: 4, actual: 3 })
    );
}
