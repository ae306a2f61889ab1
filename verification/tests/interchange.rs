use snark_lab::interchange::{
    verify_transcript, Claim, EducationalTranscript, FieldSpec, FinalCheck, Protocol, TranscriptError,
    TranscriptRound, EDUCATIONAL_MODULUS, SCHEMA_VERSION,
};

fn round(round: usize, g_at_zero: u64, g_at_one: u64, challenge: u64) -> TranscriptRound {
    TranscriptRound { round, g_at_zero, g_at_one, challenge }
}

fn sumcheck_valid() -> EducationalTranscript {
    EducationalTranscript {
        version: SCHEMA_VERSION,
        protocol: Protocol::Sumcheck,
        field: FieldSpec { modulus: EDUCATIONAL_MODULUS },
        claim: Claim { num_variables: 2, claimed_sum: 10, oracle_evaluations: vec![1, 2, 3, 4], mixing_point: None },
        rounds: vec![round(0, 4, 6, 74), round(1, 75, 77, 92)],
        final_check: FinalCheck { point: vec![74, 92], oracle_evaluation: 65 },
    }
}

fn zerocheck_valid() -> EducationalTranscript {
    EducationalTranscript {
        version: SCHEMA_VERSION,
        protocol: Protocol::Zerocheck,
        field: FieldSpec { modulus: EDUCATIONAL_MODULUS },
        claim: Claim {
            num_variables: 2,
            claimed_sum: 0,
            oracle_evaluations: vec![0, 0, 0, 0],
            mixing_point: Some(vec![5, 6]),
        },
        rounds: vec![round(0, 0, 0, 7), round(1, 0, 0, 20)],
        final_check: FinalCheck { point: vec![7, 20], oracle_evaluation: 0 },
    }
}

#[test]
fn accepts_valid_sumcheck_and_zerocheck_transcripts() {
    assert_eq!(verify_transcript(&sumcheck_valid()), Ok(()));
    assert_eq!(verify_transcript(&zerocheck_valid()), Ok(()));
}

#[test]
fn rejects_tampered_round_polynomial() {
    let mut transcript = sumcheck_valid();
    transcript.rounds[0].g_at_one = 7;
    assert_eq!(verify_transcript(&transcript), Err(TranscriptError::RoundDoesNotMatchClaim { round: 0 }));
}

#[test]
fn rejects_tampered_final_oracle_value() {
    let mut transcript = sumcheck_valid();
    transcript.final_check.oracle_evaluation = 66;
    assert_eq!(verify_transcript(&transcript), Err(TranscriptError::FinalEvaluationMismatch));
}

#[test]
fn rejects_violated_zerocheck_constraint() {
    let mut transcript = zerocheck_valid();
    transcript.claim.oracle_evaluations = vec![0, 0, 1, 0];
    assert_eq!(verify_transcript(&transcript), Err(TranscriptError::FinalEvaluationMismatch));
}

#[test]
fn rejects_header_and_shape_errors() {
    let mut transcript = sumcheck_valid();
    transcript.version = 2;
    assert_eq!(verify_transcript(&transcript), Err(TranscriptError::UnsupportedVersion(2)));

    let mut transcript = sumcheck_valid();
    transcript.field.modulus = 101;
    assert_eq!(verify_transcript(&transcript), Err(TranscriptError::UnsupportedModulus(101)));

    let mut transcript = sumcheck_valid();
    transcript.claim.oracle_evaluations = vec![1, 2, 3];
    assert_eq!(verify_transcript(&transcript), Err(TranscriptError::InvalidEvaluationCount));

    let mut transcript = sumcheck_valid();
    transcript.claim.num_variables = 3;
    assert_eq!(verify_transcript(&transcript), Err(TranscriptError::VariableCountMismatch));

    let mut transcript = sumcheck_valid();
    transcript.rounds.pop();
    assert_eq!(verify_transcript(&transcript), Err(TranscriptError::WrongRoundCount));

    let mut transcript = sumcheck_valid();
    transcript.claim.mixing_point = Some(vec![1, 2]);
    assert_eq!(verify_transcript(&transcript), Err(TranscriptError::InvalidMixingPoint));

    let mut transcript = zerocheck_valid();
    transcript.claim.claimed_sum = 1;
    assert_eq!(verify_transcript(&transcript), Err(TranscriptError::ZerocheckClaimMustBeZero));

    let mut transcript = zerocheck_valid();
    transcript.claim.mixing_point = None;
    assert_eq!(verify_transcript(&transcript), Err(TranscriptError::InvalidMixingPoint));
}

#[test]
fn rejects_non_canonical_elements_with_their_path() {
    let mut transcript = sumcheck_valid();
    transcript.claim.oracle_evaluations[2] = 97;
    assert_eq!(
        verify_transcript(&transcript),
        Err(TranscriptError::NonCanonicalFieldElement { path: "claim.oracle_evaluations[2]".to_string(), value: 97 })
    );

    let mut transcript = sumcheck_valid();
    transcript.rounds[1].g_at_zero = 200;
    assert_eq!(
        verify_transcript(&transcript),
        Err(TranscriptError::NonCanonicalFieldElement { path: "rounds[1].g_at_zero".to_string(), value: 200 })
    );

    let mut transcript = zerocheck_valid();
    transcript.claim.mixing_point = Some(vec![5, 98]);
    assert_eq!(
        verify_transcript(&transcript),
        Err(TranscriptError::NonCanonicalFieldElement { path: "claim.mixing_point[1]".to_string(), value: 98 })
    );
}

#[test]
fn rejects_round_index_and_final_point_mismatch() {
    let mut transcript = sumcheck_valid();
    transcript.rounds[1].round = 5;
    assert_eq!(verify_transcript(&transcript), Err(TranscriptError::WrongRoundIndex { position: 1, declared: 5 }));

    let mut transcript = sumcheck_valid();
    transcript.final_check.point = vec![74, 93];
    assert_eq!(verify_transcript(&transcript), Err(TranscriptError::FinalPointMismatch));
}
