use snark_lab::field::Scalar;
use snark_lab::ipa_reduction::{
    bind_ipa_reduction_round_context, fold_ipa_evaluation_vector, fold_ipa_polynomial_vector,
    validate_ipa_vector_fold, IpaReductionRound, IpaReductionRoundError,
};
use snark_lab::transcript::{MerlinTranscript, ProofTranscript};

fn s(value: u64) -> Scalar {
    Scalar::from_u64(value)
}

fn values(values: &[u64]) -> Vec<Scalar> {
    values.iter().copied().map(s).collect()
}

fn challenge() -> Scalar {
    s(7)
}

fn round() -> IpaReductionRound {
    IpaReductionRound::new(0, vec![1, 2, 3], vec![4, 5, 6], challenge(), 4).unwrap()
}

fn challenge_for_round(round: &IpaReductionRound) -> Scalar {
    let mut transcript = MerlinTranscript::new("ipa-reduction-round-test");
    bind_ipa_reduction_round_context(&mut transcript, round).unwrap();
    transcript.challenge_scalar("after-reduction-round")
}

#[test]
fn reduction_round_accepts_valid_shape() {
    let round = round();
    assert_eq!(round.round_index(), 0);
    assert_eq!(round.input_length, 4);
    assert_eq!(round.output_length, 2);
    assert_eq!(round.challenge.mul(&round.challenge_inverse), s(1));
}

#[test]
fn reduction_round_rejects_zero_challenge() {
    assert_eq!(IpaReductionRound::new(0, vec![1], vec![2], s(0), 4), Err(IpaReductionRoundError::ZeroChallenge));
}

#[test]
fn reduction_round_rejects_empty_left_commitment() {
    assert!(matches!(
        IpaReductionRound::new(0, Vec::new(), vec![2], challenge(), 4),
        Err(IpaReductionRoundError::Transcript(_))
    ));
}

#[test]
fn reduction_round_rejects_too_short_vector() {
    assert_eq!(
        IpaReductionRound::new(0, vec![1], vec![2], challenge(), 1),
        Err(IpaReductionRoundError::InvalidInputLength { minimum: 2, actual: 1 })
    );
}

#[test]
fn reduction_round_rejects_odd_vector_length() {
    assert_eq!(
        IpaReductionRound::new(0, vec![1], vec![2], challenge(), 3),
        Err(IpaReductionRoundError::OddInputLength { actual: 3 })
    );
}

#[test]
fn polynomial_vector_fold_matches_formula() {
    let input = values(&[2, 3, 5, 7]);
    let x = challenge();
    let x_inv = x.inverse().unwrap();
    let folded = fold_ipa_polynomial_vector(&input, x).unwrap();
    assert_eq!(
        folded,
        vec![x.mul(&input[0]).add(&x_inv.mul(&input[2])), x.mul(&input[1]).add(&x_inv.mul(&input[3]))]
    );
}

#[test]
fn evaluation_vector_fold_matches_formula() {
    let input = values(&[2, 3, 5, 7]);
    let x = challenge();
    let x_inv = x.inverse().unwrap();
    let folded = fold_ipa_evaluation_vector(&input, x).unwrap();
    assert_eq!(
        folded,
        vec![x_inv.mul(&input[0]).add(&x.mul(&input[2])), x_inv.mul(&input[1]).add(&x.mul(&input[3]))]
    );
}

#[test]
fn vector_fold_validator_accepts_matching_fold() {
    let a = values(&[2, 3, 5, 7]);
    let b = values(&[11, 13, 17, 19]);
    let x = challenge();
    let a_folded = fold_ipa_polynomial_vector(&a, x).unwrap();
    let b_folded = fold_ipa_evaluation_vector(&b, x).unwrap();
    assert_eq!(validate_ipa_vector_fold(&a, &b, &a_folded, &b_folded, x), Ok(()));
}

#[test]
fn vector_fold_validator_rejects_mismatched_inputs() {
    let a = values(&[2, 3, 5, 7]);
    let b = values(&[11, 13]);
    assert_eq!(
        validate_ipa_vector_fold(&a, &b, &[], &[], challenge()),
        Err(IpaReductionRoundError::LengthMismatch { left: 4, right: 2 })
    );
}

#[test]
fn reduction_round_binding_is_deterministic() {
    let round = round();
    assert_eq!(challenge_for_round(&round), challenge_for_round(&round));
}

#[test]
fn reduction_round_binding_changes_when_left_commitment_changes() {
    let a = round();
    let b = IpaReductionRound::new(0, vec![9, 2, 3], vec![4, 5, 6], challenge(), 4).unwrap();
    assert_ne!(challenge_for_round(&a), challenge_for_round(&b));
}

#[test]
fn reduction_round_binding_rejects_bad_inverse() {
    let mut round = round();
    round.challenge_inverse = s(123);
    assert!(matches!(
        bind_ipa_reduction_round_context(&mut MerlinTranscript::new("bad"), &round),
        Err(IpaReductionRoundError::UnexpectedChallenge { .. })
    ));
}

#[test]
fn vector_fold_validator_reports_wrong_folds() {
    let a = values(&[2, 3, 5, 7]);
    let b = values(&[11, 13, 17, 19]);
    let x = challenge();
    let a_folded = fold_ipa_polynomial_vector(&a, x).unwrap();
    let b_folded = fold_ipa_evaluation_vector(&b, x).unwrap();
    assert_eq!(
        validate_ipa_vector_fold(&a, &b, &a_folded[..1], &b_folded, x),
        Err(IpaReductionRoundError::FoldedLengthMismatch { expected: 2, actual: 1 })
    );
    let mut wrong = b_folded.clone();
    wrong[1] = wrong[1].add(&s(1));
    assert_eq!(
        validate_ipa_vector_fold(&a, &b, &a_folded, &wrong, x),
        Err(IpaReductionRoundError::FoldedLengthMismatch { expected: 2, actual: 2 })
    );
    assert_eq!(
        validate_ipa_vector_fold(&a, &b, &a_folded, &b_folded, s(0)),
        Err(IpaReductionRoundError::ZeroChallenge)
    );
    let odd = values(&[2, 3, 5]);
    assert_eq!(
        validate_ipa_vector_fold(&odd, &odd, &[], &[], x),
        Err(IpaReductionRoundError::OddInputLength { actual: 3 })
    );
}
