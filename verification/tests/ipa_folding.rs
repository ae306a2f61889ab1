use ark_bls12_381::{Fr, G1Affine, G1Projective};
use ark_ec::{AffineRepr, CurveGroup, PrimeGroup};
use ark_ff::{Field, PrimeField, Zero};
use ark_serialize::{CanonicalDeserialize, CanonicalSerialize};
use snark_lab::field::Scalar;
use snark_lab::ipa_commitment::IpaCurveCommitment;
use snark_lab::ipa_curve::{IpaCurveGeneratorBasis, IpaCurvePoint, IpaCurvePointError};
use snark_lab::ipa_generators::expected_ipa_generator_count;
use snark_lab::ipa_reduction::IpaReductionRoundError;
use snark_lab::ipa_round_commitments::{
    compute_ipa_round_commitments, fold_ipa_evaluation_generators, fold_ipa_generator_basis,
    fold_ipa_polynomial_generators, IpaGeneratorFoldingError, IpaRoundCommitmentError,
};

fn s(value: u64) -> Scalar {
    Scalar::from_u64(value)
}

fn compressed(point: G1Projective) -> Vec<u8> {
    let mut bytes = Vec::new();
    point.into_affine().serialize_compressed(&mut bytes).unwrap();
    bytes
}

fn point(seed: u64) -> IpaCurvePoint {
    IpaCurvePoint::from_compressed_bytes(&compressed(G1Projective::generator() * Fr::from(seed))).unwrap()
}

fn group(point: &IpaCurvePoint) -> G1Projective {
    G1Affine::deserialize_compressed(&point.to_compressed_bytes().unwrap()[..]).unwrap().into_group()
}

fn commitment_group(commitment: &IpaCurveCommitment) -> G1Projective {
    G1Affine::deserialize_compressed(&commitment.to_compressed_bytes().unwrap()[..]).unwrap().into_group()
}

fn fr_of(value: &Scalar) -> Fr {
    Fr::from_le_bytes_mod_order(&value.to_le_bytes())
}

fn basis(variables: usize) -> IpaCurveGeneratorBasis {
    let count = expected_ipa_generator_count(variables).unwrap();
    IpaCurveGeneratorBasis::new(
        variables,
        (0..count).map(|index| point(index as u64 + 1)).collect(),
        (0..count).map(|index| point(index as u64 + 100)).collect(),
        point(999),
    )
    .unwrap()
}

fn challenge() -> Scalar {
    s(7)
}

#[test]
fn polynomial_generators_fold_with_expected_formula() {
    let generators = vec![point(1), point(2), point(3), point(4)];
    let x = Fr::from(7u64);
    let x_inv = x.inverse().unwrap();
    let folded = fold_ipa_polynomial_generators(&generators, challenge()).unwrap();
    assert_eq!(group(&folded[0]), group(&generators[0]) * x_inv + group(&generators[2]) * x);
    assert_eq!(group(&folded[1]), group(&generators[1]) * x_inv + group(&generators[3]) * x);
}

#[test]
fn evaluation_generators_fold_with_expected_formula() {
    let generators = vec![point(10), point(11), point(12), point(13)];
    let x = Fr::from(7u64);
    let x_inv = x.inverse().unwrap();
    let folded = fold_ipa_evaluation_generators(&generators, challenge()).unwrap();
    assert_eq!(group(&folded[0]), group(&generators[0]) * x + group(&generators[2]) * x_inv);
    assert_eq!(group(&folded[1]), group(&generators[1]) * x + group(&generators[3]) * x_inv);
}

#[test]
fn generator_basis_fold_halves_dimension() {
    let basis = basis(3);
    let folded = fold_ipa_generator_basis(&basis, challenge()).unwrap();
    assert_eq!(folded.variables, 2);
    assert_eq!(folded.polynomial_generators.len(), 4);
    assert_eq!(folded.evaluation_generators.len(), 4);
    assert_eq!(folded.blinding_generator, basis.blinding_generator);
    assert!(folded.validate().is_ok());
}

#[test]
fn generator_basis_fold_rejects_zero_variable_basis() {
    let basis = basis(0);
    assert_eq!(fold_ipa_generator_basis(&basis, challenge()), Err(IpaGeneratorFoldingError::VariableUnderflow));
}

#[test]
fn generator_folding_rejects_zero_challenge() {
    let basis = basis(2);
    assert_eq!(fold_ipa_generator_basis(&basis, s(0)), Err(IpaGeneratorFoldingError::ZeroChallenge));
}

#[test]
fn generator_folding_rejects_odd_length() {
    let generators = vec![point(1), point(2), point(3)];
    assert!(matches!(
        fold_ipa_polynomial_generators(&generators, challenge()),
        Err(IpaGeneratorFoldingError::Reduction(IpaReductionRoundError::OddInputLength { actual: 3 }))
    ));
}

#[test]
fn generator_folding_rejects_identity_result() {
    let x = Fr::from(7u64);
    let x_inv = x.inverse().unwrap();
    let left = point(1);
    let right = IpaCurvePoint::from_compressed_bytes(&compressed(group(&left) * (-(x_inv / x)))).unwrap();
    assert!(matches!(
        fold_ipa_polynomial_generators(&[left, right], challenge()),
        Err(IpaGeneratorFoldingError::Curve(IpaCurvePointError::IdentityPoint))
    ));
}

#[test]
fn generator_folding_is_deterministic() {
    let basis = basis(3);
    assert_eq!(
        fold_ipa_generator_basis(&basis, challenge()).unwrap(),
        fold_ipa_generator_basis(&basis, challenge()).unwrap()
    );
}

#[test]
fn generator_folding_changes_with_challenge() {
    let basis = basis(3);
    assert_ne!(fold_ipa_generator_basis(&basis, s(7)).unwrap(), fold_ipa_generator_basis(&basis, s(8)).unwrap());
}

fn scalars(values: &[u64]) -> Vec<Scalar> {
    values.iter().copied().map(s).collect()
}

#[test]
fn round_commitments_match_manual_formula() {
    let basis = basis(2);
    let a = scalars(&[2, 3, 5, 7]);
    let b = scalars(&[11, 13, 17, 19]);
    let u = point(5000);
    let commitments = compute_ipa_round_commitments(0, &basis, &a, &b, &u).unwrap();
    let fa: Vec<Fr> = a.iter().map(fr_of).collect();
    let fb: Vec<Fr> = b.iter().map(fr_of).collect();
    let left_cross = fa[0] * fb[2] + fa[1] * fb[3];
    let right_cross = fa[2] * fb[0] + fa[3] * fb[1];
    let mut manual_l = G1Projective::zero();
    manual_l += group(&basis.polynomial_generators[2]) * fa[0];
    manual_l += group(&basis.polynomial_generators[3]) * fa[1];
    manual_l += group(&basis.evaluation_generators[0]) * fb[2];
    manual_l += group(&basis.evaluation_generators[1]) * fb[3];
    manual_l += group(&u) * left_cross;
    let mut manual_r = G1Projective::zero();
    manual_r += group(&basis.polynomial_generators[0]) * fa[2];
    manual_r += group(&basis.polynomial_generators[1]) * fa[3];
    manual_r += group(&basis.evaluation_generators[2]) * fb[0];
    manual_r += group(&basis.evaluation_generators[3]) * fb[1];
    manual_r += group(&u) * right_cross;
    assert_eq!(commitment_group(&commitments.left_commitment), manual_l);
    assert_eq!(commitment_group(&commitments.right_commitment), manual_r);
    assert_eq!(fr_of(&commitments.left_cross_term), left_cross);
    assert_eq!(fr_of(&commitments.right_cross_term), right_cross);
}

#[test]
fn round_commitments_produce_transcript_round() {
    let basis = basis(2);
    let commitments =
        compute_ipa_round_commitments(3, &basis, &scalars(&[2, 3, 5, 7]), &scalars(&[11, 13, 17, 19]), &point(5000))
            .unwrap();
    let transcript_round = commitments.to_transcript_round().unwrap();
    assert_eq!(transcript_round.round_index, 3);
    assert!(!transcript_round.left_commitment_bytes.is_empty());
    assert!(!transcript_round.right_commitment_bytes.is_empty());
}

#[test]
fn round_commitments_produce_reduction_round() {
    let basis = basis(2);
    let commitments =
        compute_ipa_round_commitments(0, &basis, &scalars(&[2, 3, 5, 7]), &scalars(&[11, 13, 17, 19]), &point(5000))
            .unwrap();
    let reduction_round = commitments.to_reduction_round(s(7)).unwrap();
    assert_eq!(reduction_round.input_length, 4);
    assert_eq!(reduction_round.output_length, 2);
    assert_eq!(reduction_round.round_index(), 0);
}

#[test]
fn round_commitments_are_deterministic() {
    let basis = basis(2);
    let a = scalars(&[2, 3, 5, 7]);
    let b = scalars(&[11, 13, 17, 19]);
    let u = point(5000);
    let first = compute_ipa_round_commitments(0, &basis, &a, &b, &u).unwrap();
    let second = compute_ipa_round_commitments(0, &basis, &a, &b, &u).unwrap();
    assert_eq!(first, second);
}

#[test]
fn round_commitments_change_when_inner_product_generator_changes() {
    let basis = basis(2);
    let a = scalars(&[2, 3, 5, 7]);
    let b = scalars(&[11, 13, 17, 19]);
    let first = compute_ipa_round_commitments(0, &basis, &a, &b, &point(5000)).unwrap();
    let second = compute_ipa_round_commitments(0, &basis, &a, &b, &point(5001)).unwrap();
    assert_ne!(first, second);
}

#[test]
fn round_commitments_reject_vector_length_mismatch() {
    let basis = basis(2);
    assert_eq!(
        compute_ipa_round_commitments(0, &basis, &scalars(&[2, 3, 5, 7]), &scalars(&[11, 13]), &point(5000)),
        Err(IpaRoundCommitmentError::LengthMismatch { left: 4, right: 2 })
    );
}

#[test]
fn round_commitments_reject_odd_length() {
    let basis = basis(2);
    assert!(matches!(
        compute_ipa_round_commitments(0, &basis, &scalars(&[2, 3, 5]), &scalars(&[11, 13, 17]), &point(5000)),
        Err(IpaRoundCommitmentError::Reduction(IpaReductionRoundError::OddInputLength { actual: 3 }))
    ));
}

#[test]
fn round_commitments_reject_bad_generator_count() {
    let mut basis = basis(2);
    basis.polynomial_generators.pop();
    assert!(matches!(
        compute_ipa_round_commitments(0, &basis, &scalars(&[2, 3, 5, 7]), &scalars(&[11, 13, 17, 19]), &point(5000)),
        Err(IpaRoundCommitmentError::Curve(IpaCurvePointError::InvalidGeneratorCount { .. }))
    ));
}
