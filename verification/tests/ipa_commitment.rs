use ark_bls12_381::{Fr, G1Affine, G1Projective};
use ark_ec::{AffineRepr, CurveGroup, PrimeGroup};
use ark_ff::{PrimeField, Zero};
use ark_serialize::{CanonicalDeserialize, CanonicalSerialize};
use snark_lab::field::Scalar;
use snark_lab::ipa_commitment::{
    check_ipa_commitment_equation, commit_ipa_polynomial, commit_with_ipa_prover_key, IpaCommitmentEquationError,
    IpaCurveCommitment, IpaCurveProverKey, IpaProverCommitError,
};
use snark_lab::ipa_curve::{IpaCurveGeneratorBasis, IpaCurvePoint, IpaCurvePointError};
use snark_lab::ipa_generators::expected_ipa_generator_count;
use snark_lab::multilinear::Multilinear;
use snark_lab::pcs::PcsShapeError;

fn s(value: u64) -> Scalar {
    Scalar::from_u64(value)
}

fn compressed(point: G1Projective) -> Vec<u8> {
    let mut bytes = Vec::new();
    point.into_affine().serialize_compressed(&mut bytes).unwrap();
    bytes
}

fn point(seed: u64) -> IpaCurvePoint {
    IpaCurvePoint::from_compressed_bytes(&compressed(G1Projective::generator() * Fr::from(seed))).unwrap()
}

fn group_of(bytes: &[u8]) -> G1Projective {
    G1Affine::deserialize_compressed(bytes).unwrap().into_group()
}

fn fr_of(value: &Scalar) -> Fr {
    Fr::from_le_bytes_mod_order(&value.to_le_bytes())
}

fn basis(variables: usize) -> IpaCurveGeneratorBasis {
    let count = expected_ipa_generator_count(variables).unwrap();
    IpaCurveGeneratorBasis::new(
        variables,
        (0..count).map(|index| point(index as u64 + 1)).collect(),
        (0..count).map(|index| point(index as u64 + 100)).collect(),
        point(999),
    )
    .unwrap()
}

fn polynomial(values: &[u64]) -> Multilinear {
    Multilinear::new(values.iter().copied().map(s).collect()).unwrap()
}

fn commitment_group(commitment: &IpaCurveCommitment) -> G1Projective {
    group_of(&commitment.to_compressed_bytes().unwrap())
}

#[test]
fn commitment_equation_matches_manual_linear_combination() {
    let basis = basis(2);
    let polynomial = polynomial(&[3, 5, 7, 11]);
    let blinding = s(13);
    let commitment = commit_ipa_polynomial(&basis, &polynomial, blinding).unwrap();
    let mut manual = G1Projective::zero();
    for (scalar, generator) in polynomial.evaluations().iter().zip(basis.polynomial_generators.iter()) {
        manual += group_of(&generator.to_compressed_bytes().unwrap()) * fr_of(scalar);
    }
    manual += group_of(&basis.blinding_generator.to_compressed_bytes().unwrap()) * fr_of(&blinding);
    let manual_commitment = IpaCurveCommitment::from_compressed_bytes(&compressed(manual)).unwrap();
    assert_eq!(commitment, manual_commitment);
}

#[test]
fn commitment_equation_check_accepts_matching_commitment() {
    let basis = basis(2);
    let polynomial = polynomial(&[3, 5, 7, 11]);
    let blinding = s(13);
    let commitment = commit_ipa_polynomial(&basis, &polynomial, blinding).unwrap();
    assert_eq!(check_ipa_commitment_equation(&commitment, &basis, &polynomial, blinding), Ok(true));
}

#[test]
fn commitment_equation_check_rejects_wrong_blinding() {
    let basis = basis(2);
    let polynomial = polynomial(&[3, 5, 7, 11]);
    let commitment = commit_ipa_polynomial(&basis, &polynomial, s(13)).unwrap();
    assert_eq!(check_ipa_commitment_equation(&commitment, &basis, &polynomial, s(14)), Ok(false));
}

#[test]
fn commitment_equation_rejects_variable_mismatch() {
    let basis = basis(1);
    let polynomial = polynomial(&[3, 5, 7, 11]);
    assert_eq!(
        commit_ipa_polynomial(&basis, &polynomial, s(13)),
        Err(IpaCommitmentEquationError::VariableCountMismatch { polynomial_variables: 2, basis_variables: 1 })
    );
}

#[test]
fn commitment_equation_rejects_generator_count_mismatch() {
    let mut basis = basis(2);
    basis.polynomial_generators.pop();
    let polynomial = polynomial(&[3, 5, 7, 11]);
    assert_eq!(
        commit_ipa_polynomial(&basis, &polynomial, s(13)),
        Err(IpaCommitmentEquationError::Curve(IpaCurvePointError::InvalidGeneratorCount {
            label: "polynomial",
            expected: 4,
            actual: 3
        }))
    );
}

#[test]
fn commitment_equation_is_linear_in_polynomial_and_blinding() {
    let basis = basis(1);
    let p1 = polynomial(&[2, 3]);
    let p2 = polynomial(&[5, 7]);
    let p_sum = polynomial(&[7, 10]);
    let c1 = commit_ipa_polynomial(&basis, &p1, s(11)).unwrap();
    let c2 = commit_ipa_polynomial(&basis, &p2, s(13)).unwrap();
    let c_sum = commit_ipa_polynomial(&basis, &p_sum, s(24)).unwrap();
    let combined =
        IpaCurveCommitment::from_compressed_bytes(&compressed(commitment_group(&c1) + commitment_group(&c2))).unwrap();
    assert_eq!(combined, c_sum);
}

#[test]
fn curve_commitment_roundtrip_uses_canonical_compressed_bytes() {
    let basis = basis(2);
    let polynomial = polynomial(&[3, 5, 7, 11]);
    let commitment = commit_ipa_polynomial(&basis, &polynomial, s(13)).unwrap();
    let encoded = commitment.to_compressed_bytes().unwrap();
    let decoded = IpaCurveCommitment::from_compressed_bytes(&encoded).unwrap();
    assert_eq!(commitment, decoded);
    assert_eq!(encoded, decoded.to_compressed_bytes().unwrap());
}

#[test]
fn curve_commitment_converts_to_opaque_commitment() {
    let basis = basis(1);
    let polynomial = polynomial(&[3, 5]);
    let commitment = commit_ipa_polynomial(&basis, &polynomial, s(13)).unwrap();
    let opaque = commitment.to_opaque_commitment(polynomial.variables()).unwrap();
    assert_eq!(opaque.variables, 1);
    assert_eq!(opaque.commitment_bytes, commitment.to_compressed_bytes().unwrap());
}

#[test]
fn prover_key_accepts_basis_within_supported_variables() {
    let key = IpaCurveProverKey::new(4, basis(2)).unwrap();
    assert_eq!(key.supported_variables, 4);
    assert_eq!(key.variables(), 2);
}

#[test]
fn prover_key_rejects_basis_above_supported_variables() {
    assert_eq!(
        IpaCurveProverKey::new(1, basis(2)),
        Err(IpaProverCommitError::Shape(PcsShapeError::UnsupportedVariableCount { requested: 2, supported: 1 }))
    );
}

#[test]
fn prover_commit_path_returns_curve_and_opaque_commitments() {
    let key = IpaCurveProverKey::new(2, basis(2)).unwrap();
    let polynomial = polynomial(&[3, 5, 7, 11]);
    let blinding = s(13);
    let committed = commit_with_ipa_prover_key(&key, &polynomial, blinding).unwrap();
    assert_eq!(committed.opaque_commitment.variables, 2);
    assert_eq!(committed.opaque_commitment.commitment_bytes, committed.curve_commitment.to_compressed_bytes().unwrap());
    assert_eq!(
        check_ipa_commitment_equation(&committed.curve_commitment, &key.generator_basis, &polynomial, blinding),
        Ok(true)
    );
}

#[test]
fn prover_commit_path_rejects_polynomial_above_supported_variables() {
    let key = IpaCurveProverKey::new(1, basis(1)).unwrap();
    let polynomial = polynomial(&[3, 5, 7, 11]);
    assert_eq!(
        commit_with_ipa_prover_key(&key, &polynomial, s(13)),
        Err(IpaProverCommitError::Shape(PcsShapeError::UnsupportedVariableCount { requested: 2, supported: 1 }))
    );
}

#[test]
fn prover_commit_path_rejects_basis_polynomial_mismatch() {
    let key = IpaCurveProverKey::new(2, basis(1)).unwrap();
    let polynomial = polynomial(&[3, 5, 7, 11]);
    assert_eq!(
        commit_with_ipa_prover_key(&key, &polynomial, s(13)),
        Err(IpaProverCommitError::Commitment(IpaCommitmentEquationError::VariableCountMismatch {
            polynomial_variables: 2,
            basis_variables: 1
        }))
    );
}

#[test]
fn prover_commit_path_is_deterministic_for_same_blinding() {
    let key = IpaCurveProverKey::new(2, basis(2)).unwrap();
    let polynomial = polynomial(&[3, 5, 7, 11]);
    let a = commit_with_ipa_prover_key(&key, &polynomial, s(13)).unwrap();
    let b = commit_with_ipa_prover_key(&key, &polynomial, s(13)).unwrap();
    assert_eq!(a, b);
}

#[test]
fn prover_commit_path_changes_when_blinding_changes() {
    let key = IpaCurveProverKey::new(2, basis(2)).unwrap();
    let polynomial = polynomial(&[3, 5, 7, 11]);
    let a = commit_with_ipa_prover_key(&key, &polynomial, s(13)).unwrap();
    let b = commit_with_ipa_prover_key(&key, &polynomial, s(14)).unwrap();
    assert_ne!(a, b);
}

#[test]
fn identity_commitment_is_representable() {
    let identity = IpaCurveCommitment::from_compressed_bytes(&compressed(G1Projective::zero())).unwrap();
    assert!(G1Affine::deserialize_compressed(&identity.to_compressed_bytes().unwrap()[..]).unwrap().is_zero());
}
