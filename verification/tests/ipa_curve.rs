use ark_ec::{CurveGroup, PrimeGroup};
use ark_serialize::CanonicalSerialize;
use snark_lab::curve::GroupElement;
use snark_lab::field::Scalar;
use snark_lab::ipa_curve::{bind_ipa_curve_generator_basis, IpaCurveGeneratorBasis, IpaCurvePoint, IpaCurvePointError};
use snark_lab::ipa_generators::expected_ipa_generator_count;
use snark_lab::transcript::{MerlinTranscript, ProofTranscript};

fn point(seed: u64) -> IpaCurvePoint {
    let point = (ark_bls12_381::G1Projective::generator() * ark_bls12_381::Fr::from(seed)).into_affine();
    let mut bytes = Vec::new();
    point.serialize_compressed(&mut bytes).unwrap();
    IpaCurvePoint::from_compressed_bytes(&bytes).unwrap()
}

fn basis(variables: usize) -> IpaCurveGeneratorBasis {
    let count = expected_ipa_generator_count(variables).unwrap();
    IpaCurveGeneratorBasis::new(
        variables,
        (0..count).map(|index| point(index as u64 + 1)).collect(),
        (0..count).map(|index| point(index as u64 + 100)).collect(),
        point(999),
    )
    .unwrap()
}

fn bound_challenge(basis: &IpaCurveGeneratorBasis) -> Scalar {
    let mut transcript = MerlinTranscript::new("ipa-curve-generator-test");
    bind_ipa_curve_generator_basis(&mut transcript, basis).unwrap();
    transcript.challenge_scalar("after-curve-generators")
}

#[test]
fn curve_point_roundtrip_uses_compressed_bytes() {
    let original = point(42);
    let bytes = original.to_compressed_bytes().unwrap();
    let decoded = IpaCurvePoint::from_compressed_bytes(&bytes).unwrap();
    assert_eq!(original, decoded);
    assert_eq!(bytes, decoded.to_compressed_bytes().unwrap());
}

#[test]
fn curve_point_rejects_identity() {
    assert_eq!(IpaCurvePoint::from_projective(GroupElement::identity()), Err(IpaCurvePointError::IdentityPoint));
}

#[test]
fn curve_point_rejects_invalid_bytes() {
    assert_eq!(IpaCurvePoint::from_compressed_bytes(&[1, 2, 3]), Err(IpaCurvePointError::DeserializationFailed));
}

#[test]
fn curve_generator_basis_accepts_valid_points() {
    let basis = basis(2);
    assert_eq!(basis.variables, 2);
    assert_eq!(basis.polynomial_generators.len(), 4);
    assert_eq!(basis.evaluation_generators.len(), 4);
    assert_eq!(basis.validate(), Ok(()));
}

#[test]
fn curve_generator_basis_rejects_wrong_count() {
    let mut polynomial = (0..3).map(|index| point(index + 1)).collect::<Vec<_>>();
    polynomial.pop();
    assert_eq!(
        IpaCurveGeneratorBasis::new(2, polynomial, (0..4).map(|index| point(index + 100)).collect(), point(999)),
        Err(IpaCurvePointError::InvalidGeneratorCount { label: "polynomial", expected: 4, actual: 2 })
    );
}

#[test]
fn curve_generator_basis_rejects_duplicates_across_sets() {
    let duplicate = point(3);
    let polynomial = vec![point(1), duplicate.clone()];
    let evaluation = vec![duplicate, point(100)];
    assert_eq!(
        IpaCurveGeneratorBasis::new(1, polynomial, evaluation, point(999)),
        Err(IpaCurvePointError::DuplicatePoint { label: "evaluation", index: 0 })
    );
}

#[test]
fn curve_generator_basis_converts_to_opaque_basis() {
    let basis = basis(1);
    let opaque = basis.to_opaque_basis().unwrap();
    assert_eq!(opaque.variables, 1);
    assert_eq!(opaque.polynomial_generators.len(), 2);
    assert_eq!(opaque.evaluation_generators.len(), 2);
    assert!(opaque.validate().is_ok());
}

#[test]
fn curve_generator_basis_binding_is_deterministic() {
    let basis = basis(2);
    assert_eq!(bound_challenge(&basis), bound_challenge(&basis));
}

#[test]
fn curve_generator_basis_binding_changes_when_point_changes() {
    let a = basis(2);
    let mut b = basis(2);
    b.polynomial_generators[0] = point(777);
    assert_ne!(bound_challenge(&a), bound_challenge(&b));
}

#[test]
fn blinding_generator_must_differ_from_the_others() {
    assert_eq!(
        IpaCurveGeneratorBasis::new(1, vec![point(1), point(2)], vec![point(3), point(4)], point(2)),
        Err(IpaCurvePointError::DuplicatePoint { label: "blinding", index: 0 })
    );
    assert_eq!(
        IpaCurveGeneratorBasis::new(1, vec![point(1), point(1)], vec![point(3), point(4)], point(5)),
        Err(IpaCurvePointError::DuplicatePoint { label: "polynomial", index: 1 })
    );
}
