use ark_bls12_381::{Fr, G1Projective};
use ark_ec::{CurveGroup, PrimeGroup};
use ark_serialize::CanonicalSerialize;
use snark_lab::field::Scalar;
use snark_lab::ipa_blinding::{extend_ipa_opening_for_blinding, IpaBlindingExtensionError};
use snark_lab::ipa_curve::{IpaCurveGeneratorBasis, IpaCurvePoint, IpaCurvePointError};
use snark_lab::ipa_evaluation::compute_ipa_evaluation_basis;
use snark_lab::ipa_generators::expected_ipa_generator_count;
use snark_lab::multilinear::Multilinear;

fn s(value: u64) -> Scalar {
    Scalar::from_u64(value)
}

fn point(seed: u64) -> IpaCurvePoint {
    let point = (G1Projective::generator() * Fr::from(seed)).into_affine();
    let mut bytes = Vec::new();
    point.serialize_compressed(&mut bytes).unwrap();
    IpaCurvePoint::from_compressed_bytes(&bytes).unwrap()
}

fn basis(variables: usize) -> IpaCurveGeneratorBasis {
    let count = expected_ipa_generator_count(variables).unwrap();
    IpaCurveGeneratorBasis::new(
        variables,
        (0..count).map(|index| point(index as u64 + 1)).collect(),
        (0..count).map(|index| point(index as u64 + 100)).collect(),
        point(999),
    )
    .unwrap()
}

fn polynomial(values: &[u64]) -> Multilinear {
    Multilinear::new(values.iter().copied().map(s).collect()).unwrap()
}

fn inner_product(left: &[Scalar], right: &[Scalar]) -> Scalar {
    let mut sum = Scalar::zero();
    for (left_value, right_value) in left.iter().zip(right.iter()) {
        sum = sum.add(&left_value.mul(right_value));
    }
    sum
}

#[test]
fn blinded_extension_preserves_opening_value() {
    let polynomial = polynomial(&[2, 3, 5, 7]);
    let basis = basis(2);
    let point_coordinates = vec![s(3), s(5)];
    let evaluation_basis = compute_ipa_evaluation_basis(&point_coordinates).unwrap();
    let claimed = polynomial.evaluate(&point_coordinates).unwrap();
    let extension = extend_ipa_opening_for_blinding(
        &basis,
        &polynomial,
        &evaluation_basis,
        s(123),
        vec![point(2000), point(2001), point(2002)],
        vec![point(3000), point(3001), point(3002), point(3003)],
        point(9000),
    )
    .unwrap();
    assert_eq!(extension.original_variables, 2);
    assert_eq!(extension.extended_variables, 3);
    assert_eq!(extension.polynomial_vector.len(), 8);
    assert_eq!(extension.evaluation_vector.len(), 8);
    assert_eq!(extension.polynomial_vector[4], s(123));
    assert_eq!(extension.evaluation_vector[4], s(0));
    assert_eq!(inner_product(&extension.polynomial_vector, &extension.evaluation_vector), claimed);
    assert!(extension.generator_basis.validate().is_ok());
}

#[test]
fn blinded_extension_places_original_blinding_generator_as_polynomial_generator() {
    let polynomial = polynomial(&[2, 3, 5, 7]);
    let basis = basis(2);
    let evaluation_basis = compute_ipa_evaluation_basis(&[s(3), s(5)]).unwrap();
    let extension = extend_ipa_opening_for_blinding(
        &basis,
        &polynomial,
        &evaluation_basis,
        s(123),
        vec![point(2000), point(2001), point(2002)],
        vec![point(3000), point(3001), point(3002), point(3003)],
        point(9000),
    )
    .unwrap();
    assert_eq!(extension.generator_basis.polynomial_generators[4], basis.blinding_generator);
}

#[test]
fn blinded_extension_rejects_basis_variable_mismatch() {
    let polynomial = polynomial(&[2, 3, 5, 7]);
    let bad_basis = basis(1);
    let evaluation_basis = compute_ipa_evaluation_basis(&[s(3), s(5)]).unwrap();
    assert_eq!(
        extend_ipa_opening_for_blinding(&bad_basis, &polynomial, &evaluation_basis, s(123), Vec::new(), Vec::new(), point(9000)),
        Err(IpaBlindingExtensionError::BasisVariableMismatch { basis_variables: 1, polynomial_variables: 2 })
    );
}

#[test]
fn blinded_extension_rejects_evaluation_basis_variable_mismatch() {
    let polynomial = polynomial(&[2, 3, 5, 7]);
    let basis = basis(2);
    let bad_evaluation_basis = compute_ipa_evaluation_basis(&[s(3)]).unwrap();
    assert_eq!(
        extend_ipa_opening_for_blinding(
            &basis,
            &polynomial,
            &bad_evaluation_basis,
            s(123),
            vec![point(2000), point(2001), point(2002)],
            vec![point(3000), point(3001), point(3002), point(3003)],
            point(9000),
        ),
        Err(IpaBlindingExtensionError::EvaluationBasisVariableMismatch { basis_variables: 1, polynomial_variables: 2 })
    );
}

#[test]
fn blinded_extension_rejects_wrong_padding_count() {
    let polynomial = polynomial(&[2, 3, 5, 7]);
    let basis = basis(2);
    let evaluation_basis = compute_ipa_evaluation_basis(&[s(3), s(5)]).unwrap();
    assert_eq!(
        extend_ipa_opening_for_blinding(
            &basis,
            &polynomial,
            &evaluation_basis,
            s(123),
            vec![point(2000)],
            vec![point(3000), point(3001), point(3002), point(3003)],
            point(9000),
        ),
        Err(IpaBlindingExtensionError::PaddingGeneratorCountMismatch { label: "polynomial", expected: 3, actual: 1 })
    );
}

#[test]
fn blinded_extension_rejects_duplicate_extended_blinding_generator() {
    let polynomial = polynomial(&[2, 3, 5, 7]);
    let basis = basis(2);
    let evaluation_basis = compute_ipa_evaluation_basis(&[s(3), s(5)]).unwrap();
    assert!(matches!(
        extend_ipa_opening_for_blinding(
            &basis,
            &polynomial,
            &evaluation_basis,
            s(123),
            vec![point(2000), point(2001), point(2002)],
            vec![point(3000), point(3001), point(3002), point(3003)],
            point(1),
        ),
        Err(IpaBlindingExtensionError::Curve(IpaCurvePointError::DuplicatePoint { .. }))
    ));
}

#[test]
fn zero_variable_blinded_extension_has_two_entries() {
    let polynomial = polynomial(&[42]);
    let basis = basis(0);
    let evaluation_basis = compute_ipa_evaluation_basis(&[]).unwrap();
    let extension = extend_ipa_opening_for_blinding(
        &basis,
        &polynomial,
        &evaluation_basis,
        s(123),
        Vec::new(),
        vec![point(3000)],
        point(9000),
    )
    .unwrap();
    assert_eq!(extension.original_variables, 0);
    assert_eq!(extension.extended_variables, 1);
    assert_eq!(extension.polynomial_vector, vec![s(42), s(123)]);
    assert_eq!(extension.evaluation_vector, vec![s(1), s(0)]);
}
