use ark_bls12_381::{Fr, G1Projective};
use ark_ec::{CurveGroup, PrimeGroup};
use ark_serialize::CanonicalSerialize;
use snark_lab::field::Scalar;
use snark_lab::ipa::IpaCommitment;
use snark_lab::ipa_blinded_path::{
    blinded_extension_point, prove_blinded_ipa_opening, verify_blinded_ipa_opening, IpaBlindedPathError,
    IpaBlindedProverInput, IpaBlindedProverOutput, IpaBlindedVerifierInput,
};
use snark_lab::ipa_blinding::extend_ipa_opening_for_blinding;
use snark_lab::ipa_commitment::commit_ipa_polynomial;
use snark_lab::ipa_curve::{IpaCurveGeneratorBasis, IpaCurvePoint};
use snark_lab::ipa_evaluation::compute_ipa_evaluation_basis;
use snark_lab::ipa_generators::expected_ipa_generator_count;
use snark_lab::ipa_verifier_opening::IpaVerifierOpeningError;
use snark_lab::multilinear::Multilinear;
use snark_lab::transcript::MerlinTranscript;

fn s(value: u64) -> Scalar {
    Scalar::from_u64(value)
}

fn point(seed: u64) -> IpaCurvePoint {
    let point = (G1Projective::generator() * Fr::from(seed)).into_affine();
    let mut bytes = Vec::new();
    point.serialize_compressed(&mut bytes).unwrap();
    IpaCurvePoint::from_compressed_bytes(&bytes).unwrap()
}

fn basis(variables: usize) -> IpaCurveGeneratorBasis {
    let count = expected_ipa_generator_count(variables).unwrap();
    IpaCurveGeneratorBasis::new(
        variables,
        (0..count).map(|index| point(index as u64 + 1)).collect(),
        (0..count).map(|index| point(index as u64 + 100)).collect(),
        point(999),
    )
    .unwrap()
}

fn polynomial(values: &[u64]) -> Multilinear {
    Multilinear::new(values.iter().copied().map(s).collect()).unwrap()
}

fn commitment_for(basis: &IpaCurveGeneratorBasis, polynomial: &Multilinear, blinding: Scalar) -> IpaCommitment {
    commit_ipa_polynomial(basis, polynomial, blinding).unwrap().to_opaque_commitment(polynomial.variables()).unwrap()
}

fn padding_polynomial(variables: usize) -> Vec<IpaCurvePoint> {
    let original_len = expected_ipa_generator_count(variables).unwrap();
    let extended_len = expected_ipa_generator_count(variables + 1).unwrap();
    (0..(extended_len - original_len - 1)).map(|index| point(index as u64 + 2000)).collect()
}

fn padding_evaluation(variables: usize) -> Vec<IpaCurvePoint> {
    let original_len = expected_ipa_generator_count(variables).unwrap();
    let extended_len = expected_ipa_generator_count(variables + 1).unwrap();
    (0..(extended_len - original_len)).map(|index| point(index as u64 + 3000)).collect()
}

fn prove_blinded_for_values(
    values: &[u64],
    blinding: Scalar,
) -> (IpaCurveGeneratorBasis, IpaCurvePoint, IpaCommitment, Vec<Scalar>, Scalar, IpaBlindedProverOutput) {
    let polynomial = polynomial(values);
    let basis = basis(polynomial.variables());
    let commitment = commitment_for(&basis, &polynomial, blinding);
    let opening_point = vec![s(3); polynomial.variables()];
    let claimed = polynomial.evaluate(&opening_point).unwrap();
    let inner_product_generator = point(5000);
    let mut transcript = MerlinTranscript::new("ipa-blinded-path-test");
    let output = prove_blinded_ipa_opening(
        IpaBlindedProverInput {
            basis: &basis,
            commitment: commitment.clone(),
            polynomial: &polynomial,
            point: &opening_point,
            claimed_value: claimed,
            commitment_blinding: blinding,
            padding_polynomial_generators: padding_polynomial(polynomial.variables()),
            padding_evaluation_generators: padding_evaluation(polynomial.variables()),
            extended_blinding_generator: point(9000),
            inner_product_generator: &inner_product_generator,
        },
        &mut transcript,
    )
    .unwrap();
    (basis, inner_product_generator, commitment, opening_point, claimed, output)
}

fn verify_blinded_output(
    basis: &IpaCurveGeneratorBasis,
    inner_product_generator: &IpaCurvePoint,
    commitment: IpaCommitment,
    opening_point: &[Scalar],
    claimed: Scalar,
    output: &IpaBlindedProverOutput,
) -> Result<(), IpaBlindedPathError> {
    let mut transcript = MerlinTranscript::new("ipa-blinded-path-test");
    verify_blinded_ipa_opening(
        IpaBlindedVerifierInput {
            basis,
            commitment,
            point: opening_point,
            claimed_value: claimed,
            proof: &output.prover_output.proof,
            padding_polynomial_generators: padding_polynomial(basis.variables),
            padding_evaluation_generators: padding_evaluation(basis.variables),
            extended_blinding_generator: point(9000),
            inner_product_generator,
        },
        &mut transcript,
    )
}

#[test]
fn blinded_prover_verifier_accepts_matching_blinded_opening() {
    let (basis, inner_product_generator, commitment, opening_point, claimed, output) =
        prove_blinded_for_values(&[2, 3, 5, 7], s(9));
    assert_eq!(
        verify_blinded_output(&basis, &inner_product_generator, commitment, &opening_point, claimed, &output),
        Ok(())
    );
}

#[test]
fn blinded_path_handles_zero_variable_polynomial() {
    let (basis, inner_product_generator, commitment, opening_point, claimed, output) =
        prove_blinded_for_values(&[42], s(9));
    assert_eq!(output.extension.original_variables, 0);
    assert_eq!(output.extension.extended_variables, 1);
    assert_eq!(
        verify_blinded_output(&basis, &inner_product_generator, commitment, &opening_point, claimed, &output),
        Ok(())
    );
}

#[test]
fn blinded_prover_rejects_commitment_witness_mismatch() {
    let polynomial = polynomial(&[2, 3, 5, 7]);
    let basis = basis(2);
    let commitment = commitment_for(&basis, &polynomial, s(10));
    let opening_point = vec![s(3), s(3)];
    let claimed = polynomial.evaluate(&opening_point).unwrap();
    let inner_product_generator = point(5000);
    let mut transcript = MerlinTranscript::new("ipa-blinded-path-test");
    assert_eq!(
        prove_blinded_ipa_opening(
            IpaBlindedProverInput {
                basis: &basis,
                commitment,
                polynomial: &polynomial,
                point: &opening_point,
                claimed_value: claimed,
                commitment_blinding: s(9),
                padding_polynomial_generators: padding_polynomial(2),
                padding_evaluation_generators: padding_evaluation(2),
                extended_blinding_generator: point(9000),
                inner_product_generator: &inner_product_generator,
            },
            &mut transcript,
        ),
        Err(IpaBlindedPathError::CommitmentWitnessMismatch)
    );
}

#[test]
fn blinded_verifier_rejects_wrong_public_commitment() {
    let (basis, inner_product_generator, _commitment, opening_point, claimed, output) =
        prove_blinded_for_values(&[2, 3, 5, 7], s(9));
    let other_commitment = commitment_for(&basis, &polynomial(&[2, 3, 5, 8]), s(9));
    assert!(matches!(
        verify_blinded_output(&basis, &inner_product_generator, other_commitment, &opening_point, claimed, &output),
        Err(IpaBlindedPathError::Verifier(IpaVerifierOpeningError::FinalCommitmentMismatch))
    ));
}

#[test]
fn blinded_verifier_rejects_tampered_final_scalar() {
    let (basis, inner_product_generator, commitment, opening_point, claimed, mut output) =
        prove_blinded_for_values(&[2, 3, 5, 7], s(9));
    output.prover_output.proof.final_polynomial_scalar = output.prover_output.proof.final_polynomial_scalar.add(&s(1));
    assert!(matches!(
        verify_blinded_output(&basis, &inner_product_generator, commitment, &opening_point, claimed, &output),
        Err(IpaBlindedPathError::Verifier(IpaVerifierOpeningError::FinalCommitmentMismatch))
    ));
}

#[test]
fn blinded_verifier_rejects_wrong_padding_count() {
    let (basis, inner_product_generator, commitment, opening_point, claimed, output) =
        prove_blinded_for_values(&[2, 3, 5, 7], s(9));
    let mut transcript = MerlinTranscript::new("ipa-blinded-path-test");
    assert_eq!(
        verify_blinded_ipa_opening(
            IpaBlindedVerifierInput {
                basis: &basis,
                commitment,
                point: &opening_point,
                claimed_value: claimed,
                proof: &output.prover_output.proof,
                padding_polynomial_generators: vec![point(2000)],
                padding_evaluation_generators: padding_evaluation(2),
                extended_blinding_generator: point(9000),
                inner_product_generator: &inner_product_generator,
            },
            &mut transcript,
        ),
        Err(IpaBlindedPathError::PaddingGeneratorCountMismatch { label: "polynomial", expected: 3, actual: 1 })
    );
}

#[test]
fn blinded_extended_point_matches_extension_evaluation_vector() {
    let polynomial = polynomial(&[2, 3, 5, 7]);
    let basis = basis(2);
    let opening_point = vec![s(3), s(3)];
    let original_evaluation_basis = compute_ipa_evaluation_basis(&opening_point).unwrap();
    let extension = extend_ipa_opening_for_blinding(
        &basis,
        &polynomial,
        &original_evaluation_basis,
        s(9),
        padding_polynomial(2),
        padding_evaluation(2),
        point(9000),
    )
    .unwrap();
    let extended_point = blinded_extension_point(&opening_point);
    let extended_evaluation_basis = compute_ipa_evaluation_basis(&extended_point).unwrap();
    assert_eq!(extension.evaluation_vector, extended_evaluation_basis.basis_evaluations);
}
