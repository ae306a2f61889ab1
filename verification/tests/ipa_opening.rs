use ark_bls12_381::{Fr, G1Projective};
use ark_ec::{CurveGroup, PrimeGroup};
use ark_serialize::CanonicalSerialize;
use snark_lab::field::Scalar;
use snark_lab::ipa::IpaCommitment;
use snark_lab::ipa_commitment::commit_ipa_polynomial;
use snark_lab::ipa_curve::{IpaCurveGeneratorBasis, IpaCurvePoint};
use snark_lab::ipa_generators::expected_ipa_generator_count;
use snark_lab::ipa_opening_statement::{IpaOpeningStatement, IpaOpeningStatementError};
use snark_lab::ipa_prover_opening::{prove_ipa_opening, IpaProverOpeningError, IpaProverOpeningOutput};
use snark_lab::ipa_round_commitments::IpaRoundCommitmentError;
use snark_lab::ipa_verifier_opening::{verify_ipa_opening, IpaVerifierOpeningError};
use snark_lab::multilinear::Multilinear;
use snark_lab::transcript::MerlinTranscript;

fn s(value: u64) -> Scalar {
    Scalar::from_u64(value)
}

fn point_generator(seed: u64) -> IpaCurvePoint {
    let point = (G1Projective::generator() * Fr::from(seed)).into_affine();
    let mut bytes = Vec::new();
    point.serialize_compressed(&mut bytes).unwrap();
    IpaCurvePoint::from_compressed_bytes(&bytes).unwrap()
}

fn basis(variables: usize) -> IpaCurveGeneratorBasis {
    let count = expected_ipa_generator_count(variables).unwrap();
    IpaCurveGeneratorBasis::new(
        variables,
        (0..count).map(|index| point_generator(index as u64 + 1)).collect(),
        (0..count).map(|index| point_generator(index as u64 + 100)).collect(),
        point_generator(999),
    )
    .unwrap()
}

fn polynomial(values: &[u64]) -> Multilinear {
    Multilinear::new(values.iter().copied().map(s).collect()).unwrap()
}

fn commitment_for(basis: &IpaCurveGeneratorBasis, polynomial: &Multilinear, blinding: Scalar) -> IpaCommitment {
    commit_ipa_polynomial(basis, polynomial, blinding).unwrap().to_opaque_commitment(polynomial.variables()).unwrap()
}

fn prove_for_values(values: &[u64]) -> IpaProverOpeningOutput {
    let polynomial = polynomial(values);
    let basis = basis(polynomial.variables());
    let commitment = commitment_for(&basis, &polynomial, s(0));
    let point = vec![s(3); polynomial.variables()];
    let claimed = polynomial.evaluate(&point).unwrap();
    let inner_product_generator = point_generator(5000);
    let mut transcript = MerlinTranscript::new("ipa-prover-opening-test");
    prove_ipa_opening(&basis, commitment, &polynomial, &point, claimed, &inner_product_generator, &mut transcript)
        .unwrap()
}

#[test]
fn prover_opening_loop_produces_expected_round_count() {
    let output = prove_for_values(&[2, 3, 5, 7, 11, 13, 17, 19]);
    assert_eq!(output.statement.variables(), 3);
    assert_eq!(output.proof.rounds.len(), 3);
    assert_eq!(output.round_commitments.len(), 3);
    assert_eq!(output.final_generator_basis.variables, 0);
    assert_eq!(output.final_generator_basis.polynomial_generators.len(), 1);
    assert_eq!(output.final_generator_basis.evaluation_generators.len(), 1);
    assert!(!output.proof.final_commitment_bytes.is_empty());
}

#[test]
fn prover_opening_loop_is_deterministic_for_same_inputs() {
    let first = prove_for_values(&[2, 3, 5, 7]);
    let second = prove_for_values(&[2, 3, 5, 7]);
    assert_eq!(first.proof, second.proof);
    assert_eq!(first.final_generator_basis, second.final_generator_basis);
    assert_eq!(first.final_relation_commitment, second.final_relation_commitment);
}

#[test]
fn prover_opening_loop_changes_when_polynomial_changes() {
    let first = prove_for_values(&[2, 3, 5, 7]);
    let second = prove_for_values(&[2, 3, 5, 8]);
    assert_ne!(first.proof, second.proof);
}

#[test]
fn prover_opening_loop_rejects_wrong_claim() {
    let polynomial = polynomial(&[2, 3, 5, 7]);
    let basis = basis(2);
    let commitment = commitment_for(&basis, &polynomial, s(0));
    let point = vec![s(3), s(5)];
    let inner_product_generator = point_generator(5000);
    let mut transcript = MerlinTranscript::new("ipa-prover-opening-test");
    assert!(matches!(
        prove_ipa_opening(&basis, commitment, &polynomial, &point, s(123), &inner_product_generator, &mut transcript),
        Err(IpaProverOpeningError::OpeningStatement(IpaOpeningStatementError::ClaimedValueMismatch { .. }))
    ));
}

#[test]
fn prover_opening_loop_rejects_basis_variable_mismatch() {
    let polynomial = polynomial(&[2, 3, 5, 7]);
    let bad_basis = basis(1);
    let good_basis = basis(2);
    let commitment = commitment_for(&good_basis, &polynomial, s(0));
    let point = vec![s(3), s(5)];
    let claimed = polynomial.evaluate(&point).unwrap();
    let inner_product_generator = point_generator(5000);
    let mut transcript = MerlinTranscript::new("ipa-prover-opening-test");
    assert!(matches!(
        prove_ipa_opening(&bad_basis, commitment, &polynomial, &point, claimed, &inner_product_generator, &mut transcript),
        Err(IpaProverOpeningError::RoundCommitment(IpaRoundCommitmentError::GeneratorCountMismatch { .. }))
    ));
}

#[test]
fn prover_opening_loop_handles_zero_variable_polynomial() {
    let output = prove_for_values(&[42]);
    assert_eq!(output.statement.variables(), 0);
    assert_eq!(output.proof.rounds.len(), 0);
    assert_eq!(output.round_commitments.len(), 0);
    assert_eq!(output.final_generator_basis.variables, 0);
    assert!(!output.proof.final_commitment_bytes.is_empty());
}

fn prover_output(values: &[u64], blinding: Scalar) -> (IpaCurveGeneratorBasis, IpaCurvePoint, IpaProverOpeningOutput) {
    let polynomial = polynomial(values);
    let basis = basis(polynomial.variables());
    let commitment = commitment_for(&basis, &polynomial, blinding);
    let point = vec![s(3); polynomial.variables()];
    let claimed = polynomial.evaluate(&point).unwrap();
    let inner_product_generator = point_generator(5000);
    let mut transcript = MerlinTranscript::new("ipa-verifier-opening-test");
    let output =
        prove_ipa_opening(&basis, commitment, &polynomial, &point, claimed, &inner_product_generator, &mut transcript)
            .unwrap();
    (basis, inner_product_generator, output)
}

fn verify_output(
    basis: &IpaCurveGeneratorBasis,
    inner_product_generator: &IpaCurvePoint,
    output: &IpaProverOpeningOutput,
) -> Result<(), IpaVerifierOpeningError> {
    let mut transcript = MerlinTranscript::new("ipa-verifier-opening-test");
    verify_ipa_opening(basis, &output.statement, &output.proof, inner_product_generator, &mut transcript)
}

#[test]
fn verifier_accepts_prover_opening_output() {
    let (basis, inner_product_generator, output) = prover_output(&[2, 3, 5, 7, 11, 13, 17, 19], s(0));
    assert_eq!(verify_output(&basis, &inner_product_generator, &output), Ok(()));
}

#[test]
fn verifier_accepts_zero_variable_opening() {
    let (basis, inner_product_generator, output) = prover_output(&[42], s(0));
    assert_eq!(verify_output(&basis, &inner_product_generator, &output), Ok(()));
}

#[test]
fn verifier_rejects_proof_claim_mismatch() {
    let (basis, inner_product_generator, mut output) = prover_output(&[2, 3, 5, 7], s(0));
    output.proof.claimed_value = output.proof.claimed_value.add(&s(1));
    assert!(matches!(
        verify_output(&basis, &inner_product_generator, &output),
        Err(IpaVerifierOpeningError::ProofClaimMismatch { .. })
    ));
}

#[test]
fn verifier_rejects_tampered_final_scalar() {
    let (basis, inner_product_generator, mut output) = prover_output(&[2, 3, 5, 7], s(0));
    output.proof.final_polynomial_scalar = output.proof.final_polynomial_scalar.add(&s(1));
    assert_eq!(
        verify_output(&basis, &inner_product_generator, &output),
        Err(IpaVerifierOpeningError::FinalCommitmentMismatch)
    );
}

#[test]
fn verifier_rejects_tampered_round_commitment() {
    let (basis, inner_product_generator, mut output) = prover_output(&[2, 3, 5, 7], s(0));
    output.proof.rounds[0].left_commitment_bytes = output.proof.rounds[0].right_commitment_bytes.clone();
    assert!(matches!(
        verify_output(&basis, &inner_product_generator, &output),
        Err(IpaVerifierOpeningError::FinalCommitmentMismatch) | Err(IpaVerifierOpeningError::Curve(_))
    ));
}

#[test]
fn verifier_rejects_wrong_round_index() {
    let (basis, inner_product_generator, mut output) = prover_output(&[2, 3, 5, 7], s(0));
    output.proof.rounds[0].round_index = 7;
    assert_eq!(
        verify_output(&basis, &inner_product_generator, &output),
        Err(IpaVerifierOpeningError::UnexpectedRoundIndex { expected: 0, actual: 7 })
    );
}

#[test]
fn verifier_rejects_wrong_public_commitment() {
    let (basis, inner_product_generator, mut output) = prover_output(&[2, 3, 5, 7], s(0));
    let other_polynomial = polynomial(&[2, 3, 5, 8]);
    output.statement = IpaOpeningStatement::new(
        commitment_for(&basis, &other_polynomial, s(0)),
        output.statement.point.clone(),
        output.statement.claimed_value,
    )
    .unwrap();
    assert_eq!(
        verify_output(&basis, &inner_product_generator, &output),
        Err(IpaVerifierOpeningError::FinalCommitmentMismatch)
    );
}

#[test]
fn verifier_rejects_blinded_commitment_until_blinding_extension_exists() {
    let (basis, inner_product_generator, output) = prover_output(&[2, 3, 5, 7], s(9));
    assert_eq!(
        verify_output(&basis, &inner_product_generator, &output),
        Err(IpaVerifierOpeningError::FinalCommitmentMismatch)
    );
}
