use ark_ec::{CurveGroup, PrimeGroup};
use ark_serialize::CanonicalSerialize;
use snark_lab::field::Scalar;
use snark_lab::ipa::IpaCommitment;
use snark_lab::ipa_backend_integration::{
    commit_ipa_backend, open_ipa_backend, trim_ipa_integrated_keys, verify_ipa_backend, IpaBackendIntegrationError,
    IpaIntegratedCommitmentWitness, IpaIntegratedKeyPair, IpaIntegratedOpening, IpaIntegratedProverKey,
    IpaIntegratedVerifierKey,
};
use snark_lab::ipa_curve::{IpaCurveGeneratorBasis, IpaCurvePoint};
use snark_lab::ipa_generators::expected_ipa_generator_count;
use snark_lab::multilinear::Multilinear;
use snark_lab::transcript::MerlinTranscript;

const TRANSCRIPT_LABEL: &str = "ipa-negative-fixtures-test/v1";

struct Fixture {
    #[allow(dead_code)]
    prover_key: IpaIntegratedProverKey,
    verifier_key: IpaIntegratedVerifierKey,
    witness: IpaIntegratedCommitmentWitness,
    point: Vec<Scalar>,
    opening: IpaIntegratedOpening,
}

fn point_generator(seed: u64) -> IpaCurvePoint {
    let point = (ark_bls12_381::G1Projective::generator() * ark_bls12_381::Fr::from(seed)).into_affine();
    let mut bytes = Vec::new();
    point.serialize_compressed(&mut bytes).unwrap();
    IpaCurvePoint::from_compressed_bytes(&bytes).unwrap()
}

fn basis(variables: usize) -> IpaCurveGeneratorBasis {
    let count = expected_ipa_generator_count(variables).unwrap();
    IpaCurveGeneratorBasis::new(
        variables,
        (0..count).map(|index| point_generator(index as u64 + 1)).collect(),
        (0..count).map(|index| point_generator(index as u64 + 100)).collect(),
        point_generator(999),
    )
    .unwrap()
}

fn padding_polynomial(variables: usize) -> Vec<IpaCurvePoint> {
    let original_len = expected_ipa_generator_count(variables).unwrap();
    let extended_len = expected_ipa_generator_count(variables + 1).unwrap();
    (0..(extended_len - original_len - 1)).map(|index| point_generator(index as u64 + 2_000)).collect()
}

fn padding_evaluation(variables: usize) -> Vec<IpaCurvePoint> {
    let original_len = expected_ipa_generator_count(variables).unwrap();
    let extended_len = expected_ipa_generator_count(variables + 1).unwrap();
    (0..(extended_len - original_len)).map(|index| point_generator(index as u64 + 3_000)).collect()
}

fn keys(variables: usize) -> IpaIntegratedKeyPair {
    trim_ipa_integrated_keys(
        basis(variables),
        point_generator(5_000),
        padding_polynomial(variables),
        padding_evaluation(variables),
        point_generator(9_000),
    )
    .unwrap()
}

fn polynomial(values: &[u64]) -> Multilinear {
    Multilinear::new(values.iter().copied().map(Scalar::from_u64).collect()).unwrap()
}

fn fixture() -> Fixture {
    let polynomial = polynomial(&[2, 3, 5, 7]);
    let point = vec![Scalar::from_u64(3); polynomial.variables()];
    let (prover_key, verifier_key) = keys(polynomial.variables());
    let witness = commit_ipa_backend(&prover_key, &polynomial, Scalar::from_u64(9)).unwrap();
    let mut transcript = MerlinTranscript::new(TRANSCRIPT_LABEL);
    let opening = open_ipa_backend(&prover_key, &witness, &polynomial, &point, &mut transcript).unwrap();
    Fixture { prover_key, verifier_key, witness, point, opening }
}

fn verify_with_label(
    verifier_key: &IpaIntegratedVerifierKey,
    commitment: &IpaCommitment,
    point: &[Scalar],
    opening: &IpaIntegratedOpening,
    transcript_label: &'static str,
) -> Result<Scalar, IpaBackendIntegrationError> {
    let mut transcript = MerlinTranscript::new(transcript_label);
    verify_ipa_backend(verifier_key, commitment, point, opening, &mut transcript)
}

#[test]
fn negative_fixture_accepts_honest_opening() {
    let fixture = fixture();
    assert_eq!(
        verify_with_label(
            &fixture.verifier_key,
            &fixture.witness.commitment,
            &fixture.point,
            &fixture.opening,
            TRANSCRIPT_LABEL,
        ),
        Ok(fixture.opening.claimed_value)
    );
}

#[test]
fn negative_fixture_rejects_wrong_commitment() {
    let fixture = fixture();
    let other_polynomial = polynomial(&[2, 3, 5, 8]);
    let other_witness = commit_ipa_backend(&fixture.prover_key, &other_polynomial, Scalar::from_u64(9)).unwrap();
    assert!(verify_with_label(
        &fixture.verifier_key,
        &other_witness.commitment,
        &fixture.point,
        &fixture.opening,
        TRANSCRIPT_LABEL,
    )
    .is_err());
}

#[test]
fn negative_fixture_rejects_wrong_opening_point() {
    let fixture = fixture();
    let wrong_point = vec![Scalar::from_u64(4), Scalar::from_u64(3)];
    assert!(verify_with_label(
        &fixture.verifier_key,
        &fixture.witness.commitment,
        &wrong_point,
        &fixture.opening,
        TRANSCRIPT_LABEL,
    )
    .is_err());
}

#[test]
fn negative_fixture_rejects_wrong_transcript_label() {
    let fixture = fixture();
    assert!(verify_with_label(
        &fixture.verifier_key,
        &fixture.witness.commitment,
        &fixture.point,
        &fixture.opening,
        "ipa-negative-fixtures-wrong-transcript/v1",
    )
    .is_err());
}

#[test]
fn negative_fixture_rejects_tampered_claimed_value() {
    let fixture = fixture();
    let mut opening = fixture.opening.clone();
    opening.claimed_value = opening.claimed_value.add(&Scalar::from_u64(1));
    assert!(verify_with_label(
        &fixture.verifier_key,
        &fixture.witness.commitment,
        &fixture.point,
        &opening,
        TRANSCRIPT_LABEL,
    )
    .is_err());
}

#[test]
fn negative_fixture_rejects_tampered_final_scalar() {
    let fixture = fixture();
    let mut opening = fixture.opening.clone();
    opening.proof.final_polynomial_scalar = opening.proof.final_polynomial_scalar.add(&Scalar::from_u64(1));
    assert!(verify_with_label(
        &fixture.verifier_key,
        &fixture.witness.commitment,
        &fixture.point,
        &opening,
        TRANSCRIPT_LABEL,
    )
    .is_err());
}

#[test]
fn negative_fixture_rejects_tampered_round_commitment_bytes() {
    let fixture = fixture();
    let mut opening = fixture.opening.clone();
    opening.proof.rounds[0].left_commitment_bytes[0] ^= 1;
    assert!(verify_with_label(
        &fixture.verifier_key,
        &fixture.witness.commitment,
        &fixture.point,
        &opening,
        TRANSCRIPT_LABEL,
    )
    .is_err());
}

#[test]
fn negative_fixture_rejects_wrong_padding_generator_material() {
    let fixture = fixture();
    let mut verifier_key = fixture.verifier_key.clone();
    verifier_key.padding_polynomial_generators[0] = point_generator(7_777);
    assert!(verify_with_label(
        &verifier_key,
        &fixture.witness.commitment,
        &fixture.point,
        &fixture.opening,
        TRANSCRIPT_LABEL,
    )
    .is_err());
}

#[test]
fn negative_fixture_rejects_wrong_verifier_key_size() {
    let fixture = fixture();
    let (_wrong_prover_key, wrong_verifier_key) = keys(1);
    assert!(verify_with_label(
        &wrong_verifier_key,
        &fixture.witness.commitment,
        &fixture.point,
        &fixture.opening,
        TRANSCRIPT_LABEL,
    )
    .is_err());
}
