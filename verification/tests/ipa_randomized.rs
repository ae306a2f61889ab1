use ark_ec::{CurveGroup, PrimeGroup};
use ark_serialize::CanonicalSerialize;
use snark_lab::curve::GroupElement;
use snark_lab::field::Scalar;
use snark_lab::ipa::IpaCommitment;
use snark_lab::ipa_backend_codec::{decode_ipa_integrated_opening, encode_ipa_integrated_opening};
use snark_lab::ipa_backend_integration::{
    commit_ipa_backend, open_ipa_backend, trim_ipa_integrated_keys, verify_ipa_backend,
    IpaIntegratedCommitmentWitness, IpaIntegratedKeyPair, IpaIntegratedOpening, IpaIntegratedProverKey,
    IpaIntegratedVerifierKey,
};
use snark_lab::ipa_curve::{IpaCurveGeneratorBasis, IpaCurvePoint};
use snark_lab::ipa_generators::expected_ipa_generator_count;
use snark_lab::multilinear::Multilinear;
use snark_lab::transcript::MerlinTranscript;

const ROUNDTRIP_TRANSCRIPT_LABEL: &str = "ipa-randomized-roundtrip-test/v1";

/// A small deterministic generator (SplitMix64) standing in for a seeded RNG.
struct SeededRng {
    state: u64,
}

impl SeededRng {
    fn seed_from_u64(seed: u64) -> SeededRng {
        SeededRng { state: seed }
    }

    fn next_u64(&mut self) -> u64 {
        self.state = self.state.wrapping_add(0x9E37_79B9_7F4A_7C15);
        let mut z = self.state;
        z = (z ^ (z >> 30)).wrapping_mul(0xBF58_476D_1CE4_E5B9);
        z = (z ^ (z >> 27)).wrapping_mul(0x94D0_49BB_1331_11EB);
        z ^ (z >> 31)
    }

    fn field(&mut self) -> Scalar {
        let mut bytes = Vec::with_capacity(32);
        for _ in 0..4 {
            bytes.extend_from_slice(&self.next_u64().to_le_bytes());
        }
        Scalar::from_le_bytes_mod_order(&bytes)
    }
}

#[derive(Clone)]
struct RoundtripFixture {
    verifier_key: IpaIntegratedVerifierKey,
    commitment: IpaCommitment,
    point: Vec<Scalar>,
    opening: IpaIntegratedOpening,
    expected_value: Scalar,
}

fn test_point(seed: u64) -> IpaCurvePoint {
    let affine = (ark_bls12_381::G1Projective::generator() * ark_bls12_381::Fr::from(seed)).into_affine();
    let mut bytes = Vec::new();
    affine.serialize_compressed(&mut bytes).unwrap();
    IpaCurvePoint::from_projective(GroupElement::from_compressed_bytes(&bytes).unwrap()).unwrap()
}

fn generator_count(variables: usize) -> usize {
    expected_ipa_generator_count(variables).unwrap()
}

fn test_basis(variables: usize, case_index: usize) -> IpaCurveGeneratorBasis {
    let count = generator_count(variables);
    let base = 100_000u64 + (variables as u64 * 10_000) + (case_index as u64 * 1_000);
    IpaCurveGeneratorBasis::new(
        variables,
        (0..count).map(|index| test_point(base + index as u64 + 1)).collect(),
        (0..count).map(|index| test_point(base + 2_000 + index as u64 + 1)).collect(),
        test_point(base + 4_000),
    )
    .unwrap()
}

fn padding_polynomial(variables: usize, case_index: usize) -> Vec<IpaCurvePoint> {
    let padding_len = generator_count(variables + 1) - generator_count(variables) - 1;
    let base = 500_000u64 + (variables as u64 * 10_000) + (case_index as u64 * 1_000);
    (0..padding_len).map(|index| test_point(base + index as u64 + 1)).collect()
}

fn padding_evaluation(variables: usize, case_index: usize) -> Vec<IpaCurvePoint> {
    let padding_len = generator_count(variables + 1) - generator_count(variables);
    let base = 700_000u64 + (variables as u64 * 10_000) + (case_index as u64 * 1_000);
    (0..padding_len).map(|index| test_point(base + index as u64 + 1)).collect()
}

fn test_keys(variables: usize, case_index: usize) -> IpaIntegratedKeyPair {
    let base = 900_000u64 + (variables as u64 * 10_000) + (case_index as u64 * 1_000);
    trim_ipa_integrated_keys(
        test_basis(variables, case_index),
        test_point(base + 1),
        padding_polynomial(variables, case_index),
        padding_evaluation(variables, case_index),
        test_point(base + 2),
    )
    .unwrap()
}

fn random_nonzero_field(rng: &mut SeededRng) -> Scalar {
    loop {
        let value = rng.field();
        if !value.is_zero() {
            return value;
        }
    }
}

fn random_polynomial(rng: &mut SeededRng, variables: usize) -> Multilinear {
    let len = 1usize << variables;
    Multilinear::new((0..len).map(|_| rng.field()).collect()).unwrap()
}

fn random_opening_point(rng: &mut SeededRng, variables: usize) -> Vec<Scalar> {
    (0..variables).map(|_| rng.field()).collect()
}

fn build_fixture(rng: &mut SeededRng, variables: usize, case_index: usize) -> RoundtripFixture {
    let polynomial = random_polynomial(rng, variables);
    let point = random_opening_point(rng, variables);
    let blinding = random_nonzero_field(rng);
    let expected_value = polynomial.evaluate(&point).unwrap();

    let (prover_key, verifier_key) = test_keys(variables, case_index);
    let witness = commit_ipa_backend(&prover_key, &polynomial, blinding).unwrap();

    let mut prover_transcript = MerlinTranscript::new(ROUNDTRIP_TRANSCRIPT_LABEL);
    let opening = open_ipa_backend(&prover_key, &witness, &polynomial, &point, &mut prover_transcript).unwrap();

    RoundtripFixture { verifier_key, commitment: witness.commitment, point, opening, expected_value }
}

fn verify_fixture(fixture: &RoundtripFixture) -> Scalar {
    let mut verifier_transcript = MerlinTranscript::new(ROUNDTRIP_TRANSCRIPT_LABEL);
    verify_ipa_backend(
        &fixture.verifier_key,
        &fixture.commitment,
        &fixture.point,
        &fixture.opening,
        &mut verifier_transcript,
    )
    .unwrap()
}

fn commit_with_key(
    prover_key: &IpaIntegratedProverKey,
    polynomial: &Multilinear,
    blinding: Scalar,
) -> IpaIntegratedCommitmentWitness {
    commit_ipa_backend(prover_key, polynomial, blinding).unwrap()
}

#[test]
fn randomized_integrated_ipa_roundtrips_verify() {
    let mut rng = SeededRng::seed_from_u64(0x5EED_1A0A_D7A1_0001);

    for variables in 0..=5 {
        for case_offset in 0..8 {
            let case_index = variables * 100 + case_offset;
            let fixture = build_fixture(&mut rng, variables, case_index);

            let encoded = encode_ipa_integrated_opening(&fixture.opening).unwrap();
            let decoded = decode_ipa_integrated_opening(&encoded).unwrap();

            let decoded_fixture = RoundtripFixture {
                verifier_key: fixture.verifier_key.clone(),
                commitment: fixture.commitment.clone(),
                point: fixture.point.clone(),
                opening: decoded,
                expected_value: fixture.expected_value,
            };

            let verified_value = verify_fixture(&decoded_fixture);

            assert_eq!(verified_value, fixture.expected_value);
            assert_eq!(decoded_fixture.opening.claimed_value, fixture.expected_value);
            assert_eq!(decoded_fixture.opening.proof.rounds.len(), variables + 1);
            assert!(!encoded.is_empty());
            assert!(!decoded_fixture.commitment.commitment_bytes.is_empty());
        }
    }
}

#[test]
fn randomized_integrated_ipa_rejects_tampered_final_scalar() {
    let mut rng = SeededRng::seed_from_u64(0x0BAD_5CA1_AAAA_0002);

    for variables in 1..=5 {
        let mut fixture = build_fixture(&mut rng, variables, variables + 1_000);
        let delta = random_nonzero_field(&mut rng);
        fixture.opening.proof.final_polynomial_scalar = fixture.opening.proof.final_polynomial_scalar.add(&delta);

        let mut verifier_transcript = MerlinTranscript::new(ROUNDTRIP_TRANSCRIPT_LABEL);
        assert!(verify_ipa_backend(
            &fixture.verifier_key,
            &fixture.commitment,
            &fixture.point,
            &fixture.opening,
            &mut verifier_transcript,
        )
        .is_err());
    }
}

#[test]
fn randomized_integrated_ipa_rejects_wrong_point() {
    let mut rng = SeededRng::seed_from_u64(0x0BAD_901A_AAAA_0003);

    for variables in 1..=5 {
        let mut fixture = build_fixture(&mut rng, variables, variables + 2_000);
        let delta = random_nonzero_field(&mut rng);
        fixture.point[0] = fixture.point[0].add(&delta);

        let mut verifier_transcript = MerlinTranscript::new(ROUNDTRIP_TRANSCRIPT_LABEL);
        assert!(verify_ipa_backend(
            &fixture.verifier_key,
            &fixture.commitment,
            &fixture.point,
            &fixture.opening,
            &mut verifier_transcript,
        )
        .is_err());
    }
}

#[test]
fn randomized_integrated_ipa_rejects_wrong_commitment() {
    let mut rng = SeededRng::seed_from_u64(0x0BAD_C0AA_17AA_0004);

    for variables in 1..=5 {
        let honest_polynomial = random_polynomial(&mut rng, variables);
        let other_polynomial = random_polynomial(&mut rng, variables);
        let point = random_opening_point(&mut rng, variables);
        let blinding = random_nonzero_field(&mut rng);

        let (prover_key, verifier_key) = test_keys(variables, variables + 3_000);
        let honest_witness = commit_with_key(&prover_key, &honest_polynomial, blinding);
        let other_witness = commit_with_key(&prover_key, &other_polynomial, blinding);

        let mut prover_transcript = MerlinTranscript::new(ROUNDTRIP_TRANSCRIPT_LABEL);
        let opening =
            open_ipa_backend(&prover_key, &honest_witness, &honest_polynomial, &point, &mut prover_transcript)
                .unwrap();

        let mut verifier_transcript = MerlinTranscript::new(ROUNDTRIP_TRANSCRIPT_LABEL);
        assert!(verify_ipa_backend(
            &verifier_key,
            &other_witness.commitment,
            &point,
            &opening,
            &mut verifier_transcript,
        )
        .is_err());
    }
}

#[test]
fn randomized_integrated_ipa_rejects_wrong_transcript_label() {
    let mut rng = SeededRng::seed_from_u64(0x0BAD_7AAA_5C21_0005);

    for variables in 1..=5 {
        let fixture = build_fixture(&mut rng, variables, variables + 4_000);
        let mut verifier_transcript = MerlinTranscript::new("ipa-randomized-wrong-label/v1");

        assert!(verify_ipa_backend(
            &fixture.verifier_key,
            &fixture.commitment,
            &fixture.point,
            &fixture.opening,
            &mut verifier_transcript,
        )
        .is_err());
    }
}
