use ark_ec::{CurveGroup, PrimeGroup};
use ark_serialize::CanonicalSerialize;
use snark_lab::curve::GroupElement;
use snark_lab::field::Scalar;
use snark_lab::ipa::IpaCommitment;
use snark_lab::ipa_backend_codec::{
    decode_ipa_integrated_opening, encode_ipa_integrated_opening, IpaBackendOpeningCodecError,
};
use snark_lab::ipa_backend_integration::{
    commit_ipa_backend, open_ipa_backend, trim_ipa_integrated_keys, verify_ipa_backend, IpaBackendIntegrationError,
    IpaIntegratedKeyPair, IpaIntegratedOpening, IpaIntegratedVerifierKey,
};
use snark_lab::ipa_blinded_path::IpaBlindedPathError;
use snark_lab::ipa_curve::{IpaCurveGeneratorBasis, IpaCurvePoint};
use snark_lab::ipa_generators::expected_ipa_generator_count;
use snark_lab::ipa_serialization::IpaProofCodecError;
use snark_lab::multilinear::Multilinear;
use snark_lab::pcs::PcsShapeError;
use snark_lab::transcript::MerlinTranscript;

const BACKEND_LABEL: &str = "ipa-integrated-backend-test";
const CODEC_LABEL: &str = "ipa-backend-codec-test";
const NEGATIVE_LABEL: &str = "ipa-negative-fixtures-test/v1";

fn s(value: u64) -> Scalar {
    Scalar::from_u64(value)
}

fn point(seed: u64) -> IpaCurvePoint {
    let affine = (ark_bls12_381::G1Projective::generator() * ark_bls12_381::Fr::from(seed)).into_affine();
    let mut bytes = Vec::new();
    affine.serialize_compressed(&mut bytes).unwrap();
    let element = GroupElement::from_compressed_bytes(&bytes).unwrap();
    IpaCurvePoint::from_projective(element).unwrap()
}

fn basis(variables: usize) -> IpaCurveGeneratorBasis {
    let count = expected_ipa_generator_count(variables).unwrap();
    IpaCurveGeneratorBasis::new(
        variables,
        (0..count).map(|index| point(index as u64 + 1)).collect(),
        (0..count).map(|index| point(index as u64 + 100)).collect(),
        point(999),
    )
    .unwrap()
}

fn padding_polynomial(variables: usize) -> Vec<IpaCurvePoint> {
    let original_len = expected_ipa_generator_count(variables).unwrap();
    let extended_len = expected_ipa_generator_count(variables + 1).unwrap();
    (0..(extended_len - original_len - 1)).map(|index| point(index as u64 + 2000)).collect()
}

fn padding_evaluation(variables: usize) -> Vec<IpaCurvePoint> {
    let original_len = expected_ipa_generator_count(variables).unwrap();
    let extended_len = expected_ipa_generator_count(variables + 1).unwrap();
    (0..(extended_len - original_len)).map(|index| point(index as u64 + 3000)).collect()
}

fn keys(variables: usize) -> IpaIntegratedKeyPair {
    trim_ipa_integrated_keys(
        basis(variables),
        point(5000),
        padding_polynomial(variables),
        padding_evaluation(variables),
        point(9000),
    )
    .unwrap()
}

fn polynomial(values: &[u64]) -> Multilinear {
    Multilinear::new(values.iter().copied().map(Scalar::from_u64).collect()).unwrap()
}

struct CodecFixture {
    verifier_key: IpaIntegratedVerifierKey,
    commitment: IpaCommitment,
    point: Vec<Scalar>,
    opening: IpaIntegratedOpening,
}

fn codec_fixture(label: &'static str) -> CodecFixture {
    let polynomial = polynomial(&[2, 3, 5, 7]);
    let point = vec![s(3), s(3)];
    let (prover_key, verifier_key) = keys(polynomial.variables());
    let witness = commit_ipa_backend(&prover_key, &polynomial, s(9)).unwrap();
    let mut transcript = MerlinTranscript::new(label);
    let opening = open_ipa_backend(&prover_key, &witness, &polynomial, &point, &mut transcript).unwrap();
    CodecFixture { verifier_key, commitment: witness.commitment, point, opening }
}

fn verify_codec_fixture(
    fixture: &CodecFixture,
    opening: &IpaIntegratedOpening,
    label: &'static str,
) -> Result<Scalar, IpaBackendIntegrationError> {
    let mut transcript = MerlinTranscript::new(label);
    verify_ipa_backend(&fixture.verifier_key, &fixture.commitment, &fixture.point, opening, &mut transcript)
}

const OPENING_MAGIC_LEN: usize = 20;
const PROOF_MAGIC_LEN: usize = 13;

#[test]
fn integrated_backend_commits_opens_and_verifies_blinded_polynomial() {
    let polynomial = polynomial(&[2, 3, 5, 7]);
    let point_coordinates = vec![s(3), s(3)];
    let expected_value = polynomial.evaluate(&point_coordinates).unwrap();
    let (prover_key, verifier_key) = keys(2);

    let witness = commit_ipa_backend(&prover_key, &polynomial, s(9)).unwrap();

    let mut prover_transcript = MerlinTranscript::new(BACKEND_LABEL);
    let opening =
        open_ipa_backend(&prover_key, &witness, &polynomial, &point_coordinates, &mut prover_transcript).unwrap();

    let mut verifier_transcript = MerlinTranscript::new(BACKEND_LABEL);
    let verified_value = verify_ipa_backend(
        &verifier_key,
        &witness.commitment,
        &point_coordinates,
        &opening,
        &mut verifier_transcript,
    )
    .unwrap();

    assert_eq!(opening.claimed_value, expected_value);
    assert_eq!(verified_value, expected_value);
}

#[test]
fn integrated_backend_uses_explicit_nonzero_blinding() {
    let polynomial = polynomial(&[2, 3, 5, 7]);
    let point_coordinates = vec![s(3), s(3)];
    let (prover_key, verifier_key) = keys(2);

    let first = commit_ipa_backend(&prover_key, &polynomial, s(9)).unwrap();
    let second = commit_ipa_backend(&prover_key, &polynomial, s(10)).unwrap();

    assert_ne!(first.commitment, second.commitment);

    for witness in [first, second] {
        let mut prover_transcript = MerlinTranscript::new(BACKEND_LABEL);
        let opening =
            open_ipa_backend(&prover_key, &witness, &polynomial, &point_coordinates, &mut prover_transcript)
                .unwrap();

        let mut verifier_transcript = MerlinTranscript::new(BACKEND_LABEL);
        assert!(verify_ipa_backend(
            &verifier_key,
            &witness.commitment,
            &point_coordinates,
            &opening,
            &mut verifier_transcript,
        )
        .is_ok());
    }
}

#[test]
fn integrated_backend_rejects_wrong_point_length() {
    let polynomial = polynomial(&[2, 3, 5, 7]);
    let (prover_key, _verifier_key) = keys(2);
    let witness = commit_ipa_backend(&prover_key, &polynomial, s(9)).unwrap();
    let mut transcript = MerlinTranscript::new(BACKEND_LABEL);

    assert_eq!(
        open_ipa_backend(&prover_key, &witness, &polynomial, &[s(1)], &mut transcript),
        Err(IpaBackendIntegrationError::Shape(PcsShapeError::PointLengthMismatch { expected: 2, actual: 1 }))
    );
}

#[test]
fn integrated_backend_rejects_wrong_polynomial_size() {
    let polynomial = polynomial(&[2, 3, 5, 7, 11, 13, 17, 19]);
    let (prover_key, _verifier_key) = keys(2);

    assert_eq!(
        commit_ipa_backend(&prover_key, &polynomial, s(9)),
        Err(IpaBackendIntegrationError::Shape(PcsShapeError::UnsupportedVariableCount {
            requested: 3,
            supported: 2
        }))
    );
}

#[test]
fn integrated_backend_rejects_commitment_witness_mismatch() {
    let polynomial_under_test = polynomial(&[2, 3, 5, 7]);
    let other_polynomial = polynomial(&[2, 3, 5, 8]);
    let point_coordinates = vec![s(3), s(3)];
    let (prover_key, _verifier_key) = keys(2);

    let bad_witness = commit_ipa_backend(&prover_key, &other_polynomial, s(9)).unwrap();
    let mut transcript = MerlinTranscript::new(BACKEND_LABEL);

    assert!(matches!(
        open_ipa_backend(&prover_key, &bad_witness, &polynomial_under_test, &point_coordinates, &mut transcript),
        Err(IpaBackendIntegrationError::BlindedPath(IpaBlindedPathError::CommitmentWitnessMismatch))
    ));
}

#[test]
fn integrated_backend_rejects_tampered_opening() {
    let polynomial = polynomial(&[2, 3, 5, 7]);
    let point_coordinates = vec![s(3), s(3)];
    let (prover_key, verifier_key) = keys(2);

    let witness = commit_ipa_backend(&prover_key, &polynomial, s(9)).unwrap();

    let mut prover_transcript = MerlinTranscript::new(BACKEND_LABEL);
    let mut opening =
        open_ipa_backend(&prover_key, &witness, &polynomial, &point_coordinates, &mut prover_transcript).unwrap();

    opening.proof.final_polynomial_scalar = opening.proof.final_polynomial_scalar.add(&s(1));

    let mut verifier_transcript = MerlinTranscript::new(BACKEND_LABEL);
    assert!(verify_ipa_backend(
        &verifier_key,
        &witness.commitment,
        &point_coordinates,
        &opening,
        &mut verifier_transcript,
    )
    .is_err());
}

#[test]
fn integrated_keys_reject_bad_padding_shape() {
    assert_eq!(
        trim_ipa_integrated_keys(basis(2), point(5000), vec![point(2000)], padding_evaluation(2), point(9000)),
        Err(IpaBackendIntegrationError::PaddingGeneratorCountMismatch {
            label: "polynomial",
            expected: 3,
            actual: 1,
        })
    );
}

#[test]
fn integrated_opening_roundtrip_is_canonical_and_verifies() {
    let fixture = codec_fixture(CODEC_LABEL);

    let encoded = encode_ipa_integrated_opening(&fixture.opening).unwrap();
    let decoded = decode_ipa_integrated_opening(&encoded).unwrap();
    let reencoded = encode_ipa_integrated_opening(&decoded).unwrap();

    assert_eq!(fixture.opening, decoded);
    assert_eq!(encoded, reencoded);

    verify_codec_fixture(&fixture, &decoded, CODEC_LABEL).unwrap();
}

#[test]
fn encoder_rejects_claimed_value_mismatch() {
    let mut opening = codec_fixture(CODEC_LABEL).opening;
    opening.claimed_value = opening.claimed_value.add(&s(1));

    assert_eq!(
        encode_ipa_integrated_opening(&opening),
        Err(IpaBackendOpeningCodecError::ClaimedValueMismatch {
            opening_claimed: opening.claimed_value,
            proof_claimed: opening.proof.claimed_value,
        })
    );
}

#[test]
fn decoder_rejects_wrong_magic() {
    let mut encoded = encode_ipa_integrated_opening(&codec_fixture(CODEC_LABEL).opening).unwrap();
    encoded[0] = b'X';

    assert_eq!(decode_ipa_integrated_opening(&encoded), Err(IpaBackendOpeningCodecError::InvalidMagic));
}

#[test]
fn decoder_rejects_truncated_input() {
    let mut encoded = encode_ipa_integrated_opening(&codec_fixture(CODEC_LABEL).opening).unwrap();
    encoded.pop();

    assert_eq!(decode_ipa_integrated_opening(&encoded), Err(IpaBackendOpeningCodecError::Truncated));
}

#[test]
fn decoder_rejects_trailing_bytes() {
    let mut encoded = encode_ipa_integrated_opening(&codec_fixture(CODEC_LABEL).opening).unwrap();
    encoded.push(0);

    assert_eq!(decode_ipa_integrated_opening(&encoded), Err(IpaBackendOpeningCodecError::TrailingBytes));
}

#[test]
fn decoder_rejects_corrupt_inner_proof() {
    let mut encoded = encode_ipa_integrated_opening(&codec_fixture(CODEC_LABEL).opening).unwrap();
    let proof_start = OPENING_MAGIC_LEN + 8 + 8;
    encoded[proof_start] = b'X';

    assert_eq!(
        decode_ipa_integrated_opening(&encoded),
        Err(IpaBackendOpeningCodecError::ProofCodec(IpaProofCodecError::InvalidMagic))
    );
}

#[test]
fn decoded_tampered_opening_does_not_verify() {
    let fixture = codec_fixture(CODEC_LABEL);
    let mut encoded = encode_ipa_integrated_opening(&fixture.opening).unwrap();

    let proof_start = OPENING_MAGIC_LEN + 8 + 8;
    let first_field_byte = proof_start + PROOF_MAGIC_LEN + 8 + 8;
    encoded[first_field_byte] ^= 1;

    if let Ok(decoded_opening) = decode_ipa_integrated_opening(&encoded) {
        assert!(verify_codec_fixture(&fixture, &decoded_opening, CODEC_LABEL).is_err());
    }
}

#[test]
fn negative_fixture_rejects_corrupt_encoded_opening() {
    let fixture = codec_fixture(NEGATIVE_LABEL);
    let mut encoded = encode_ipa_integrated_opening(&fixture.opening).unwrap();

    let proof_start = OPENING_MAGIC_LEN + 8 + 8;
    let tamper_index = proof_start + PROOF_MAGIC_LEN + 8 + 8;
    encoded[tamper_index] ^= 1;

    if let Ok(decoded_opening) = decode_ipa_integrated_opening(&encoded) {
        assert!(verify_codec_fixture(&fixture, &decoded_opening, NEGATIVE_LABEL).is_err());
    }
}

#[test]
fn encoded_opening_starts_with_magic_and_field_size() {
    let fixture = codec_fixture(CODEC_LABEL);
    let encoded = encode_ipa_integrated_opening(&fixture.opening).unwrap();
    assert_eq!(&encoded[..OPENING_MAGIC_LEN], b"SL-IPA-BACKEND-OPEN1");
    assert_eq!(&encoded[OPENING_MAGIC_LEN..OPENING_MAGIC_LEN + 8], &255u64.to_le_bytes());
    assert_eq!(decode_ipa_integrated_opening(&encoded[..5]), Err(IpaBackendOpeningCodecError::Truncated));
}
