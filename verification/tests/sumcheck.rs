use snark_lab::field::Scalar;
use snark_lab::multilinear::Multilinear;
use snark_lab::oracle::{MultilinearOracle, TransparentOracle, TransparentOracleError};
use snark_lab::sumcheck::{derive_challenges, prove, verify, Proof, RoundPolynomial, VerifyError};
use snark_lab::sumcheck_codec::{decode_proof, encode_proof, SumcheckCodecError};
use snark_lab::sumcheck_general::{prove_general, verify_general, GeneralProof, GeneralVerifyError};
use snark_lab::sumcheck_oracle::{prove_with_transparent_oracle, verify_with_oracle, OracleProof, OracleVerifyError};
use snark_lab::sumcheck_oracle_codec::{
    decode_transparent_oracle_proof, encode_transparent_oracle_proof, OracleProofCodecError,
};
use snark_lab::sumcheck_round::DenseRoundPolynomial;
use snark_lab::transcript::MerlinTranscript;

fn s(value: u64) -> Scalar {
    Scalar::from_u64(value)
}

fn one() -> Scalar {
    Scalar::one()
}

fn fixture_polynomial(offset: u64) -> Multilinear {
    Multilinear::new((0..8).map(|value| s(value + offset)).collect()).unwrap()
}

fn prove_fixture(polynomial: &Multilinear) -> (Scalar, Proof) {
    let claim = polynomial.sum_hypercube();
    let mut transcript = MerlinTranscript::new("sumcheck-test");
    (claim, prove(polynomial, claim, &mut transcript))
}

#[test]
fn valid_sumcheck_accepts() {
    let polynomial = fixture_polynomial(0);
    let (claim, proof) = prove_fixture(&polynomial);
    let mut transcript = MerlinTranscript::new("sumcheck-test");
    assert!(verify(&polynomial, claim, &proof, &mut transcript).is_ok());
}

#[test]
fn tampered_claim_is_rejected() {
    let polynomial = fixture_polynomial(0);
    let (claim, proof) = prove_fixture(&polynomial);
    let mut transcript = MerlinTranscript::new("sumcheck-test");
    assert!(verify(&polynomial, claim.add(&one()), &proof, &mut transcript).is_err());
}

#[test]
fn tampering_is_rejected() {
    let polynomial = fixture_polynomial(0);
    let (claim, mut proof) = prove_fixture(&polynomial);
    proof.round_polynomials[1].evaluation_at_one = proof.round_polynomials[1].evaluation_at_one.add(&one());
    let mut transcript = MerlinTranscript::new("sumcheck-test");
    assert!(verify(&polynomial, claim, &proof, &mut transcript).is_err());

    let (_, mut proof) = prove_fixture(&polynomial);
    proof.final_evaluation = proof.final_evaluation.add(&one());
    let mut transcript = MerlinTranscript::new("sumcheck-test");
    assert!(verify(&polynomial, claim, &proof, &mut transcript).is_err());
}

#[test]
fn same_transcript_same_challenges() {
    let polynomial = fixture_polynomial(0);
    let (claim, proof) = prove_fixture(&polynomial);
    let mut left = MerlinTranscript::new("sumcheck-test");
    let mut right = MerlinTranscript::new("sumcheck-test");
    assert_eq!(
        derive_challenges(&polynomial, claim, &proof, &mut left),
        derive_challenges(&polynomial, claim, &proof, &mut right)
    );
}

#[test]
fn public_input_and_round_messages_bind_challenges() {
    let polynomial = fixture_polynomial(0);
    let (claim, proof) = prove_fixture(&polynomial);
    let mut transcript = MerlinTranscript::new("sumcheck-test");
    let original = derive_challenges(&polynomial, claim, &proof, &mut transcript);

    let changed_polynomial = fixture_polynomial(1);
    let mut transcript = MerlinTranscript::new("sumcheck-test");
    let changed_statement = derive_challenges(&changed_polynomial, claim, &proof, &mut transcript);
    assert_ne!(original[0], changed_statement[0]);

    let mut changed_proof = proof.clone();
    changed_proof.round_polynomials[0].evaluation_at_zero =
        changed_proof.round_polynomials[0].evaluation_at_zero.add(&one());
    let mut transcript = MerlinTranscript::new("sumcheck-test");
    let changed_message = derive_challenges(&polynomial, claim, &changed_proof, &mut transcript);
    assert_ne!(original[0], changed_message[0]);
    assert_ne!(original[1], changed_message[1]);
}

#[test]
fn wrong_round_count_is_reported() {
    let polynomial = fixture_polynomial(0);
    let (claim, mut proof) = prove_fixture(&polynomial);
    proof.round_polynomials.pop();
    let mut transcript = MerlinTranscript::new("sumcheck-test");
    assert_eq!(verify(&polynomial, claim, &proof, &mut transcript), Err(VerifyError::WrongRoundCount));
}

#[test]
fn first_round_message_sums_to_claim() {
    let polynomial = fixture_polynomial(0);
    let (claim, proof) = prove_fixture(&polynomial);
    assert_eq!(claim, s(28));
    let first = &proof.round_polynomials[0];
    assert_eq!(first.evaluation_at_zero, s(0 + 2 + 4 + 6));
    assert_eq!(first.evaluation_at_one, s(1 + 3 + 5 + 7));
    assert_eq!(first.evaluate(s(2)), s(12 + 2 * 4));
}

// Oracle-backed Sumcheck.

fn fixture_oracle(offset: u64) -> TransparentOracle {
    TransparentOracle::new(fixture_polynomial(offset))
}

fn prove_oracle_fixture(oracle: &TransparentOracle) -> (Scalar, OracleProof<TransparentOracle>) {
    let claim = oracle.sum_hypercube();
    let mut transcript = MerlinTranscript::new("oracle-sumcheck-test");
    let proof = prove_with_transparent_oracle(oracle, claim, &mut transcript).unwrap();
    (claim, proof)
}

fn verify_oracle_fixture(
    oracle: &TransparentOracle,
    claim: Scalar,
    proof: &OracleProof<TransparentOracle>,
) -> Result<Vec<Scalar>, OracleVerifyError<TransparentOracleError>> {
    let mut transcript = MerlinTranscript::new("oracle-sumcheck-test");
    verify_with_oracle::<MerlinTranscript, TransparentOracle>(
        &proof.commitment,
        oracle.variables(),
        claim,
        &proof.sumcheck_proof,
        &proof.final_opening,
        &mut transcript,
    )
}

#[test]
fn oracle_sumcheck_accepts_transparent_opening() {
    let oracle = fixture_oracle(0);
    let (claim, proof) = prove_oracle_fixture(&oracle);
    let challenges = verify_oracle_fixture(&oracle, claim, &proof).unwrap();
    assert_eq!(challenges.len(), oracle.variables());
}

#[test]
fn oracle_sumcheck_rejects_tampered_opening() {
    let oracle = fixture_oracle(0);
    let (claim, mut proof) = prove_oracle_fixture(&oracle);
    proof.final_opening.value = proof.final_opening.value.add(&one());
    assert_eq!(
        verify_oracle_fixture(&oracle, claim, &proof),
        Err(OracleVerifyError::Opening(TransparentOracleError::InvalidOpening))
    );
}

#[test]
fn oracle_sumcheck_rejects_changed_commitment() {
    let oracle = fixture_oracle(0);
    let (claim, mut proof) = prove_oracle_fixture(&oracle);
    proof.commitment.evaluations[0] = proof.commitment.evaluations[0].add(&one());
    assert!(verify_oracle_fixture(&oracle, claim, &proof).is_err());
}

#[test]
fn oracle_sumcheck_rejects_tampered_round_message() {
    let oracle = fixture_oracle(0);
    let (claim, mut proof) = prove_oracle_fixture(&oracle);
    proof.sumcheck_proof.round_polynomials[0].evaluation_at_one =
        proof.sumcheck_proof.round_polynomials[0].evaluation_at_one.add(&one());
    assert_eq!(
        verify_oracle_fixture(&oracle, claim, &proof),
        Err(OracleVerifyError::RoundDoesNotMatchClaim { round: 0 })
    );
}

#[test]
fn oracle_sumcheck_rejects_wrong_round_count() {
    let oracle = fixture_oracle(0);
    let (claim, mut proof) = prove_oracle_fixture(&oracle);
    proof.sumcheck_proof.round_polynomials.pop();
    assert_eq!(verify_oracle_fixture(&oracle, claim, &proof), Err(OracleVerifyError::WrongRoundCount));
}

// Transparent oracle.

#[test]
fn transparent_oracle_opens_and_verifies() {
    let oracle = TransparentOracle::new(fixture_polynomial(0));
    let commitment = oracle.commit();
    let point = [s(3), s(5), s(7)];
    let opening = oracle.open(&point).expect("opening");
    let verified = TransparentOracle::verify_opening(&commitment, &point, &opening).expect("verified");
    assert_eq!(verified, opening.value);
}

#[test]
fn transparent_oracle_rejects_tampered_opening() {
    let oracle = TransparentOracle::new(fixture_polynomial(0));
    let commitment = oracle.commit();
    let point = [s(3), s(5), s(7)];
    let mut opening = oracle.open(&point).expect("opening");
    opening.value = opening.value.add(&one());
    assert!(TransparentOracle::verify_opening(&commitment, &point, &opening).is_err());
}

#[test]
fn transparent_oracle_rejects_wrong_point_length() {
    let oracle = TransparentOracle::new(fixture_polynomial(0));
    let point = [s(3), s(5)];
    assert!(oracle.open(&point).is_err());
}

#[test]
fn transparent_oracle_error_variants() {
    let oracle = TransparentOracle::new(fixture_polynomial(0));
    assert_eq!(
        oracle.open(&[s(1)]),
        Err(TransparentOracleError::PointLengthMismatch { expected: 3, actual: 1 })
    );
    let mut commitment = oracle.commit();
    commitment.evaluations.pop();
    let point = [s(3), s(5), s(7)];
    let opening = oracle.open(&point).unwrap();
    assert_eq!(
        TransparentOracle::verify_opening(&commitment, &point, &opening),
        Err(TransparentOracleError::InvalidTable)
    );
}

#[test]
fn transparent_oracle_opening_is_the_multilinear_value() {
    let oracle = TransparentOracle::new(fixture_polynomial(0));
    // The table 0..8 is the multilinear polynomial x0 + 2·x1 + 4·x2.
    let opening = oracle.open(&[s(3), s(5), s(7)]).unwrap();
    assert_eq!(opening.value, s(3 + 10 + 28));
    assert_eq!(oracle.sum_hypercube(), s(28));
}

// Sumcheck proof codec.

fn codec_fixture() -> Proof {
    Proof {
        round_polynomials: vec![
            RoundPolynomial { evaluation_at_zero: s(3), evaluation_at_one: s(5) },
            RoundPolynomial { evaluation_at_zero: s(7), evaluation_at_one: s(11) },
        ],
        final_evaluation: s(13),
    }
}

#[test]
fn proof_roundtrip_is_canonical() {
    let proof = codec_fixture();
    let encoded = encode_proof(&proof).unwrap();
    let decoded = decode_proof(&encoded).unwrap();
    let reencoded = encode_proof(&decoded).unwrap();
    assert_eq!(proof, decoded);
    assert_eq!(encoded, reencoded);
}

#[test]
fn serialization_rejects_wrong_magic() {
    let mut encoded = encode_proof(&codec_fixture()).unwrap();
    encoded[0] = b'X';
    assert_eq!(decode_proof(&encoded), Err(SumcheckCodecError::InvalidMagic));
}

#[test]
fn rejects_truncated_bytes() {
    let mut encoded = encode_proof(&codec_fixture()).unwrap();
    encoded.pop();
    assert_eq!(decode_proof(&encoded), Err(SumcheckCodecError::Truncated));
}

#[test]
fn serialization_rejects_trailing_bytes() {
    let mut encoded = encode_proof(&codec_fixture()).unwrap();
    encoded.push(0);
    assert_eq!(decode_proof(&encoded), Err(SumcheckCodecError::TrailingBytes));
}

#[test]
fn serialization_layout_and_field_size_check() {
    let encoded = encode_proof(&codec_fixture()).unwrap();
    assert_eq!(&encoded[..7], b"SL-SUM1");
    assert_eq!(encoded.len(), 7 + 8 + 8 + 5 * 32);
    assert_eq!(&encoded[7..15], &255u64.to_le_bytes());
    assert_eq!(&encoded[15..23], &2u64.to_le_bytes());
    let mut wrong_bits = encoded.clone();
    wrong_bits[7] = 0;
    assert_eq!(decode_proof(&wrong_bits), Err(SumcheckCodecError::InvalidFieldElement));
}

#[test]
fn serialization_rejects_non_canonical_final_element() {
    let mut encoded = encode_proof(&codec_fixture()).unwrap();
    let last = encoded.len() - 32;
    for byte in &mut encoded[last..] {
        *byte = 0xff;
    }
    assert_eq!(decode_proof(&encoded), Err(SumcheckCodecError::InvalidFieldElement));
}

// Transparent-oracle proof codec.

fn oracle_codec_fixture() -> (Scalar, OracleProof<TransparentOracle>) {
    let oracle = TransparentOracle::new(Multilinear::new((0u64..8).map(s).collect()).unwrap());
    let claim = oracle.sum_hypercube();
    let mut transcript = MerlinTranscript::new("transparent-oracle-codec-test");
    let proof = prove_with_transparent_oracle(&oracle, claim, &mut transcript).unwrap();
    (claim, proof)
}

#[test]
fn transparent_oracle_proof_roundtrip_is_canonical() {
    let (_claim, proof) = oracle_codec_fixture();
    let encoded = encode_transparent_oracle_proof(&proof).unwrap();
    let decoded = decode_transparent_oracle_proof(&encoded).unwrap();
    let reencoded = encode_transparent_oracle_proof(&decoded).unwrap();
    assert_eq!(proof, decoded);
    assert_eq!(encoded, reencoded);
}

#[test]
fn decoded_transparent_oracle_proof_verifies() {
    let (claim, proof) = oracle_codec_fixture();
    let encoded = encode_transparent_oracle_proof(&proof).unwrap();
    let decoded = decode_transparent_oracle_proof(&encoded).unwrap();
    let mut transcript = MerlinTranscript::new("transparent-oracle-codec-test");
    let challenges = verify_with_oracle::<MerlinTranscript, TransparentOracle>(
        &decoded.commitment,
        decoded.commitment.variables,
        claim,
        &decoded.sumcheck_proof,
        &decoded.final_opening,
        &mut transcript,
    )
    .unwrap();
    assert_eq!(challenges.len(), decoded.commitment.variables);
}

#[test]
fn oracle_serialization_rejects_wrong_magic() {
    let (_claim, proof) = oracle_codec_fixture();
    let mut encoded = encode_transparent_oracle_proof(&proof).unwrap();
    encoded[0] = b'X';
    assert_eq!(decode_transparent_oracle_proof(&encoded), Err(OracleProofCodecError::InvalidMagic));
}

#[test]
fn rejects_truncated_transparent_oracle_proof() {
    let (_claim, proof) = oracle_codec_fixture();
    let mut encoded = encode_transparent_oracle_proof(&proof).unwrap();
    encoded.pop();
    assert_eq!(decode_transparent_oracle_proof(&encoded), Err(OracleProofCodecError::Truncated));
}

#[test]
fn oracle_serialization_rejects_trailing_bytes() {
    let (_claim, proof) = oracle_codec_fixture();
    let mut encoded = encode_transparent_oracle_proof(&proof).unwrap();
    encoded.push(0);
    assert_eq!(decode_transparent_oracle_proof(&encoded), Err(OracleProofCodecError::TrailingBytes));
}

#[test]
fn oracle_serialization_rejects_noncanonical_table_entry() {
    let (_claim, proof) = oracle_codec_fixture();
    let mut encoded = encode_transparent_oracle_proof(&proof).unwrap();
    let table_start = 14 + 8 + 8 + 8;
    for byte in &mut encoded[table_start..table_start + 32] {
        *byte = 0xff;
    }
    assert_eq!(decode_transparent_oracle_proof(&encoded), Err(OracleProofCodecError::InvalidFieldElement));
}

#[test]
fn oracle_serialization_reports_inner_errors() {
    let (_claim, proof) = oracle_codec_fixture();
    let mut encoded = encode_transparent_oracle_proof(&proof).unwrap();
    let inner_start = 14 + 8 + 8 + 8 + 8 * 32 + 8;
    encoded[inner_start] = b'X';
    assert_eq!(
        decode_transparent_oracle_proof(&encoded),
        Err(OracleProofCodecError::InnerSumcheck(SumcheckCodecError::InvalidMagic))
    );
}

// Dense round polynomials.

#[test]
fn evaluates_dense_round_polynomial() {
    let polynomial = DenseRoundPolynomial::new(vec![s(3), s(2), s(5)]);
    assert_eq!(polynomial.degree(), 2);
    assert_eq!(polynomial.evaluate(s(0)), s(3));
    assert_eq!(polynomial.evaluate(s(1)), s(10));
    assert_eq!(polynomial.boolean_sum(), s(13));
}

#[test]
fn linear_constructor_matches_endpoints() {
    let polynomial = DenseRoundPolynomial::linear(s(11), s(29));
    assert_eq!(polynomial.degree(), 1);
    assert_eq!(polynomial.evaluate(s(0)), s(11));
    assert_eq!(polynomial.evaluate(s(1)), s(29));
}

#[test]
fn degree_ignores_trailing_zero_coefficients() {
    assert_eq!(DenseRoundPolynomial::new(vec![s(4), s(0), s(0)]).degree(), 0);
    assert_eq!(DenseRoundPolynomial::new(vec![]).degree(), 0);
    assert_eq!(DenseRoundPolynomial::constant(s(9)).evaluate(s(100)), s(9));
    assert_eq!(DenseRoundPolynomial::new(vec![s(1), s(2), s(3)]).evaluate(s(2)), s(17));
}

// General Sumcheck.

fn prove_general_fixture(polynomial: &Multilinear) -> (Scalar, GeneralProof) {
    let claim = polynomial.sum_hypercube();
    let mut transcript = MerlinTranscript::new("general-sumcheck-test");
    let proof = prove_general(polynomial, claim, &mut transcript).unwrap();
    (claim, proof)
}

#[test]
fn general_sumcheck_accepts_multilinear_table() {
    let polynomial = fixture_polynomial(0);
    let (claim, proof) = prove_general_fixture(&polynomial);
    let mut transcript = MerlinTranscript::new("general-sumcheck-test");
    assert!(verify_general(&polynomial, claim, &proof, &mut transcript).is_ok());
}

#[test]
fn general_sumcheck_rejects_wrong_claim() {
    let polynomial = fixture_polynomial(0);
    let (claim, proof) = prove_general_fixture(&polynomial);
    let mut transcript = MerlinTranscript::new("general-sumcheck-test");
    assert_eq!(
        verify_general(&polynomial, claim.add(&one()), &proof, &mut transcript),
        Err(GeneralVerifyError::RoundDoesNotMatchClaim { round: 0 })
    );
}

#[test]
fn general_sumcheck_rejects_high_degree_round_message() {
    let polynomial = fixture_polynomial(0);
    let (claim, mut proof) = prove_general_fixture(&polynomial);
    proof.round_polynomials[0].coefficients.push(one());
    let mut transcript = MerlinTranscript::new("general-sumcheck-test");
    assert_eq!(
        verify_general(&polynomial, claim, &proof, &mut transcript),
        Err(GeneralVerifyError::RoundDegreeTooHigh { round: 0, degree: 2, max_degree: 1 })
    );
}

#[test]
fn general_sumcheck_rejects_tampered_final_evaluation() {
    let polynomial = fixture_polynomial(0);
    let (claim, mut proof) = prove_general_fixture(&polynomial);
    proof.final_evaluation = proof.final_evaluation.add(&one());
    let mut transcript = MerlinTranscript::new("general-sumcheck-test");
    assert_eq!(
        verify_general(&polynomial, claim, &proof, &mut transcript),
        Err(GeneralVerifyError::FinalEvaluationMismatch)
    );
}

#[test]
fn changing_statement_changes_general_challenges() {
    let polynomial = fixture_polynomial(0);
    let (claim, proof) = prove_general_fixture(&polynomial);

    let mut left = MerlinTranscript::new("general-sumcheck-test");
    let original = verify_general(&polynomial, claim, &proof, &mut left).unwrap();

    let changed_polynomial = fixture_polynomial(1);
    let mut right = MerlinTranscript::new("general-sumcheck-test");
    let changed = verify_general(&changed_polynomial, claim, &proof, &mut right);
    assert!(changed.is_err());

    let mut direct_left = MerlinTranscript::new("general-sumcheck-test");
    let proof_for_original = prove_general(&polynomial, claim, &mut direct_left).unwrap();

    let changed_claim = changed_polynomial.sum_hypercube();
    let mut direct_right = MerlinTranscript::new("general-sumcheck-test");
    let proof_for_changed = prove_general(&changed_polynomial, changed_claim, &mut direct_right).unwrap();

    let mut verify_left = MerlinTranscript::new("general-sumcheck-test");
    let original_challenges = verify_general(&polynomial, claim, &proof_for_original, &mut verify_left).unwrap();

    let mut verify_right = MerlinTranscript::new("general-sumcheck-test");
    let changed_challenges =
        verify_general(&changed_polynomial, changed_claim, &proof_for_changed, &mut verify_right).unwrap();

    assert_ne!(original, changed_challenges);
    assert_ne!(original_challenges, changed_challenges);
}

#[test]
fn general_round_messages_are_lines_through_half_sums() {
    let polynomial = fixture_polynomial(0);
    let (_claim, proof) = prove_general_fixture(&polynomial);
    let first = &proof.round_polynomials[0];
    assert_eq!(first.coefficients, vec![s(12), s(4)]);
    assert_eq!(first.boolean_sum(), s(28));
}

#[test]
fn decoder_rejects_non_canonical_field_element() {
    let mut bytes = b"SL-SUM1".to_vec();
    bytes.extend_from_slice(&255u64.to_le_bytes());
    bytes.extend_from_slice(&0u64.to_le_bytes());
    bytes.extend_from_slice(&[255u8; 32]);
    assert_eq!(decode_proof(&bytes), Err(SumcheckCodecError::InvalidFieldElement));
}

#[test]
fn multilinear_errors_carry_their_messages() {
    assert_eq!(
        Multilinear::new(vec![Scalar::from_u64(1); 3]).err(),
        Some("evaluation count must be a non-zero power of two")
    );
    let table = Multilinear::new(vec![Scalar::from_u64(1); 4]).unwrap();
    assert_eq!(table.evaluate(&[Scalar::from_u64(1)]).err(), Some("point dimension mismatch"));
}
