use snark_lab::field::Scalar;
use snark_lab::ipa_proof::{IpaOpeningProof, IpaProofShapeError};
use snark_lab::ipa_serialization::{decode_ipa_opening_proof, encode_ipa_opening_proof, IpaProofCodecError};
use snark_lab::ipa_transcript::IpaTranscriptRound;

const MAGIC_LEN: usize = 13;
const FIELD_LEN: usize = 32;

fn s(value: u64) -> Scalar {
    Scalar::from_u64(value)
}

fn round(index: usize) -> IpaTranscriptRound {
    IpaTranscriptRound::new(index, vec![index as u8 + 1, index as u8 + 11], vec![index as u8 + 2, index as u8 + 12])
        .unwrap()
}

fn sample_proof() -> IpaOpeningProof {
    IpaOpeningProof::new(2, s(9), vec![round(0), round(1)], s(7), s(8), vec![1, 2, 3]).unwrap()
}

#[test]
fn ipa_opening_proof_roundtrip_is_canonical() {
    let proof = sample_proof();
    let encoded = encode_ipa_opening_proof(&proof).unwrap();
    let decoded = decode_ipa_opening_proof(&encoded).unwrap();
    let reencoded = encode_ipa_opening_proof(&decoded).unwrap();
    assert_eq!(proof, decoded);
    assert_eq!(encoded, reencoded);
}

#[test]
fn ipa_serialization_rejects_wrong_magic() {
    let mut encoded = encode_ipa_opening_proof(&sample_proof()).unwrap();
    encoded[0] = b'X';
    assert_eq!(decode_ipa_opening_proof(&encoded), Err(IpaProofCodecError::InvalidMagic));
}

#[test]
fn rejects_truncated_input() {
    let mut encoded = encode_ipa_opening_proof(&sample_proof()).unwrap();
    encoded.pop();
    assert_eq!(decode_ipa_opening_proof(&encoded), Err(IpaProofCodecError::Truncated));
}

#[test]
fn ipa_serialization_rejects_trailing_bytes() {
    let mut encoded = encode_ipa_opening_proof(&sample_proof()).unwrap();
    encoded.push(0);
    assert_eq!(decode_ipa_opening_proof(&encoded), Err(IpaProofCodecError::TrailingBytes));
}

#[test]
fn rejects_empty_final_commitment() {
    let proof = sample_proof();
    let mut encoded = encode_ipa_opening_proof(&proof).unwrap();
    let mut cursor = MAGIC_LEN + 8 + 8 + FIELD_LEN + 8;
    for round in &proof.rounds {
        cursor += 8;
        cursor += 8 + round.left_commitment_bytes.len();
        cursor += 8 + round.right_commitment_bytes.len();
    }
    cursor += FIELD_LEN;
    cursor += FIELD_LEN;
    encoded[cursor..cursor + 8].copy_from_slice(&0u64.to_le_bytes());
    encoded.truncate(cursor + 8);
    assert_eq!(
        decode_ipa_opening_proof(&encoded),
        Err(IpaProofCodecError::InvalidProofShape(IpaProofShapeError::EmptyFinalCommitment))
    );
}

const FUZZED_OVERSIZED_ROUND_COUNT: [u8; 97] = [
    83, 76, 45, 73, 80, 65, 45, 80, 82, 79, 79, 70, 49, 255, 0, 0, 0, 0, 0, 0, 0, 255, 255, 255,
    255, 255, 255, 162, 162, 162, 162, 162, 162, 162, 0, 0, 0, 0, 0, 0, 0, 0, 0, 0, 0, 0, 0, 0,
    0, 0, 0, 0, 0, 0, 0, 0, 0, 0, 0, 0, 0, 0, 0, 0, 0, 0, 255, 255, 255, 255, 255, 255,
    255, 255, 255, 255, 255, 255, 255, 255, 255, 255, 255, 255, 255, 255, 255, 255, 255, 255, 255, 255, 255, 255, 255, 255,
    10,
];

#[test]
fn rejects_fuzzed_oversized_round_count_without_panic() {
    assert_eq!(decode_ipa_opening_proof(&FUZZED_OVERSIZED_ROUND_COUNT), Err(IpaProofCodecError::LengthOverflow));
}

const CAPACITY_OVERFLOW_REGRESSION: [u8; 97] = [
    83, 76, 45, 73, 80, 65, 45, 80, 82, 79, 79, 70, 49, 255, 0, 0, 0, 0, 0, 0, 0, 255, 255, 255,
    255, 255, 255, 162, 162, 162, 162, 162, 162, 162, 0, 0, 0, 0, 0, 0, 0, 0, 0, 0, 0, 0, 0, 0,
    0, 0, 0, 0, 0, 0, 0, 0, 0, 0, 0, 0, 0, 0, 0, 0, 0, 0, 255, 255, 255, 255, 255, 255,
    255, 255, 255, 255, 255, 255, 255, 255, 255, 255, 255, 255, 255, 255, 255, 255, 255, 255, 255, 255, 255, 255, 255, 255,
    10,
];

#[test]
fn ipa_proof_decode_capacity_overflow_regression_returns_error_not_panic() {
    match decode_ipa_opening_proof(&CAPACITY_OVERFLOW_REGRESSION) {
        Err(IpaProofCodecError::LengthOverflow) => {},
        other => panic!("expected LengthOverflow, got {other:?}"),
    }
}

#[test]
fn decoder_reports_each_header_error() {
    let encoded = encode_ipa_opening_proof(&sample_proof()).unwrap();

    let mut wrong_field = encoded.clone();
    wrong_field[MAGIC_LEN] = 254;
    assert_eq!(decode_ipa_opening_proof(&wrong_field), Err(IpaProofCodecError::InvalidFieldElement));

    let mut too_many_variables = encoded.clone();
    too_many_variables[MAGIC_LEN + 8] = 65;
    assert_eq!(decode_ipa_opening_proof(&too_many_variables), Err(IpaProofCodecError::LengthOverflow));

    let mut non_canonical_claim = encoded.clone();
    for byte in &mut non_canonical_claim[MAGIC_LEN + 16..MAGIC_LEN + 16 + FIELD_LEN] {
        *byte = 255;
    }
    assert_eq!(decode_ipa_opening_proof(&non_canonical_claim), Err(IpaProofCodecError::InvalidFieldElement));

    let mut wrong_round_count = encoded.clone();
    wrong_round_count[MAGIC_LEN + 16 + FIELD_LEN] = 3;
    assert_eq!(
        decode_ipa_opening_proof(&wrong_round_count),
        Err(IpaProofCodecError::InvalidProofShape(IpaProofShapeError::Transcript(
            snark_lab::ipa_transcript::IpaTranscriptError::RoundCountMismatch { expected: 2, actual: 3 }
        )))
    );
}
