use snark_lab::field::Scalar;
use snark_lab::ipa::{IpaBackend, IpaBackendError, IpaCommitment, IpaOpening};
use snark_lab::ipa_proof::{validate_ipa_opening_proof_shape, IpaOpeningProof, IpaProofShapeError};
use snark_lab::ipa_transcript::{IpaTranscriptError, IpaTranscriptRound};
use snark_lab::multilinear::Multilinear;
use snark_lab::pcs::{MultilinearPcs, PcsShapeError};

fn s(value: u64) -> Scalar {
    Scalar::from_u64(value)
}

fn polynomial_with_variables(variables: usize) -> Multilinear {
    let len = 1usize << variables;
    Multilinear::new((0..len as u64).map(s).collect()).unwrap()
}

#[test]
fn setup_and_trim_produce_separate_key_shapes() {
    let pp = IpaBackend::setup(8).unwrap();
    let (pk, vk) = IpaBackend::trim(&pp, 5).unwrap();
    assert_eq!(pp.max_variables, 8);
    assert_eq!(pk.supported_variables, 5);
    assert_eq!(vk.supported_variables, 5);
}

#[test]
fn trim_rejects_unsupported_variable_count() {
    let pp = IpaBackend::setup(4).unwrap();
    assert_eq!(
        IpaBackend::trim(&pp, 5),
        Err(IpaBackendError::Shape(PcsShapeError::UnsupportedVariableCount { requested: 5, supported: 4 }))
    );
}

#[test]
fn commit_rejects_polynomial_above_key_capacity() {
    let pp = IpaBackend::setup(4).unwrap();
    let (pk, _vk) = IpaBackend::trim(&pp, 2).unwrap();
    let polynomial = polynomial_with_variables(3);
    assert_eq!(
        IpaBackend::commit(&pk, &polynomial),
        Err(IpaBackendError::Shape(PcsShapeError::UnsupportedVariableCount { requested: 3, supported: 2 }))
    );
}

#[test]
fn commit_does_not_fake_success() {
    let pp = IpaBackend::setup(4).unwrap();
    let (pk, _vk) = IpaBackend::trim(&pp, 3).unwrap();
    let polynomial = polynomial_with_variables(3);
    assert_eq!(IpaBackend::commit(&pk, &polynomial), Err(IpaBackendError::BackendNotImplemented));
}

#[test]
fn open_rejects_wrong_point_length_before_backend_work() {
    let pp = IpaBackend::setup(4).unwrap();
    let (pk, _vk) = IpaBackend::trim(&pp, 3).unwrap();
    let polynomial = polynomial_with_variables(3);
    assert_eq!(
        IpaBackend::open(&pk, &polynomial, &[s(1), s(2)]),
        Err(IpaBackendError::Shape(PcsShapeError::PointLengthMismatch { expected: 3, actual: 2 }))
    );
}

#[test]
fn verify_rejects_commitment_above_key_capacity() {
    let pp = IpaBackend::setup(4).unwrap();
    let (_pk, vk) = IpaBackend::trim(&pp, 2).unwrap();
    let commitment = IpaCommitment { variables: 3, commitment_bytes: vec![1, 2, 3] };
    let opening = IpaOpening { claimed_value: s(7), proof_bytes: vec![4, 5, 6] };
    assert_eq!(
        IpaBackend::verify(&vk, &commitment, &[s(1), s(2), s(3)], &opening),
        Err(IpaBackendError::Shape(PcsShapeError::UnsupportedVariableCount { requested: 3, supported: 2 }))
    );
}

#[test]
fn verify_does_not_fake_success() {
    let pp = IpaBackend::setup(4).unwrap();
    let (_pk, vk) = IpaBackend::trim(&pp, 3).unwrap();
    let commitment = IpaCommitment { variables: 3, commitment_bytes: vec![1, 2, 3] };
    let opening = IpaOpening { claimed_value: s(7), proof_bytes: vec![4, 5, 6] };
    assert_eq!(
        IpaBackend::verify(&vk, &commitment, &[s(1), s(2), s(3)], &opening),
        Err(IpaBackendError::BackendNotImplemented)
    );
}

fn round(index: usize) -> IpaTranscriptRound {
    IpaTranscriptRound::new(index, vec![index as u8 + 1], vec![index as u8 + 2]).unwrap()
}

fn proof_with_rounds(rounds: Vec<IpaTranscriptRound>) -> Result<IpaOpeningProof, IpaProofShapeError> {
    IpaOpeningProof::new(3, s(9), rounds, s(7), s(8), vec![1, 2, 3])
}

#[test]
fn opening_proof_shape_accepts_expected_round_count() {
    let proof = proof_with_rounds(vec![round(0), round(1), round(2)]).unwrap();
    assert_eq!(proof.variables, 3);
    assert_eq!(proof.expected_rounds(), 3);
    assert_eq!(validate_ipa_opening_proof_shape(&proof), Ok(()));
}

#[test]
fn opening_proof_shape_rejects_wrong_round_count() {
    assert_eq!(
        proof_with_rounds(vec![round(0), round(1)]),
        Err(IpaProofShapeError::Transcript(IpaTranscriptError::RoundCountMismatch { expected: 3, actual: 2 }))
    );
}

#[test]
fn opening_proof_shape_rejects_empty_final_commitment() {
    assert_eq!(
        IpaOpeningProof::new(1, s(9), vec![round(0)], s(7), s(8), Vec::new()),
        Err(IpaProofShapeError::EmptyFinalCommitment)
    );
}

#[test]
fn zero_variable_proof_has_zero_rounds() {
    let proof = IpaOpeningProof::new(0, s(9), Vec::new(), s(7), s(8), vec![1]).unwrap();
    assert_eq!(proof.expected_rounds(), 0);
    assert_eq!(validate_ipa_opening_proof_shape(&proof), Ok(()));
}
