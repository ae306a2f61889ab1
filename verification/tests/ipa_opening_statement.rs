use snark_lab::field::Scalar;
use snark_lab::ipa::IpaCommitment;
use snark_lab::ipa_evaluation::compute_ipa_evaluation_basis;
use snark_lab::ipa_opening_statement::{
    bind_ipa_opening_statement_context, opening_statement_from_witness, validate_ipa_opening_statement,
    IpaOpeningStatement, IpaOpeningStatementError,
};
use snark_lab::multilinear::Multilinear;
use snark_lab::transcript::{MerlinTranscript, ProofTranscript};

fn s(value: u64) -> Scalar {
    Scalar::from_u64(value)
}

fn commitment(variables: usize, seed: u8) -> IpaCommitment {
    IpaCommitment { variables, commitment_bytes: vec![seed, seed + 1, seed + 2] }
}

fn polynomial(values: &[u64]) -> Multilinear {
    Multilinear::new(values.iter().copied().map(s).collect()).unwrap()
}

fn challenge_for_statement(statement: &IpaOpeningStatement) -> Scalar {
    let mut transcript = MerlinTranscript::new("ipa-opening-statement-test");
    bind_ipa_opening_statement_context(&mut transcript, statement).unwrap();
    transcript.challenge_scalar("after-opening-statement")
}

#[test]
fn opening_statement_accepts_consistent_shape() {
    let statement = IpaOpeningStatement::new(commitment(2, 7), vec![s(3), s(5)], s(99)).unwrap();
    assert_eq!(statement.variables(), 2);
    assert_eq!(statement.commitment.variables, 2);
    assert_eq!(statement.evaluation_basis.variables, 2);
    assert_eq!(validate_ipa_opening_statement(&statement), Ok(()));
}

#[test]
fn opening_statement_rejects_commitment_variable_mismatch() {
    assert_eq!(
        IpaOpeningStatement::new(commitment(1, 7), vec![s(3), s(5)], s(99)),
        Err(IpaOpeningStatementError::CommitmentVariableMismatch { commitment_variables: 1, point_variables: 2 })
    );
}

#[test]
fn opening_statement_rejects_evaluation_basis_variable_mismatch() {
    let basis = compute_ipa_evaluation_basis(&[s(3)]).unwrap();
    assert_eq!(
        IpaOpeningStatement::from_parts(commitment(2, 7), vec![s(3), s(5)], s(99), basis),
        Err(IpaOpeningStatementError::EvaluationBasisVariableMismatch { basis_variables: 1, point_variables: 2 })
    );
}

#[test]
fn opening_statement_rejects_evaluation_basis_point_mismatch() {
    let basis = compute_ipa_evaluation_basis(&[s(3), s(6)]).unwrap();
    assert_eq!(
        IpaOpeningStatement::from_parts(commitment(2, 7), vec![s(3), s(5)], s(99), basis),
        Err(IpaOpeningStatementError::EvaluationBasisPointMismatch)
    );
}

#[test]
fn opening_statement_from_witness_accepts_correct_claim() {
    let polynomial = polynomial(&[2, 3, 5, 7]);
    let point = [s(3), s(5)];
    let claimed = polynomial.evaluate(&point).unwrap();
    let statement = opening_statement_from_witness(commitment(2, 7), &polynomial, &point, claimed).unwrap();
    assert_eq!(statement.claimed_value, claimed);
}

#[test]
fn opening_statement_from_witness_rejects_wrong_claim() {
    let polynomial = polynomial(&[2, 3, 5, 7]);
    let point = [s(3), s(5)];
    let computed = polynomial.evaluate(&point).unwrap();
    let wrong = computed.add(&s(1));
    assert_eq!(
        opening_statement_from_witness(commitment(2, 7), &polynomial, &point, wrong),
        Err(IpaOpeningStatementError::ClaimedValueMismatch { claimed: wrong, computed })
    );
}

#[test]
fn opening_statement_from_witness_rejects_polynomial_variable_mismatch() {
    let polynomial = polynomial(&[2, 3, 5, 7]);
    assert_eq!(
        opening_statement_from_witness(commitment(1, 7), &polynomial, &[s(3)], s(99)),
        Err(IpaOpeningStatementError::PolynomialVariableMismatch { polynomial_variables: 2, statement_variables: 1 })
    );
}

#[test]
fn opening_statement_binding_is_deterministic() {
    let statement = IpaOpeningStatement::new(commitment(2, 7), vec![s(3), s(5)], s(99)).unwrap();
    assert_eq!(challenge_for_statement(&statement), challenge_for_statement(&statement));
}

#[test]
fn opening_statement_binding_changes_when_commitment_changes() {
    let a = IpaOpeningStatement::new(commitment(2, 7), vec![s(3), s(5)], s(99)).unwrap();
    let b = IpaOpeningStatement::new(commitment(2, 8), vec![s(3), s(5)], s(99)).unwrap();
    assert_ne!(challenge_for_statement(&a), challenge_for_statement(&b));
}

#[test]
fn opening_statement_binding_changes_when_claim_changes() {
    let a = IpaOpeningStatement::new(commitment(2, 7), vec![s(3), s(5)], s(99)).unwrap();
    let b = IpaOpeningStatement::new(commitment(2, 7), vec![s(3), s(5)], s(100)).unwrap();
    assert_ne!(challenge_for_statement(&a), challenge_for_statement(&b));
}

#[test]
fn zero_variable_opening_statement_is_valid() {
    let statement = IpaOpeningStatement::new(commitment(0, 7), Vec::new(), s(99)).unwrap();
    assert_eq!(statement.variables(), 0);
    assert_eq!(statement.evaluation_basis.basis_evaluations.len(), 1);
}
