//! The public statement of an IPA opening: commitment `C`, point `z`, claimed
//! value `v` and evaluation basis `eq(z, ·)`.
use vstd::prelude::*;
use vstd::string::StringSliceAdditionalSpecFns;
use crate::field::{scalar_bytes, scalars_view, u64_le_bytes, Scalar};
use crate::ipa::IpaCommitment;
use crate::ipa_evaluation::{
    bind_ipa_evaluation_basis, compute_ipa_evaluation_basis, evaluation_basis_entries, evaluation_basis_of,
    inner_product, IpaEvaluationBasis, IpaEvaluationBasisError,
};
use crate::ipa_generators::generator_count;
use crate::ipa_reduction::scalars_equal;
use crate::multilinear::Multilinear;
use crate::transcript::{
    append_indexed_scalars, dom_sep_label, indexed_entries, lemma_ascii_label, message_entry,
    modulus_le_bytes, scalar_encodings, ProofTranscript, TranscriptEntry,
};

verus! {

#[derive(Clone, Copy, Debug, PartialEq, Eq)]
pub enum IpaOpeningStatementError {
    EvaluationBasis(IpaEvaluationBasisError),
    CommitmentVariableMismatch { commitment_variables: usize, point_variables: usize },
    EvaluationBasisVariableMismatch { basis_variables: usize, point_variables: usize },
    EvaluationBasisPointMismatch,
    EvaluationBasisLengthMismatch { expected: usize, actual: usize },
    PolynomialVariableMismatch { polynomial_variables: usize, statement_variables: usize },
    ClaimedValueMismatch { claimed: Scalar, computed: Scalar },
}

/// The public statement of an opening claim.
#[derive(Clone, Debug, PartialEq, Eq)]
pub struct IpaOpeningStatement {
    pub commitment: IpaCommitment,
    pub point: Vec<Scalar>,
    pub claimed_value: Scalar,
    pub evaluation_basis: IpaEvaluationBasis,
}

/// The consistency checks of a statement's parts.
pub open spec fn statement_parts_check(
    commitment_variables: usize,
    point: Seq<nat>,
    basis_variables: usize,
    basis_point: Seq<nat>,
    basis_len: nat,
) -> Result<(), IpaOpeningStatementError> {
    if commitment_variables != point.len() {
        Err(
            IpaOpeningStatementError::CommitmentVariableMismatch {
                commitment_variables,
                point_variables: point.len() as usize,
            },
        )
    } else if basis_variables != point.len() {
        Err(
            IpaOpeningStatementError::EvaluationBasisVariableMismatch {
                basis_variables,
                point_variables: point.len() as usize,
            },
        )
    } else if basis_point != point {
        Err(IpaOpeningStatementError::EvaluationBasisPointMismatch)
    } else {
        match generator_count(basis_variables) {
            Err(error) => Err(
                IpaOpeningStatementError::EvaluationBasis(IpaEvaluationBasisError::GeneratorShape(error)),
            ),
            Ok(expected) => if basis_len != expected {
                Err(
                    IpaOpeningStatementError::EvaluationBasisLengthMismatch {
                        expected,
                        actual: basis_len as usize,
                    },
                )
            } else {
                Ok(())
            },
        }
    }
}

impl IpaOpeningStatement {
    /// The checks of this statement's parts.
    pub open spec fn check(&self) -> Result<(), IpaOpeningStatementError> {
        statement_parts_check(
            self.commitment.variables,
            scalars_view(self.point@),
            self.evaluation_basis.variables,
            scalars_view(self.evaluation_basis.point@),
            self.evaluation_basis.basis_evaluations@.len(),
        )
    }

    /// A statement with the evaluation basis of `point`.
    pub fn new(commitment: IpaCommitment, point: Vec<Scalar>, claimed_value: Scalar) -> (r: Result<
        IpaOpeningStatement,
        IpaOpeningStatementError,
    >)
        ensures
            match generator_count(point@.len() as usize) {
                Err(error) => r == Err::<IpaOpeningStatement, IpaOpeningStatementError>(
                    IpaOpeningStatementError::EvaluationBasis(IpaEvaluationBasisError::GeneratorShape(error)),
                ),
                Ok(_) => if commitment.variables != point@.len() {
                    r == Err::<IpaOpeningStatement, IpaOpeningStatementError>(
                        IpaOpeningStatementError::CommitmentVariableMismatch {
                            commitment_variables: commitment.variables,
                            point_variables: point@.len() as usize,
                        },
                    )
                } else {
                    r matches Ok(statement) && statement.commitment == commitment && statement.point@ == point@
                        && statement.claimed_value == claimed_value && statement.check() is Ok
                        && statement.evaluation_basis.variables == point@.len()
                        && scalars_view(statement.evaluation_basis.basis_evaluations@) == evaluation_basis_of(
                        scalars_view(point@),
                    ) && statement.evaluation_basis.basis_evaluations@.len() == crate::arith::pow2(point@.len())
                },
            },
    {
        proof {
            if point@.len() < usize::BITS {
                crate::ipa_generators::lemma_pow2_fits_usize(point@.len());
            }
        }
        let evaluation_basis = match compute_ipa_evaluation_basis(point.as_slice()) {
            Err(error) => {
                return Err(IpaOpeningStatementError::EvaluationBasis(error));
            },
            Ok(basis) => basis,
        };
        IpaOpeningStatement::from_parts(commitment, point, claimed_value, evaluation_basis)
    }

    /// A statement from its parts, after checking that they agree.
    pub fn from_parts(
        commitment: IpaCommitment,
        point: Vec<Scalar>,
        claimed_value: Scalar,
        evaluation_basis: IpaEvaluationBasis,
    ) -> (r: Result<IpaOpeningStatement, IpaOpeningStatementError>)
        ensures
            match statement_parts_check(
                commitment.variables,
                scalars_view(point@),
                evaluation_basis.variables,
                scalars_view(evaluation_basis.point@),
                evaluation_basis.basis_evaluations@.len(),
            ) {
                Err(error) => r == Err::<IpaOpeningStatement, IpaOpeningStatementError>(error),
                Ok(()) => r == Ok::<IpaOpeningStatement, IpaOpeningStatementError>(
                    IpaOpeningStatement { commitment, point, claimed_value, evaluation_basis },
                ),
            },
    {
        if commitment.variables != point.len() {
            return Err(
                IpaOpeningStatementError::CommitmentVariableMismatch {
                    commitment_variables: commitment.variables,
                    point_variables: point.len(),
                },
            );
        }
        if evaluation_basis.variables != point.len() {
            return Err(
                IpaOpeningStatementError::EvaluationBasisVariableMismatch {
                    basis_variables: evaluation_basis.variables,
                    point_variables: point.len(),
                },
            );
        }
        if !scalars_equal(evaluation_basis.point.as_slice(), point.as_slice()) {
            return Err(IpaOpeningStatementError::EvaluationBasisPointMismatch);
        }
        let expected = match evaluation_basis.expected_len() {
            Err(error) => {
                return Err(IpaOpeningStatementError::EvaluationBasis(error));
            },
            Ok(expected) => expected,
        };
        let actual = evaluation_basis.basis_evaluations.len();
        if actual != expected {
            return Err(IpaOpeningStatementError::EvaluationBasisLengthMismatch { expected, actual });
        }
        Ok(IpaOpeningStatement { commitment, point, claimed_value, evaluation_basis })
    }

    pub fn variables(&self) -> (r: usize)
        ensures
            r == self.point@.len(),
    {
        self.point.len()
    }
}

/// The outcome of building a statement for a known polynomial.
pub open spec fn statement_from_witness_check(
    variables: nat,
    table: Seq<nat>,
    commitment_variables: usize,
    point: Seq<nat>,
    claimed: Scalar,
) -> Result<(), IpaOpeningStatementError> {
    if variables != point.len() {
        Err(
            IpaOpeningStatementError::PolynomialVariableMismatch {
                polynomial_variables: variables as usize,
                statement_variables: point.len() as usize,
            },
        )
    } else if commitment_variables != point.len() {
        Err(
            IpaOpeningStatementError::CommitmentVariableMismatch {
                commitment_variables,
                point_variables: point.len() as usize,
            },
        )
    } else if inner_product(table, evaluation_basis_of(point)) != claimed@ {
        Err(IpaOpeningStatementError::ClaimedValueMismatch { claimed, computed: arbitrary() })
    } else {
        Ok(())
    }
}

/// Builds a statement and checks the claimed value against a known
/// polynomial; for the prover side only.
pub fn opening_statement_from_witness(
    commitment: IpaCommitment,
    polynomial: &Multilinear,
    point: &[Scalar],
    claimed_value: Scalar,
) -> (r: Result<IpaOpeningStatement, IpaOpeningStatementError>)
    ensures
        match statement_from_witness_check(
            polynomial.num_variables(),
            polynomial@,
            commitment.variables,
            scalars_view(point@),
            claimed_value,
        ) {
            Err(IpaOpeningStatementError::ClaimedValueMismatch { .. }) => r matches Err(
                IpaOpeningStatementError::ClaimedValueMismatch { claimed, computed },
            ) && claimed == claimed_value && computed@ == inner_product(
                polynomial@,
                evaluation_basis_of(scalars_view(point@)),
            ),
            Err(error) => r == Err::<IpaOpeningStatement, IpaOpeningStatementError>(error),
            Ok(()) => r matches Ok(statement) && statement.commitment == commitment && statement.point@ == point@
                && statement.claimed_value == claimed_value && statement.check() is Ok
                && scalars_view(statement.evaluation_basis.basis_evaluations@) == evaluation_basis_of(
                scalars_view(point@),
            ) && statement.evaluation_basis.basis_evaluations@.len() == crate::arith::pow2(point@.len()),
        },
{
    let variables = polynomial.variables();
    if variables != point.len() {
        return Err(
            IpaOpeningStatementError::PolynomialVariableMismatch {
                polynomial_variables: variables,
                statement_variables: point.len(),
            },
        );
    }
    let table_len = polynomial.evaluations().len();
    proof {
        crate::ipa_generators::lemma_pow2_below_usize_bits(point@.len());
        crate::ipa_generators::lemma_pow2_fits_usize(point@.len());
    }
    let mut copy: Vec<Scalar> = Vec::new();
    let mut i: usize = 0;
    while i < point.len()
        invariant
            i <= point@.len(),
            copy@ == point@.take(i as int),
        decreases point@.len() - i,
    {
        copy.push(point[i]);
        i = i + 1;
        assert(copy@ =~= point@.take(i as int));
    }
    assert(copy@ =~= point@);
    let statement = match IpaOpeningStatement::new(commitment, copy, claimed_value) {
        Err(error) => {
            return Err(error);
        },
        Ok(statement) => statement,
    };
    let computed = match statement.evaluation_basis.evaluate_polynomial(polynomial) {
        Err(error) => {
            return Err(IpaOpeningStatementError::EvaluationBasis(error));
        },
        Ok(value) => value,
    };
    if !computed.equals(&claimed_value) {
        return Err(IpaOpeningStatementError::ClaimedValueMismatch { claimed: claimed_value, computed });
    }
    Ok(statement)
}

/// Checks only the shape of a public statement.
pub fn validate_ipa_opening_statement(statement: &IpaOpeningStatement) -> (r: Result<(), IpaOpeningStatementError>)
    ensures
        r == statement.check(),
{
    if statement.commitment.variables != statement.point.len() {
        return Err(
            IpaOpeningStatementError::CommitmentVariableMismatch {
                commitment_variables: statement.commitment.variables,
                point_variables: statement.point.len(),
            },
        );
    }
    if statement.evaluation_basis.variables != statement.point.len() {
        return Err(
            IpaOpeningStatementError::EvaluationBasisVariableMismatch {
                basis_variables: statement.evaluation_basis.variables,
                point_variables: statement.point.len(),
            },
        );
    }
    if !scalars_equal(statement.evaluation_basis.point.as_slice(), statement.point.as_slice()) {
        return Err(IpaOpeningStatementError::EvaluationBasisPointMismatch);
    }
    let expected = match statement.evaluation_basis.expected_len() {
        Err(error) => {
            return Err(IpaOpeningStatementError::EvaluationBasis(error));
        },
        Ok(expected) => expected,
    };
    let actual = statement.evaluation_basis.basis_evaluations.len();
    if actual != expected {
        return Err(IpaOpeningStatementError::EvaluationBasisLengthMismatch { expected, actual });
    }
    Ok(())
}

/// What binding an opening statement with these parts appends.
pub open spec fn context_entries(
    commitment_variables: usize,
    commitment_bytes: Seq<u8>,
    point: Seq<nat>,
    claimed: nat,
    basis_variables: usize,
    basis_point: Seq<nat>,
    basis_values: Seq<nat>,
) -> Seq<TranscriptEntry> {
    seq![
        message_entry(dom_sep_label(), "snark-lab/ipa-opening-statement/v1".spec_bytes()),
        message_entry("field-modulus".spec_bytes(), modulus_le_bytes()),
        message_entry("ipa-opening-variables".spec_bytes(), u64_le_bytes(point.len() as u64)),
        message_entry("ipa-opening-commitment-variables".spec_bytes(), u64_le_bytes(commitment_variables as u64)),
        message_entry("ipa-opening-commitment".spec_bytes(), commitment_bytes),
    ] + indexed_entries(
        "ipa-opening-point-index".spec_bytes(),
        "ipa-opening-point-coordinate".spec_bytes(),
        scalar_encodings(point),
    ) + seq![message_entry("ipa-opening-claimed-value".spec_bytes(), scalar_bytes(claimed))]
        + evaluation_basis_entries(basis_variables, basis_point, basis_values)
}

/// What binding a full opening statement appends.
pub open spec fn statement_context_entries(statement: IpaOpeningStatement) -> Seq<TranscriptEntry> {
    context_entries(
        statement.commitment.variables,
        statement.commitment.commitment_bytes@,
        scalars_view(statement.point@),
        statement.claimed_value@,
        statement.evaluation_basis.variables,
        scalars_view(statement.evaluation_basis.point@),
        scalars_view(statement.evaluation_basis.basis_evaluations@),
    )
}

/// Binds the full opening statement, after checking its shape.
pub fn bind_ipa_opening_statement_context<T: ProofTranscript>(transcript: &mut T, statement: &IpaOpeningStatement) -> (r: Result<
    (),
    IpaOpeningStatementError,
>)
    requires
        statement.commitment.commitment_bytes@.len() <= u32::MAX,
    ensures
        r == statement.check(),
        r is Err ==> final(transcript).entries() == old(transcript).entries(),
        r is Ok ==> final(transcript).entries() == old(transcript).entries() + statement_context_entries(*statement),
{
    match validate_ipa_opening_statement(statement) {
        Err(error) => {
            return Err(error);
        },
        Ok(()) => {},
    }
    proof {
        reveal_strlit("snark-lab/ipa-opening-statement/v1");
        lemma_ascii_label("snark-lab/ipa-opening-statement/v1");
    }
    transcript.append_domain_separator("snark-lab/ipa-opening-statement/v1");
    transcript.append_field_modulus();
    transcript.append_u64("ipa-opening-variables", statement.variables() as u64);
    transcript.append_u64("ipa-opening-commitment-variables", statement.commitment.variables as u64);
    transcript.append_bytes("ipa-opening-commitment", statement.commitment.commitment_bytes.as_slice());
    append_indexed_scalars(
        transcript,
        "ipa-opening-point-index",
        "ipa-opening-point-coordinate",
        statement.point.as_slice(),
    );
    transcript.append_field_element("ipa-opening-claimed-value", &statement.claimed_value);
    let ghost before_basis = transcript.entries();
    match bind_ipa_evaluation_basis(transcript, &statement.evaluation_basis) {
        Err(error) => {
            return Err(IpaOpeningStatementError::EvaluationBasis(error));
        },
        Ok(()) => {},
    }
    assert(final(transcript).entries() =~= old(transcript).entries() + statement_context_entries(*statement));
    Ok(())
}

} // verus!
