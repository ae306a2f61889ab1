//! Oracle abstraction for commitment-backed protocol plumbing.
//!
//! The transparent backend commits to the full evaluation table: it is not
//! succinct, but it separates the protocol logic from the oracle's
//! representation.
use vstd::prelude::*;
use vstd::string::StringSliceAdditionalSpecFns;
use crate::arith::{exact_log2, lemma_exact_log2_pow2, pow2};
use crate::field::{copy_scalars, field_sum, scalars_view, u64_le_bytes, Scalar};
use crate::multilinear::{evaluate_table, Multilinear};
use crate::sumcheck::{append_field_elements, field_entries};
use crate::transcript::{message_entry, ProofTranscript, TranscriptEntry};

verus! {

/// Commitment/opening interface for multilinear evaluation oracles.
pub trait MultilinearOracle: Sized {
    type Commitment: Clone + core::fmt::Debug + PartialEq + Eq;
    type Opening: Clone + core::fmt::Debug + PartialEq + Eq;
    type Error: Clone + core::fmt::Debug + PartialEq + Eq;

    /// The number of variables of the committed polynomial.
    spec fn num_variables(&self) -> nat;

    /// Whether `commitment` is what `commit` gives for this oracle.
    spec fn commits_to(&self, commitment: Self::Commitment) -> bool;

    /// What binding `commitment` appends to a transcript.
    spec fn commitment_entries(commitment: Self::Commitment) -> Seq<TranscriptEntry>;

    /// Why opening at `point` fails, if it does.
    spec fn open_error(&self, point: Seq<nat>) -> Option<Self::Error>;

    /// Whether `opening` is the honest opening at `point`.
    spec fn opens_to(&self, point: Seq<nat>, opening: Self::Opening) -> bool;

    /// The value `opening` proves for the committed polynomial at `point`, or
    /// why it is rejected.
    spec fn opening_outcome(commitment: Self::Commitment, point: Seq<nat>, opening: Self::Opening) -> Result<
        nat,
        Self::Error,
    >;

    fn variables(&self) -> (r: usize)
        ensures
            r == self.num_variables(),
    ;

    fn commit(&self) -> (r: Self::Commitment)
        ensures
            self.commits_to(r),
    ;

    fn bind_commitment<T: ProofTranscript>(commitment: &Self::Commitment, transcript: &mut T)
        ensures
            final(transcript).entries() == old(transcript).entries() + Self::commitment_entries(*commitment),
    ;

    fn open(&self, point: &[Scalar]) -> (r: Result<Self::Opening, Self::Error>)
        ensures
            match r {
                Ok(opening) => self.open_error(scalars_view(point@)) is None && self.opens_to(
                    scalars_view(point@),
                    opening,
                ),
                Err(error) => self.open_error(scalars_view(point@)) == Some(error),
            },
    ;

    fn verify_opening(commitment: &Self::Commitment, point: &[Scalar], opening: &Self::Opening) -> (r: Result<
        Scalar,
        Self::Error,
    >)
        ensures
            match r {
                Ok(value) => Self::opening_outcome(*commitment, scalars_view(point@), *opening) == Ok::<
                    nat,
                    Self::Error,
                >(value@),
                Err(error) => Self::opening_outcome(*commitment, scalars_view(point@), *opening) == Err::<
                    nat,
                    Self::Error,
                >(error),
            },
    ;
}

/// Transparent commitment carrying the full evaluation table.
#[derive(Clone, Debug, PartialEq, Eq)]
pub struct TransparentCommitment {
    pub variables: usize,
    pub evaluations: Vec<Scalar>,
}

#[derive(Clone, Copy, Debug, PartialEq, Eq)]
pub struct TransparentOpening {
    pub value: Scalar,
}

#[derive(Clone, Copy, Debug, PartialEq, Eq, Structural)]
pub enum TransparentOracleError {
    PointLengthMismatch { expected: usize, actual: usize },
    InvalidTable,
    InvalidOpening,
}

/// An oracle that holds its polynomial in the clear.
#[derive(Debug, PartialEq, Eq)]
pub struct TransparentOracle {
    polynomial: Multilinear,
}

impl View for TransparentOracle {
    type V = Seq<nat>;

    /// The committed evaluation table.
    open spec fn view(&self) -> Seq<nat> {
        self.held()@
    }
}

impl Clone for TransparentOracle {
    fn clone(&self) -> (r: Self)
        ensures
            r@ == self@,
            r.held().table() == self.held().table(),
            r.held().num_variables() == self.held().num_variables(),
    {
        TransparentOracle { polynomial: self.polynomial.clone() }
    }
}

impl TransparentOracle {
    /// The polynomial this oracle holds.
    pub closed spec fn held(self) -> Multilinear {
        self.polynomial
    }

    pub fn new(polynomial: Multilinear) -> (r: TransparentOracle)
        ensures
            r.held() == polynomial,
            r@ == polynomial@,
    {
        TransparentOracle { polynomial }
    }

    pub fn polynomial(&self) -> (r: &Multilinear)
        ensures
            *r == self.held(),
            r@ == self@,
    {
        &self.polynomial
    }

    pub fn sum_hypercube(&self) -> (r: Scalar)
        ensures
            r@ == field_sum(self@),
    {
        self.polynomial.sum_hypercube()
    }
}

impl From<Multilinear> for TransparentOracle {
    fn from(polynomial: Multilinear) -> (r: TransparentOracle) {
        Self::new(polynomial)
    }
}

impl vstd::std_specs::convert::FromSpecImpl<Multilinear> for TransparentOracle {
    open spec fn obeys_from_spec() -> bool {
        true
    }

    closed spec fn from_spec(v: Multilinear) -> TransparentOracle {
        TransparentOracle { polynomial: v }
    }
}

/// What binding a transparent commitment appends: its variable count, its
/// length and every evaluation.
pub open spec fn transparent_commitment_entries(variables: usize, evaluations: Seq<nat>) -> Seq<TranscriptEntry> {
    seq![
        message_entry("oracle-variables".spec_bytes(), u64_le_bytes(variables as u64)),
        message_entry("oracle-length".spec_bytes(), u64_le_bytes(evaluations.len() as u64)),
    ] + field_entries("oracle-evaluation".spec_bytes(), evaluations)
}

/// What verifying a transparent opening gives: the length check, then the
/// table check, then the value check.
pub open spec fn transparent_opening_outcome(
    variables: usize,
    evaluations: Seq<nat>,
    point: Seq<nat>,
    value: nat,
) -> Result<nat, TransparentOracleError> {
    if point.len() != variables {
        Err(TransparentOracleError::PointLengthMismatch { expected: variables, actual: point.len() as usize })
    } else if exact_log2(evaluations.len()) != Some(variables as nat) {
        Err(TransparentOracleError::InvalidTable)
    } else if evaluate_table(evaluations, point) != value {
        Err(TransparentOracleError::InvalidOpening)
    } else {
        Ok(value)
    }
}

impl MultilinearOracle for TransparentOracle {
    type Commitment = TransparentCommitment;
    type Opening = TransparentOpening;
    type Error = TransparentOracleError;

    open spec fn num_variables(&self) -> nat {
        self.held().num_variables()
    }

    open spec fn commits_to(&self, commitment: TransparentCommitment) -> bool {
        &&& commitment.variables == self.held().num_variables()
        &&& commitment.evaluations@ == self.held().table()
    }

    open spec fn commitment_entries(commitment: TransparentCommitment) -> Seq<TranscriptEntry> {
        transparent_commitment_entries(commitment.variables, scalars_view(commitment.evaluations@))
    }

    open spec fn open_error(&self, point: Seq<nat>) -> Option<TransparentOracleError> {
        if point.len() != self.held().num_variables() {
            Some(
                TransparentOracleError::PointLengthMismatch {
                    expected: self.held().num_variables() as usize,
                    actual: point.len() as usize,
                },
            )
        } else {
            None
        }
    }

    open spec fn opens_to(&self, point: Seq<nat>, opening: TransparentOpening) -> bool {
        opening.value@ == evaluate_table(self@, point)
    }

    open spec fn opening_outcome(
        commitment: TransparentCommitment,
        point: Seq<nat>,
        opening: TransparentOpening,
    ) -> Result<nat, TransparentOracleError> {
        transparent_opening_outcome(
            commitment.variables,
            scalars_view(commitment.evaluations@),
            point,
            opening.value@,
        )
    }

    fn variables(&self) -> (r: usize) {
        self.polynomial.variables()
    }

    fn commit(&self) -> (r: TransparentCommitment) {
        let evaluations = copy_scalars(self.polynomial.evaluations());
        TransparentCommitment { variables: self.polynomial.variables(), evaluations }
    }

    fn bind_commitment<T: ProofTranscript>(commitment: &TransparentCommitment, transcript: &mut T) {
        transcript.append_u64("oracle-variables", commitment.variables as u64);
        transcript.append_u64("oracle-length", commitment.evaluations.len() as u64);
        append_field_elements(transcript, "oracle-evaluation", commitment.evaluations.as_slice());
        assert(final(transcript).entries() =~= old(transcript).entries() + transparent_commitment_entries(
            commitment.variables,
            scalars_view(commitment.evaluations@),
        ));
    }

    fn open(&self, point: &[Scalar]) -> (r: Result<TransparentOpening, TransparentOracleError>) {
        let variables = self.polynomial.variables();
        if point.len() != variables {
            return Err(TransparentOracleError::PointLengthMismatch { expected: variables, actual: point.len() });
        }
        match self.polynomial.evaluate(point) {
            Ok(value) => Ok(TransparentOpening { value }),
            Err(_) => Err(TransparentOracleError::InvalidTable),
        }
    }

    fn verify_opening(
        commitment: &TransparentCommitment,
        point: &[Scalar],
        opening: &TransparentOpening,
    ) -> (r: Result<Scalar, TransparentOracleError>) {
        if point.len() != commitment.variables {
            return Err(
                TransparentOracleError::PointLengthMismatch { expected: commitment.variables, actual: point.len() },
            );
        }
        let polynomial = match Multilinear::new(commitment.evaluations.clone()) {
            Ok(polynomial) => polynomial,
            Err(_) => {
                return Err(TransparentOracleError::InvalidTable);
            },
        };
        if polynomial.variables() != commitment.variables {
            return Err(TransparentOracleError::InvalidTable);
        }
        let expected = match polynomial.evaluate(point) {
            Ok(value) => value,
            Err(_) => {
                return Err(TransparentOracleError::InvalidTable);
            },
        };
        if !expected.equals(&opening.value) {
            return Err(TransparentOracleError::InvalidOpening);
        }
        Ok(opening.value)
    }
}

/// An honest transparent opening verifies: for a commitment the oracle
/// commits to and an opening of the oracle at a point of the right length,
/// verification returns the opened value.
pub proof fn lemma_transparent_opening_verifies(
    oracle: TransparentOracle,
    commitment: TransparentCommitment,
    point: Seq<nat>,
    opening: TransparentOpening,
)
    requires
        oracle@.len() == pow2(oracle.num_variables()),
        oracle.commits_to(commitment),
        oracle.open_error(point) is None,
        oracle.opens_to(point, opening),
    ensures
        TransparentOracle::opening_outcome(commitment, point, opening) == Ok::<nat, TransparentOracleError>(
            opening.value@,
        ),
{
    oracle.held().lemma_view();
    lemma_exact_log2_pow2(oracle.num_variables());
}

} // verus!
