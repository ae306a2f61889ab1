//! Educational F_97 transcript interchange used by the browser visualizer.
//!
//! The production-sized protocols live in the Sumcheck, Zerocheck, PermCheck,
//! and transcript modules; this verifier replays the deterministic toy
//! challenge schedule of the visualizer.
use vstd::prelude::*;
use crate::arith::{checked_log2, exact_log2, pow2};

verus! {

pub const SCHEMA_VERSION: u32 = 1;

pub const EDUCATIONAL_MODULUS: u64 = 97;

#[derive(Clone, Copy, Debug, PartialEq, Eq, Structural)]
pub enum Protocol {
    Sumcheck,
    Zerocheck,
}

#[derive(Clone, Copy, Debug, PartialEq, Eq, Structural)]
pub struct FieldSpec {
    pub modulus: u64,
}

#[derive(Clone, Debug, PartialEq, Eq)]
pub struct Claim {
    pub num_variables: usize,
    pub claimed_sum: u64,
    pub oracle_evaluations: Vec<u64>,
    pub mixing_point: Option<Vec<u64>>,
}

#[derive(Clone, Copy, Debug, PartialEq, Eq, Structural)]
pub struct TranscriptRound {
    pub round: usize,
    pub g_at_zero: u64,
    pub g_at_one: u64,
    pub challenge: u64,
}

#[derive(Clone, Debug, PartialEq, Eq)]
pub struct FinalCheck {
    pub point: Vec<u64>,
    pub oracle_evaluation: u64,
}

#[derive(Clone, Debug, PartialEq, Eq)]
pub struct EducationalTranscript {
    pub version: u32,
    pub protocol: Protocol,
    pub field: FieldSpec,
    pub claim: Claim,
    pub rounds: Vec<TranscriptRound>,
    pub final_check: FinalCheck,
}

#[derive(Clone, Debug, PartialEq, Eq)]
pub enum TranscriptError {
    UnsupportedVersion(u32),
    UnsupportedModulus(u64),
    NonCanonicalFieldElement { path: String, value: u64 },
    InvalidEvaluationCount,
    VariableCountMismatch,
    InvalidMixingPoint,
    ZerocheckClaimMustBeZero,
    WrongRoundCount,
    WrongRoundIndex { position: usize, declared: usize },
    RoundDoesNotMatchClaim { round: usize },
    FinalPointMismatch,
    FinalEvaluationMismatch,
}

/// A `TranscriptError` with its path held as characters.
pub enum TranscriptFailure {
    UnsupportedVersion(u32),
    UnsupportedModulus(u64),
    NonCanonicalFieldElement { path: Seq<char>, value: u64 },
    InvalidEvaluationCount,
    VariableCountMismatch,
    InvalidMixingPoint,
    ZerocheckClaimMustBeZero,
    WrongRoundCount,
    WrongRoundIndex { position: nat, declared: nat },
    RoundDoesNotMatchClaim { round: nat },
    FinalPointMismatch,
    FinalEvaluationMismatch,
}

impl View for TranscriptError {
    type V = TranscriptFailure;

    open spec fn view(&self) -> TranscriptFailure {
        match self {
            TranscriptError::UnsupportedVersion(v) => TranscriptFailure::UnsupportedVersion(*v),
            TranscriptError::UnsupportedModulus(m) => TranscriptFailure::UnsupportedModulus(*m),
            TranscriptError::NonCanonicalFieldElement { path, value } => {
                TranscriptFailure::NonCanonicalFieldElement { path: path@, value: *value }
            },
            TranscriptError::InvalidEvaluationCount => TranscriptFailure::InvalidEvaluationCount,
            TranscriptError::VariableCountMismatch => TranscriptFailure::VariableCountMismatch,
            TranscriptError::InvalidMixingPoint => TranscriptFailure::InvalidMixingPoint,
            TranscriptError::ZerocheckClaimMustBeZero => TranscriptFailure::ZerocheckClaimMustBeZero,
            TranscriptError::WrongRoundCount => TranscriptFailure::WrongRoundCount,
            TranscriptError::WrongRoundIndex { position, declared } => {
                TranscriptFailure::WrongRoundIndex { position: *position as nat, declared: *declared as nat }
            },
            TranscriptError::RoundDoesNotMatchClaim { round } => {
                TranscriptFailure::RoundDoesNotMatchClaim { round: *round as nat }
            },
            TranscriptError::FinalPointMismatch => TranscriptFailure::FinalPointMismatch,
            TranscriptError::FinalEvaluationMismatch => TranscriptFailure::FinalEvaluationMismatch,
        }
    }
}

pub open spec fn add97(left: nat, right: nat) -> nat {
    (left + right) % 97
}

pub open spec fn sub97(left: nat, right: nat) -> nat {
    ((97 + left - right) as nat) % 97
}

pub open spec fn mul97(left: nat, right: nat) -> nat {
    (left * right) % 97
}

pub open spec fn fold97(left: nat, right: nat, challenge: nat) -> nat {
    add97(left, mul97(challenge, sub97(right, left)))
}

/// The toy challenge of the visualizer's transcript schedule.
pub open spec fn challenge97(round: nat, claim: nat, g0: nat, g1: nat) -> nat {
    (claim * 17 + g0 * 31 + g1 * 43 + round * 13 + 7) % 97
}

/// The equality table `eq(point, x)` over F_97, the first coordinate being the
/// most significant bit of `x`.
pub open spec fn equality_table(point: Seq<u64>) -> Seq<nat>
    decreases point.len(),
{
    if point.len() == 0 {
        seq![1nat]
    } else {
        let previous = equality_table(point.drop_last());
        let coordinate = point.last() as nat;
        Seq::new(
            2 * previous.len(),
            |i: int|
                if i % 2 == 0 {
                    mul97(previous[i / 2], sub97(1, coordinate))
                } else {
                    mul97(previous[i / 2], coordinate)
                },
        )
    }
}

/// Folds adjacent pairs of a table at `challenge`.
pub open spec fn fold_table97(table: Seq<nat>, challenge: nat) -> Seq<nat> {
    Seq::new(table.len() / 2, |i: int| fold97(table[2 * i], table[2 * i + 1], challenge))
}

/// The multilinear extension of a table over F_97 evaluated at `point`.
pub open spec fn evaluate_table97(table: Seq<nat>, point: Seq<u64>) -> nat
    decreases point.len(),
{
    if point.len() == 0 {
        table[0]
    } else {
        evaluate_table97(fold_table97(table, point[0] as nat), point.drop_first())
    }
}

/// Decimal digits of a number, as `Display` prints it.
pub open spec fn decimal(n: nat) -> Seq<char>
    decreases n,
{
    if n < 10 {
        seq![(48 + n) as char]
    } else {
        decimal(n / 10).push((48 + n % 10) as char)
    }
}

/// The position of the first value that is not a canonical F_97 element.
pub open spec fn first_noncanonical(values: Seq<u64>) -> Option<nat>
    decreases values.len(),
{
    if values.len() == 0 {
        None
    } else if values[0] >= 97 {
        Some(0)
    } else {
        match first_noncanonical(values.drop_first()) {
            Some(i) => Some(i + 1),
            None => None,
        }
    }
}

pub open spec fn noncanonical_at(path: Seq<char>, value: u64) -> TranscriptFailure {
    TranscriptFailure::NonCanonicalFieldElement { path, value }
}

pub open spec fn indexed(prefix: Seq<char>, index: nat, suffix: Seq<char>) -> Seq<char> {
    prefix + decimal(index) + suffix
}

/// Checks one round against the running claim and returns the folded claim.
pub open spec fn check_round(round: TranscriptRound, position: nat, claim: nat) -> Result<nat, TranscriptFailure> {
    if round.round != position {
        Err(TranscriptFailure::WrongRoundIndex { position, declared: round.round as nat })
    } else if round.g_at_zero >= 97 {
        Err(noncanonical_at(indexed("rounds["@, position, "].g_at_zero"@), round.g_at_zero))
    } else if round.g_at_one >= 97 {
        Err(noncanonical_at(indexed("rounds["@, position, "].g_at_one"@), round.g_at_one))
    } else if round.challenge >= 97 {
        Err(noncanonical_at(indexed("rounds["@, position, "].challenge"@), round.challenge))
    } else if add97(round.g_at_zero as nat, round.g_at_one as nat) != claim || round.challenge as nat
        != challenge97(position, claim, round.g_at_zero as nat, round.g_at_one as nat) {
        Err(TranscriptFailure::RoundDoesNotMatchClaim { round: position })
    } else {
        Ok(fold97(round.g_at_zero as nat, round.g_at_one as nat, round.challenge as nat))
    }
}

/// The claim after replaying the first `count` rounds.
pub open spec fn run_rounds(rounds: Seq<TranscriptRound>, claim: nat, count: nat) -> Result<nat, TranscriptFailure>
    decreases count,
{
    if count == 0 {
        Ok(claim)
    } else {
        match run_rounds(rounds, claim, (count - 1) as nat) {
            Ok(current) => check_round(rounds[count - 1], (count - 1) as nat, current),
            Err(failure) => Err(failure),
        }
    }
}

pub open spec fn round_challenges(rounds: Seq<TranscriptRound>) -> Seq<u64> {
    Seq::new(rounds.len(), |i: int| rounds[i].challenge)
}

pub open spec fn as_nats(values: Seq<u64>) -> Seq<nat> {
    Seq::new(values.len(), |i: int| values[i] as nat)
}

/// The final checks once the rounds are replayed: the final point, its
/// canonical evaluation, and the agreement of claim, oracle and table.
pub open spec fn final_outcome(t: EducationalTranscript, table: Seq<nat>, claim: nat) -> Result<(), TranscriptFailure> {
    let point = round_challenges(t.rounds@);
    if t.final_check.point@ != point {
        Err(TranscriptFailure::FinalPointMismatch)
    } else if t.final_check.oracle_evaluation >= 97 {
        Err(noncanonical_at("final.oracle_evaluation"@, t.final_check.oracle_evaluation))
    } else if claim != t.final_check.oracle_evaluation as nat || evaluate_table97(table, point)
        != t.final_check.oracle_evaluation as nat {
        Err(TranscriptFailure::FinalEvaluationMismatch)
    } else {
        Ok(())
    }
}

/// Replays the rounds from the claimed sum and applies the final checks.
pub open spec fn claim_outcome(t: EducationalTranscript, table: Seq<nat>) -> Result<(), TranscriptFailure> {
    if t.claim.claimed_sum >= 97 {
        Err(noncanonical_at("claim.claimed_sum"@, t.claim.claimed_sum))
    } else {
        match run_rounds(t.rounds@, t.claim.claimed_sum as nat, t.rounds@.len()) {
            Err(failure) => Err(failure),
            Ok(claim) => final_outcome(t, table, claim),
        }
    }
}

/// The verdict on a transcript whose header, sizes and oracle table are valid.
pub open spec fn protocol_outcome(t: EducationalTranscript, variables: nat) -> Result<(), TranscriptFailure> {
    let evaluations = t.claim.oracle_evaluations@;
    match t.protocol {
        Protocol::Sumcheck => {
            if t.claim.mixing_point is Some {
                Err(TranscriptFailure::InvalidMixingPoint)
            } else {
                claim_outcome(t, as_nats(evaluations))
            }
        },
        Protocol::Zerocheck => {
            if t.claim.claimed_sum != 0 {
                Err(TranscriptFailure::ZerocheckClaimMustBeZero)
            } else {
                match t.claim.mixing_point {
                    None => Err(TranscriptFailure::InvalidMixingPoint),
                    Some(point) => {
                        if point@.len() != variables {
                            Err(TranscriptFailure::InvalidMixingPoint)
                        } else {
                            match first_noncanonical(point@) {
                                Some(i) => Err(
                                    noncanonical_at(
                                        indexed("claim.mixing_point["@, i, "]"@),
                                        point@[i as int],
                                    ),
                                ),
                                None => {
                                    let equality = equality_table(point@);
                                    claim_outcome(
                                        t,
                                        Seq::new(
                                            evaluations.len(),
                                            |i: int| mul97(evaluations[i] as nat, equality[i]),
                                        ),
                                    )
                                },
                            }
                        }
                    },
                }
            }
        },
    }
}

/// The verdict of the educational transcript verifier.
pub open spec fn transcript_outcome(t: EducationalTranscript) -> Result<(), TranscriptFailure> {
    let evaluations = t.claim.oracle_evaluations@;
    if t.version != SCHEMA_VERSION {
        Err(TranscriptFailure::UnsupportedVersion(t.version))
    } else if t.field.modulus != EDUCATIONAL_MODULUS {
        Err(TranscriptFailure::UnsupportedModulus(t.field.modulus))
    } else {
        match exact_log2(evaluations.len()) {
            None => Err(TranscriptFailure::InvalidEvaluationCount),
            Some(variables) => {
                if t.claim.num_variables != variables {
                    Err(TranscriptFailure::VariableCountMismatch)
                } else if t.rounds@.len() != variables {
                    Err(TranscriptFailure::WrongRoundCount)
                } else {
                    match first_noncanonical(evaluations) {
                        Some(i) => Err(
                            noncanonical_at(
                                indexed("claim.oracle_evaluations["@, i, "]"@),
                                evaluations[i as int],
                            ),
                        ),
                        None => protocol_outcome(t, variables),
                    }
                }
            },
        }
    }
}

pub open spec fn outcome_view(r: Result<(), TranscriptError>) -> Result<(), TranscriptFailure> {
    match r {
        Ok(()) => Ok(()),
        Err(e) => Err(e@),
    }
}

/// Formats `prefix`, the decimal index and `suffix` with `format!`.
#[verifier::external_body]
fn format_indexed_path(prefix: &str, index: usize, suffix: &str) -> (r: String)
    ensures
        r@ == indexed(prefix@, index as nat, suffix@),
{
    format!("{prefix}{index}{suffix}")
}

fn add(left: u64, right: u64) -> (r: u64)
    requires
        left < 97,
        right < 97,
    ensures
        r == add97(left as nat, right as nat),
        r < 97,
{
    (left + right) % EDUCATIONAL_MODULUS
}

fn sub(left: u64, right: u64) -> (r: u64)
    requires
        left < 97,
        right < 97,
    ensures
        r == sub97(left as nat, right as nat),
        r < 97,
{
    (EDUCATIONAL_MODULUS + left - right) % EDUCATIONAL_MODULUS
}

fn mul(left: u64, right: u64) -> (r: u64)
    requires
        left < 97,
        right < 97,
    ensures
        r == mul97(left as nat, right as nat),
        r < 97,
{
    proof {
        assert(left * right < 97 * 97) by (nonlinear_arith)
            requires left < 97, right < 97;
    }
    (left * right) % EDUCATIONAL_MODULUS
}

fn fold(left: u64, right: u64, challenge: u64) -> (r: u64)
    requires
        left < 97,
        right < 97,
        challenge < 97,
    ensures
        r == fold97(left as nat, right as nat, challenge as nat),
        r < 97,
{
    self::add(left, self::mul(challenge, self::sub(right, left)))
}

fn canonical(value: u64, path: String) -> (r: Result<u64, TranscriptError>)
    ensures
        value < 97 ==> r == Ok::<u64, TranscriptError>(value),
        value >= 97 ==> (r matches Err(e) && e@ == noncanonical_at(path@, value)),
{
    if value >= EDUCATIONAL_MODULUS {
        Err(TranscriptError::NonCanonicalFieldElement { path, value })
    } else {
        Ok(value)
    }
}

fn equality_evaluations(point: &[u64]) -> (r: Vec<u64>)
    requires
        forall|i: int| 0 <= i < point@.len() ==> point@[i] < 97,
        pow2(point@.len()) <= usize::MAX,
    ensures
        as_nats(r@) == equality_table(point@),
        r@.len() == pow2(point@.len()),
        forall|i: int| 0 <= i < r@.len() ==> r@[i] < 97,
{
    let mut values: Vec<u64> = vec![1];
    let mut k: usize = 0;
    assert(point@.take(0).len() == 0);
    assert(as_nats(values@) =~= equality_table(point@.take(0)));
    while k < point.len()
        invariant
            k <= point@.len(),
            forall|i: int| 0 <= i < point@.len() ==> point@[i] < 97,
            pow2(point@.len()) <= usize::MAX,
            as_nats(values@) == equality_table(point@.take(k as int)),
            values@.len() == pow2(k as nat),
            forall|i: int| 0 <= i < values@.len() ==> values@[i] < 97,
        decreases point@.len() - k,
    {
        let coordinate = point[k];
        let complement = self::sub(1, coordinate);
        let mut next: Vec<u64> = Vec::new();
        let mut j: usize = 0;
        proof {
            crate::arith::lemma_pow2_monotone((k + 1) as nat, point@.len());
        }
        while j < values.len()
            invariant
                j <= values@.len(),
                values@.len() == pow2(k as nat),
                2 * pow2(k as nat) <= usize::MAX,
                complement == sub97(1, coordinate as nat),
                coordinate < 97,
                forall|i: int| 0 <= i < values@.len() ==> values@[i] < 97,
                next@.len() == 2 * j,
                forall|i: int| 0 <= i < next@.len() ==> next@[i] < 97,
                forall|i: int|
                    0 <= i < next@.len() ==> next@[i] as nat == (if i % 2 == 0 {
                        mul97(values@[i / 2] as nat, complement as nat)
                    } else {
                        mul97(values@[i / 2] as nat, coordinate as nat)
                    }),
            decreases values@.len() - j,
        {
            let value = values[j];
            next.push(self::mul(value, complement));
            next.push(self::mul(value, coordinate));
            j = j + 1;
        }
        proof {
            let prefix = point@.take(k + 1);
            assert(prefix.drop_last() =~= point@.take(k as int));
            assert(prefix.last() == coordinate);
            assert(as_nats(next@) =~= equality_table(prefix));
        }
        values = next;
        k = k + 1;
    }
    assert(point@.take(point@.len() as int) =~= point@);
    values
}

fn evaluate(table: Vec<u64>, point: &[u64]) -> (r: u64)
    requires
        table@.len() == pow2(point@.len()),
        forall|i: int| 0 <= i < table@.len() ==> table@[i] < 97,
        forall|i: int| 0 <= i < point@.len() ==> point@[i] < 97,
    ensures
        r as nat == evaluate_table97(as_nats(table@), point@),
        r < 97,
{
    let mut current = table;
    let mut k: usize = 0;
    assert(point@.skip(0) =~= point@);
    while k < point.len()
        invariant
            k <= point@.len(),
            current@.len() == pow2((point@.len() - k) as nat),
            forall|i: int| 0 <= i < current@.len() ==> current@[i] < 97,
            forall|i: int| 0 <= i < point@.len() ==> point@[i] < 97,
            evaluate_table97(as_nats(table@), point@) == evaluate_table97(
                as_nats(current@),
                point@.skip(k as int),
            ),
        decreases point@.len() - k,
    {
        let challenge = point[k];
        let mut next: Vec<u64> = Vec::new();
        let mut j: usize = 0;
        let half = current.len() / 2;
        while j < half
            invariant
                j <= half,
                half == current@.len() / 2,
                current@.len() <= usize::MAX,
                current@.len() == pow2((point@.len() - k) as nat),
                challenge < 97,
                forall|i: int| 0 <= i < current@.len() ==> current@[i] < 97,
                next@.len() == j,
                forall|i: int|
                    0 <= i < j ==> next@[i] as nat == fold97(
                        current@[2 * i] as nat,
                        current@[2 * i + 1] as nat,
                        challenge as nat,
                    ) && next@[i] < 97,
            decreases half - j,
        {
            next.push(fold(current[2 * j], current[2 * j + 1], challenge));
            j = j + 1;
        }
        proof {
            assert(as_nats(next@) =~= fold_table97(as_nats(current@), challenge as nat));
            assert(point@.skip(k as int).drop_first() =~= point@.skip(k + 1));
            assert(pow2((point@.len() - k) as nat) == 2 * pow2((point@.len() - k - 1) as nat));
        }
        current = next;
        k = k + 1;
    }
    proof {
        crate::arith::lemma_pow2_positive(0);
    }
    current[0]
}

fn challenge(round: usize, claim: u64, g0: u64, g1: u64) -> (r: u64)
    requires
        round < 64,
        claim < 97,
        g0 < 97,
        g1 < 97,
    ensures
        r == challenge97(round as nat, claim as nat, g0 as nat, g1 as nat),
{
    (claim * 17 + g0 * 31 + g1 * 43 + round as u64 * 13 + 7) % EDUCATIONAL_MODULUS
}

/// `first_noncanonical` finds the first index whose value is not below 97.
proof fn lemma_first_noncanonical(values: Seq<u64>, i: nat)
    requires
        i <= values.len(),
        forall|k: int| 0 <= k < i ==> values[k] < 97,
    ensures
        i < values.len() && values[i as int] >= 97 ==> first_noncanonical(values) == Some(i),
        i == values.len() ==> first_noncanonical(values) is None,
    decreases i,
{
    if i > 0 {
        lemma_first_noncanonical(values.drop_first(), (i - 1) as nat);
    } else if values.len() > 0 {
    }
}

/// Once a round fails, every longer replay fails the same way.
proof fn lemma_run_rounds_error_persists(rounds: Seq<TranscriptRound>, claim: nat, k: nat, n: nat)
    requires
        k <= n,
        run_rounds(rounds, claim, k) is Err,
    ensures
        run_rounds(rounds, claim, n) == run_rounds(rounds, claim, k),
    decreases n,
{
    if k < n {
        lemma_run_rounds_error_persists(rounds, claim, k, (n - 1) as nat);
    }
}

/// Checks that every value is a canonical F_97 element, reporting the first
/// that is not under `prefix[index]`.
fn canonical_table(values: &Vec<u64>, prefix: &str) -> (r: Result<Vec<u64>, TranscriptError>)
    ensures
        match first_noncanonical(values@) {
            Some(i) => r matches Err(e) && e@ == noncanonical_at(indexed(prefix@, i, "]"@), values@[i as int]),
            None => r matches Ok(t) && t@ == values@ && forall|k: int| 0 <= k < t@.len() ==> t@[k] < 97,
        },
{
    let mut table: Vec<u64> = Vec::new();
    let mut index: usize = 0;
    while index < values.len()
        invariant
            index <= values@.len(),
            table@ == values@.take(index as int),
            forall|k: int| 0 <= k < index ==> values@[k] < 97,
        decreases values@.len() - index,
    {
        let value = values[index];
        if value >= EDUCATIONAL_MODULUS {
            proof {
                lemma_first_noncanonical(values@, index as nat);
            }
            let path = format_indexed_path(prefix, index, "]");
            return Err(TranscriptError::NonCanonicalFieldElement { path, value });
        }
        table.push(value);
        index = index + 1;
        assert(table@ =~= values@.take(index as int));
    }
    proof {
        lemma_first_noncanonical(values@, index as nat);
        assert(table@ =~= values@);
    }
    Ok(table)
}

fn slices_equal(left: &[u64], right: &[u64]) -> (r: bool)
    ensures
        r == (left@ == right@),
{
    if left.len() != right.len() {
        return false;
    }
    let mut i: usize = 0;
    while i < left.len()
        invariant
            i <= left@.len(),
            left@.len() == right@.len(),
            forall|k: int| 0 <= k < i ==> left@[k] == right@[k],
        decreases left@.len() - i,
    {
        if left[i] != right[i] {
            return false;
        }
        i = i + 1;
    }
    assert(left@ =~= right@);
    true
}

pub open spec fn round_view(r: Result<u64, TranscriptError>) -> Result<nat, TranscriptFailure> {
    match r {
        Ok(claim) => Ok(claim as nat),
        Err(e) => Err(e@),
    }
}

/// Checks one round against the running claim and returns the folded claim.
fn replay_round(round: TranscriptRound, position: usize, claim: u64) -> (r: Result<u64, TranscriptError>)
    requires
        position < 64,
        claim < 97,
    ensures
        round_view(r) == check_round(round, position as nat, claim as nat),
        r matches Ok(next) ==> next < 97 && round.challenge < 97,
{
    if round.round != position {
        return Err(TranscriptError::WrongRoundIndex { position, declared: round.round });
    }
    if round.g_at_zero >= EDUCATIONAL_MODULUS {
        let path = format_indexed_path("rounds[", position, "].g_at_zero");
        return Err(TranscriptError::NonCanonicalFieldElement { path, value: round.g_at_zero });
    }
    if round.g_at_one >= EDUCATIONAL_MODULUS {
        let path = format_indexed_path("rounds[", position, "].g_at_one");
        return Err(TranscriptError::NonCanonicalFieldElement { path, value: round.g_at_one });
    }
    if round.challenge >= EDUCATIONAL_MODULUS {
        let path = format_indexed_path("rounds[", position, "].challenge");
        return Err(TranscriptError::NonCanonicalFieldElement { path, value: round.challenge });
    }
    let g0 = round.g_at_zero;
    let g1 = round.g_at_one;
    if self::add(g0, g1) != claim || round.challenge != challenge(position, claim, g0, g1) {
        return Err(TranscriptError::RoundDoesNotMatchClaim { round: position });
    }
    Ok(fold(g0, g1, round.challenge))
}

/// Replays the rounds and the final checks of a transcript whose oracle table
/// has been checked.
fn check_claim(transcript: &EducationalTranscript, table: Vec<u64>) -> (r: Result<(), TranscriptError>)
    requires
        table@.len() == pow2(transcript.rounds@.len()),
        transcript.rounds@.len() < 64,
        forall|i: int| 0 <= i < table@.len() ==> table@[i] < 97,
    ensures
        outcome_view(r) == claim_outcome(*transcript, as_nats(table@)),
{
    if transcript.claim.claimed_sum >= EDUCATIONAL_MODULUS {
        let path = "claim.claimed_sum".to_owned();
        return Err(TranscriptError::NonCanonicalFieldElement { path, value: transcript.claim.claimed_sum });
    }
    let rounds = &transcript.rounds;
    let mut claim = transcript.claim.claimed_sum;
    let mut point: Vec<u64> = Vec::new();
    let mut position: usize = 0;
    while position < rounds.len()
        invariant
            position <= rounds@.len(),
            rounds@.len() < 64,
            rounds == &transcript.rounds,
            transcript.claim.claimed_sum < 97,
            claim < 97,
            run_rounds(rounds@, transcript.claim.claimed_sum as nat, position as nat) == Ok::<nat, TranscriptFailure>(claim as nat),
            point@ == round_challenges(rounds@.take(position as int)),
            forall|k: int| 0 <= k < point@.len() ==> point@[k] < 97,
        decreases rounds@.len() - position,
    {
        let round = rounds[position];
        proof {
            assert(run_rounds(rounds@, transcript.claim.claimed_sum as nat, (position + 1) as nat)
                == check_round(rounds@[position as int], position as nat, claim as nat));
            if check_round(rounds@[position as int], position as nat, claim as nat) is Err {
                lemma_run_rounds_error_persists(
                    rounds@,
                    transcript.claim.claimed_sum as nat,
                    (position + 1) as nat,
                    rounds@.len(),
                );
            }
        }
        let next_claim = match replay_round(round, position, claim) {
            Ok(next_claim) => next_claim,
            Err(error) => {
                proof {
                    assert(run_rounds(rounds@, transcript.claim.claimed_sum as nat, rounds@.len())
                        == Err::<nat, TranscriptFailure>(error@));
                    assert(transcript.rounds@ == rounds@);
                    assert(transcript.claim.claimed_sum < 97);
                    assert(claim_outcome(*transcript, as_nats(table@)) == Err::<(), TranscriptFailure>(error@));
                }
                return Err(error);
            },
        };
        let round_challenge = round.challenge;
        claim = next_claim;
        point.push(round_challenge);
        position = position + 1;
        proof {
            assert(round_challenges(rounds@.take(position as int)) =~= round_challenges(
                rounds@.take(position - 1),
            ).push(round_challenge));
        }
    }
    assert(rounds@.take(position as int) =~= rounds@);
    if !slices_equal(transcript.final_check.point.as_slice(), point.as_slice()) {
        return Err(TranscriptError::FinalPointMismatch);
    }
    let final_evaluation = transcript.final_check.oracle_evaluation;
    if final_evaluation >= EDUCATIONAL_MODULUS {
        let path = "final.oracle_evaluation".to_owned();
        return Err(TranscriptError::NonCanonicalFieldElement { path, value: final_evaluation });
    }
    if claim != final_evaluation || evaluate(table, point.as_slice()) != final_evaluation {
        return Err(TranscriptError::FinalEvaluationMismatch);
    }
    Ok(())
}

/// Verifies an educational F_97 Sumcheck or Zerocheck transcript.
pub fn verify_transcript(transcript: &EducationalTranscript) -> (r: Result<(), TranscriptError>)
    ensures
        outcome_view(r) == transcript_outcome(*transcript),
{
    if transcript.version != SCHEMA_VERSION {
        return Err(TranscriptError::UnsupportedVersion(transcript.version));
    }
    if transcript.field.modulus != EDUCATIONAL_MODULUS {
        return Err(TranscriptError::UnsupportedModulus(transcript.field.modulus));
    }
    let length = transcript.claim.oracle_evaluations.len();
    let variables = match checked_log2(length) {
        Some(variables) => variables,
        None => {
            return Err(TranscriptError::InvalidEvaluationCount);
        },
    };
    if transcript.claim.num_variables != variables {
        return Err(TranscriptError::VariableCountMismatch);
    }
    if transcript.rounds.len() != variables {
        return Err(TranscriptError::WrongRoundCount);
    }
    proof {
        crate::arith::lemma_pow2_bound(variables as nat);
    }
    let table = match canonical_table(&transcript.claim.oracle_evaluations, "claim.oracle_evaluations[") {
        Ok(table) => table,
        Err(error) => {
            return Err(error);
        },
    };
    proof {
        lemma_first_noncanonical(transcript.claim.oracle_evaluations@, 0);
        assert(table@ == transcript.claim.oracle_evaluations@);
        assert(as_nats(table@) =~= as_nats(transcript.claim.oracle_evaluations@));
    }
    match transcript.protocol {
        Protocol::Sumcheck => {
            if transcript.claim.mixing_point.is_some() {
                return Err(TranscriptError::InvalidMixingPoint);
            }
            check_claim(transcript, table)
        },
        Protocol::Zerocheck => {
            if transcript.claim.claimed_sum != 0 {
                return Err(TranscriptError::ZerocheckClaimMustBeZero);
            }
            let point = match &transcript.claim.mixing_point {
                Some(point) => point,
                None => {
                    return Err(TranscriptError::InvalidMixingPoint);
                },
            };
            if point.len() != variables {
                return Err(TranscriptError::InvalidMixingPoint);
            }
            let point = match canonical_table(point, "claim.mixing_point[") {
                Ok(point) => point,
                Err(error) => {
                    return Err(error);
                },
            };
            let equality = equality_evaluations(point.as_slice());
            let mut weighted: Vec<u64> = Vec::new();
            let mut i: usize = 0;
            while i < table.len()
                invariant
                    i <= table@.len(),
                    table@.len() == equality@.len(),
                    forall|k: int| 0 <= k < table@.len() ==> table@[k] < 97,
                    forall|k: int| 0 <= k < equality@.len() ==> equality@[k] < 97,
                    weighted@.len() == i,
                    forall|k: int|
                        0 <= k < i ==> weighted@[k] as nat == mul97(table@[k] as nat, equality@[k] as nat)
                            && weighted@[k] < 97,
                decreases table@.len() - i,
            {
                weighted.push(self::mul(table[i], equality[i]));
                i = i + 1;
            }
            proof {
                let evaluations = transcript.claim.oracle_evaluations@;
                let eq_spec = equality_table(point@);
                assert(as_nats(weighted@) =~= Seq::new(
                    evaluations.len(),
                    |k: int| mul97(evaluations[k] as nat, eq_spec[k]),
                ));
            }
            check_claim(transcript, weighted)
        },
    }
}

/// The line through `(0, g0)` and `(1, g1)` at `x` over F_97 is
/// `g0 + x·(g1 - g0)` reduced modulo 97.
proof fn lemma_fold97_is_line(g0: nat, g1: nat, x: nat)
    requires
        g0 < 97,
    ensures
        fold97(g0, g1, x) as int == (g0 as int + (x as int) * (g1 as int - g0 as int)) % 97,
{
    let d = 97 + g1 - g0;
    vstd::arithmetic::div_mod::lemma_mul_mod_noop_right(x as int, d as int, 97);
    vstd::arithmetic::div_mod::lemma_add_mod_noop_right(g0 as int, (x * d) as int, 97);
    assert(g0 as int + x * d == 97 * (x as int) + (g0 as int + (x as int) * (g1 as int - g0 as int)))
        by (nonlinear_arith)
        requires
            d == 97 + g1 - g0,
    ;
    vstd::arithmetic::div_mod::lemma_mod_multiples_vanish(
        x as int,
        g0 as int + (x as int) * (g1 as int - g0 as int),
        97,
    );
}

/// Replaying rounds that are all accepted ends in the last round's line at
/// its challenge, or in the starting claim when there are no rounds.
proof fn lemma_run_rounds_last(rounds: Seq<TranscriptRound>, claim: nat, count: nat)
    requires
        count <= rounds.len(),
        run_rounds(rounds, claim, count) is Ok,
    ensures
        count == 0 ==> run_rounds(rounds, claim, count) == Ok::<nat, TranscriptFailure>(claim),
        count > 0 ==> ({
            let last = rounds[count - 1];
            &&& last.g_at_zero < 97
            &&& run_rounds(rounds, claim, count) == Ok::<nat, TranscriptFailure>(
                fold97(last.g_at_zero as nat, last.g_at_one as nat, last.challenge as nat),
            )
        }),
{
}

/// An accepted transcript closes its rounds: the final oracle evaluation is
/// the last round polynomial `g0 + x·(g1 - g0)` at its challenge `x`, or,
/// with no rounds, the claimed sum itself. So a Sumcheck transcript over a
/// single evaluation is accepted only when its claimed sum is that
/// evaluation.
pub proof fn lemma_accepted_transcript_closes_rounds(t: EducationalTranscript)
    requires
        transcript_outcome(t) is Ok,
    ensures
        t.final_check.oracle_evaluation < 97,
        t.rounds@.len() == 0 ==> t.claim.claimed_sum == t.final_check.oracle_evaluation,
        t.rounds@.len() > 0 ==> ({
            let last = t.rounds@.last();
            t.final_check.oracle_evaluation as int == (last.g_at_zero as int + (last.challenge as int) * (
            last.g_at_one as int - last.g_at_zero as int)) % 97
        }),
        t.rounds@.len() == 0 && t.protocol == Protocol::Sumcheck ==> t.claim.oracle_evaluations@.len() == 1
            && t.claim.claimed_sum == t.claim.oracle_evaluations@[0],
{
    let n = t.rounds@.len();
    let claimed = t.claim.claimed_sum as nat;
    lemma_run_rounds_last(t.rounds@, claimed, n);
    if n > 0 {
        let last = t.rounds@.last();
        lemma_fold97_is_line(last.g_at_zero as nat, last.g_at_one as nat, last.challenge as nat);
    } else {
        let evaluations = t.claim.oracle_evaluations@;
        crate::arith::lemma_exact_log2_sound(evaluations.len());
        if t.protocol == Protocol::Sumcheck {
            assert(evaluations.len() == 1);
            assert(round_challenges(t.rounds@).len() == 0);
            assert(as_nats(evaluations)[0] == evaluations[0] as nat);
        }
    }
}

/// Every accepted round matches the claim before it and carries the
/// schedule's challenge.
proof fn lemma_run_rounds_each(rounds: Seq<TranscriptRound>, claim: nat, count: nat)
    requires
        count <= rounds.len(),
        run_rounds(rounds, claim, count) is Ok,
    ensures
        forall|i: int|
            #![trigger rounds[i]]
            0 <= i < count ==> {
                let previous = if i == 0 {
                    claim
                } else {
                    fold97(rounds[i - 1].g_at_zero as nat, rounds[i - 1].g_at_one as nat, rounds[i - 1].challenge as nat)
                };
                &&& rounds[i].round == i
                &&& rounds[i].g_at_zero < 97 && rounds[i].g_at_one < 97 && rounds[i].challenge < 97
                &&& (rounds[i].g_at_zero + rounds[i].g_at_one) % 97 == previous
                &&& rounds[i].challenge as int == (previous * 17 + rounds[i].g_at_zero * 31 + rounds[i].g_at_one * 43
                    + i * 13 + 7) % 97
            },
    decreases count,
{
    if count > 0 {
        let k = (count - 1) as nat;
        if run_rounds(rounds, claim, k) is Err {
            assert(run_rounds(rounds, claim, count) is Err);
        }
        lemma_run_rounds_each(rounds, claim, k);
        lemma_run_rounds_last(rounds, claim, k);
    }
}

/// An accepted transcript is consistent round by round: every round has its
/// position as index, its two values sum (mod 97) to the claim before it —
/// the claimed sum for the first round, the previous round's line at its
/// challenge after that — its challenge is the schedule's, the final point is
/// the list of challenges, and the final evaluation is the oracle table's
/// multilinear extension at that point.
pub proof fn lemma_accepted_transcript_rounds(t: EducationalTranscript)
    requires
        transcript_outcome(t) is Ok,
    ensures
        forall|i: int|
            #![trigger t.rounds@[i]]
            0 <= i < t.rounds@.len() ==> {
                let previous = if i == 0 {
                    t.claim.claimed_sum as int
                } else {
                    let p = t.rounds@[i - 1];
                    (p.g_at_zero as int + (p.challenge as int) * (p.g_at_one as int - p.g_at_zero as int)) % 97
                };
                &&& t.rounds@[i].round == i
                &&& (t.rounds@[i].g_at_zero + t.rounds@[i].g_at_one) % 97 == previous
                &&& t.rounds@[i].challenge as int == (previous * 17 + t.rounds@[i].g_at_zero * 31
                    + t.rounds@[i].g_at_one * 43 + i * 13 + 7) % 97
            },
        t.final_check.point@ == round_challenges(t.rounds@),
{
    let n = t.rounds@.len();
    let rounds = t.rounds@;
    let claimed = t.claim.claimed_sum as nat;
    lemma_run_rounds_each(rounds, claimed, n);
    assert forall|i: int| 0 < i < n implies #[trigger] rounds[i].round == i && fold97(
        rounds[i - 1].g_at_zero as nat,
        rounds[i - 1].g_at_one as nat,
        rounds[i - 1].challenge as nat,
    ) as int == (rounds[i - 1].g_at_zero as int + (rounds[i - 1].challenge as int) * (rounds[i - 1].g_at_one as int
        - rounds[i - 1].g_at_zero as int)) % 97 by {
        assert(rounds[i - 1].g_at_zero < 97);
        lemma_fold97_is_line(rounds[i - 1].g_at_zero as nat, rounds[i - 1].g_at_one as nat, rounds[i - 1].challenge as nat);
    }
}

/// An accepted transcript's final evaluation is the extension of its oracle
/// table at the final point: the plain table for Sumcheck (which carries no
/// mixing point), the table weighted by `eq(mixing point, ·)` for Zerocheck
/// (whose claimed sum is zero).
pub proof fn lemma_accepted_transcript_oracle(t: EducationalTranscript)
    requires
        transcript_outcome(t) is Ok,
    ensures
        t.protocol == Protocol::Sumcheck ==> t.claim.mixing_point is None
            && t.final_check.oracle_evaluation as nat == evaluate_table97(
            as_nats(t.claim.oracle_evaluations@),
            t.final_check.point@,
        ),
        t.protocol == Protocol::Zerocheck ==> t.claim.claimed_sum == 0 && (t.claim.mixing_point matches Some(point) && ({
            let evaluations = t.claim.oracle_evaluations@;
            let equality = equality_table(point@);
            t.final_check.oracle_evaluation as nat == evaluate_table97(
                Seq::new(evaluations.len(), |i: int| ((evaluations[i] as nat) * equality[i]) % 97),
                t.final_check.point@,
            )
        })),
{
    let evaluations = t.claim.oracle_evaluations@;
    if t.protocol == Protocol::Zerocheck {
        let point = t.claim.mixing_point->Some_0;
        let equality = equality_table(point@);
        assert(Seq::new(evaluations.len(), |i: int| mul97(evaluations[i] as nat, equality[i])) =~= Seq::new(
            evaluations.len(),
            |i: int| ((evaluations[i] as nat) * equality[i]) % 97,
        ));
    }
}

} // verus!
