//! Fiat–Shamir Sumcheck for transparent multilinear evaluation tables.
//!
//! Prover messages are bound to the transcript before each challenge is
//! derived.
use vstd::prelude::*;
use vstd::string::StringSliceAdditionalSpecFns;
use crate::arith::pow2;
use crate::field::{fadd, field_sum, fmul, fsub, le_nat, modulus, scalar_bytes, scalars_view, u64_le_bytes, Scalar};
use crate::multilinear::{evaluate_table, fold_pairs, Multilinear};
use crate::transcript::{
    challenge_entry, dom_sep_label, lemma_ascii_label, message_entry, modulus_le_bytes, ProofTranscript, TranscriptEntry,
};

verus! {

#[derive(Clone, Copy, Debug, PartialEq, Eq, Structural)]
pub struct RoundPolynomial {
    pub evaluation_at_zero: Scalar,
    pub evaluation_at_one: Scalar,
}

/// The line through `(0, g0)` and `(1, g1)` evaluated at `x`.
pub open spec fn line_at(g0: nat, g1: nat, x: nat) -> nat {
    fadd(g0, fmul(x, fsub(g1, g0)))
}

impl RoundPolynomial {
    pub open spec fn values(self) -> (nat, nat) {
        (self.evaluation_at_zero@, self.evaluation_at_one@)
    }

    pub fn evaluate(&self, point: Scalar) -> (r: Scalar)
        ensures
            r@ == line_at(self.evaluation_at_zero@, self.evaluation_at_one@, point@),
    {
        let difference = self.evaluation_at_one.sub(&self.evaluation_at_zero);
        self.evaluation_at_zero.add(&point.mul(&difference))
    }
}

#[derive(Clone, Debug, PartialEq, Eq)]
pub struct Proof {
    pub round_polynomials: Vec<RoundPolynomial>,
    pub final_evaluation: Scalar,
}

#[derive(Clone, Copy, Debug, PartialEq, Eq, Structural)]
pub enum VerifyError {
    WrongRoundCount,
    RoundDoesNotMatchClaim { round: usize },
    FinalEvaluationMismatch,
}

pub open spec fn messages_view(rounds: Seq<RoundPolynomial>) -> Seq<(nat, nat)> {
    rounds.map_values(|round: RoundPolynomial| round.values())
}

/// Messages appending each value under one label.
pub open spec fn field_entries(label: Seq<u8>, values: Seq<nat>) -> Seq<TranscriptEntry> {
    Seq::new(values.len(), |i: int| message_entry(label, scalar_bytes(values[i])))
}

/// What binding the Sumcheck statement appends to a transcript.
pub open spec fn statement_entries(table: Seq<nat>, variables: nat, claimed_sum: nat) -> Seq<TranscriptEntry> {
    seq![
        message_entry(dom_sep_label(), "snark-lab/sumcheck/v1".spec_bytes()),
        message_entry("field-modulus".spec_bytes(), modulus_le_bytes()),
        message_entry("num-variables".spec_bytes(), u64_le_bytes(variables as u64)),
        message_entry("claimed-sum".spec_bytes(), scalar_bytes(claimed_sum)),
        message_entry("oracle-length".spec_bytes(), u64_le_bytes(table.len() as u64)),
    ] + field_entries("oracle-evaluation".spec_bytes(), table)
}

/// What appending round message `round` appends.
pub open spec fn round_entries(round: nat, message: (nat, nat)) -> Seq<TranscriptEntry> {
    seq![
        message_entry("round-index".spec_bytes(), u64_le_bytes(round as u64)),
        message_entry("round-evaluation-0".spec_bytes(), scalar_bytes(message.0)),
        message_entry("round-evaluation-1".spec_bytes(), scalar_bytes(message.1)),
    ]
}

/// The field element a transcript yields for the round challenge after `entries`.
pub open spec fn round_challenge<T: ProofTranscript>(entries: Seq<TranscriptEntry>) -> nat {
    le_nat(T::challenge_output(entries, "round-challenge".spec_bytes())) % modulus()
}

/// The transcript after drawing the round challenge.
pub open spec fn after_round_challenge<T: ProofTranscript>(entries: Seq<TranscriptEntry>) -> Seq<TranscriptEntry> {
    entries.push(
        challenge_entry(
            "round-challenge".spec_bytes(),
            T::challenge_output(entries, "round-challenge".spec_bytes()),
        ),
    )
}

/// The transcript and challenges after absorbing the first `count` round
/// messages, each followed by its challenge.
pub open spec fn absorb_rounds<T: ProofTranscript>(
    entries: Seq<TranscriptEntry>,
    messages: Seq<(nat, nat)>,
    count: nat,
) -> (Seq<TranscriptEntry>, Seq<nat>)
    decreases count,
{
    if count == 0 {
        (entries, seq![])
    } else {
        let (previous, challenges) = absorb_rounds::<T>(entries, messages, (count - 1) as nat);
        let bound = previous + round_entries((count - 1) as nat, messages[count - 1]);
        (after_round_challenge::<T>(bound), challenges.push(round_challenge::<T>(bound)))
    }
}

/// The field sum of the entries at even positions.
pub open spec fn sum_even(table: Seq<nat>) -> nat {
    field_sum(Seq::new(table.len() / 2, |i: int| table[2 * i]))
}

/// The field sum of the entries at odd positions.
pub open spec fn sum_odd(table: Seq<nat>) -> nat {
    field_sum(Seq::new(table.len() / 2, |i: int| table[2 * i + 1]))
}

/// The honest prover after `count` rounds: its transcript, its folded table,
/// its messages and the challenges it drew.
pub open spec fn prover_rounds<T: ProofTranscript>(
    entries: Seq<TranscriptEntry>,
    table: Seq<nat>,
    count: nat,
) -> (Seq<TranscriptEntry>, Seq<nat>, Seq<(nat, nat)>, Seq<nat>)
    decreases count,
{
    if count == 0 {
        (entries, table, seq![], seq![])
    } else {
        let (previous, folded, messages, challenges) = prover_rounds::<T>(entries, table, (count - 1) as nat);
        let message = (sum_even(folded), sum_odd(folded));
        let bound = previous + round_entries((count - 1) as nat, message);
        let challenge = round_challenge::<T>(bound);
        (
            after_round_challenge::<T>(bound),
            fold_pairs(folded, challenge),
            messages.push(message),
            challenges.push(challenge),
        )
    }
}

/// The running claim after checking the first `count` round messages, or the
/// first round whose message does not sum to the claim.
pub open spec fn check_rounds(
    claimed_sum: nat,
    messages: Seq<(nat, nat)>,
    challenges: Seq<nat>,
    count: nat,
) -> Result<nat, VerifyError>
    decreases count,
{
    if count == 0 {
        Ok(claimed_sum)
    } else {
        match check_rounds(claimed_sum, messages, challenges, (count - 1) as nat) {
            Err(error) => Err(error),
            Ok(claim) => {
                let message = messages[count - 1];
                if fadd(message.0, message.1) != claim {
                    Err(VerifyError::RoundDoesNotMatchClaim { round: (count - 1) as usize })
                } else {
                    Ok(line_at(message.0, message.1, challenges[count - 1]))
                }
            },
        }
    }
}

/// Absorbing `count` rounds draws `count` challenges.
pub proof fn lemma_absorb_rounds_len<T: ProofTranscript>(
    entries: Seq<TranscriptEntry>,
    messages: Seq<(nat, nat)>,
    count: nat,
)
    ensures
        absorb_rounds::<T>(entries, messages, count).1.len() == count,
    decreases count,
{
    if count > 0 {
        lemma_absorb_rounds_len::<T>(entries, messages, (count - 1) as nat);
    }
}

/// Once a round is rejected, every later round count reports that rejection.
pub proof fn lemma_check_rounds_stays_rejected(
    claimed_sum: nat,
    messages: Seq<(nat, nat)>,
    challenges: Seq<nat>,
    rejected: nat,
    count: nat,
)
    requires
        rejected <= count,
        check_rounds(claimed_sum, messages, challenges, rejected) is Err,
    ensures
        check_rounds(claimed_sum, messages, challenges, count) == check_rounds(
            claimed_sum,
            messages,
            challenges,
            rejected,
        ),
    decreases count,
{
    if rejected < count {
        lemma_check_rounds_stays_rejected(claimed_sum, messages, challenges, rejected, (count - 1) as nat);
    }
}

/// The verifier's verdict given the challenges derived from the transcript.
pub open spec fn verify_outcome(
    table: Seq<nat>,
    claimed_sum: nat,
    messages: Seq<(nat, nat)>,
    final_evaluation: nat,
    challenges: Seq<nat>,
) -> Result<(), VerifyError> {
    match check_rounds(claimed_sum, messages, challenges, messages.len()) {
        Err(error) => Err(error),
        Ok(claim) => {
            if claim != final_evaluation || evaluate_table(table, challenges) != final_evaluation {
                Err(VerifyError::FinalEvaluationMismatch)
            } else {
                Ok(())
            }
        },
    }
}

/// Appends each scalar of a table under one label.
pub fn append_field_elements<T: ProofTranscript>(transcript: &mut T, label: &'static str, values: &[Scalar])
    ensures
        final(transcript).entries() == old(transcript).entries() + field_entries(
            label.spec_bytes(),
            scalars_view(values@),
        ),
{
    let mut i: usize = 0;
    while i < values.len()
        invariant
            i <= values@.len(),
            transcript.entries() == old(transcript).entries() + field_entries(
                label.spec_bytes(),
                scalars_view(values@.take(i as int)),
            ),
        decreases values@.len() - i,
    {
        transcript.append_field_element(label, &values[i]);
        i = i + 1;
        assert(field_entries(label.spec_bytes(), scalars_view(values@.take(i as int))) =~= field_entries(
            label.spec_bytes(),
            scalars_view(values@.take(i - 1)),
        ).push(message_entry(label.spec_bytes(), scalar_bytes(values@[i - 1]@))));
    }
    assert(values@.take(i as int) =~= values@);
}

fn bind_statement<T: ProofTranscript>(transcript: &mut T, polynomial: &Multilinear, claimed_sum: Scalar)
    ensures
        final(transcript).entries() == old(transcript).entries() + statement_entries(
            polynomial@,
            polynomial.num_variables(),
            claimed_sum@,
        ),
{
    proof {
        reveal_strlit("snark-lab/sumcheck/v1");
        lemma_ascii_label("snark-lab/sumcheck/v1");
    }
    transcript.append_domain_separator("snark-lab/sumcheck/v1");
    transcript.append_field_modulus();
    transcript.append_u64("num-variables", polynomial.variables() as u64);
    transcript.append_field_element("claimed-sum", &claimed_sum);
    let evaluations = polynomial.evaluations();
    transcript.append_u64("oracle-length", evaluations.len() as u64);
    append_field_elements(transcript, "oracle-evaluation", evaluations);
    assert(final(transcript).entries() =~= old(transcript).entries() + statement_entries(
        polynomial@,
        polynomial.num_variables(),
        claimed_sum@,
    ));
}

pub(crate) fn append_round<T: ProofTranscript>(transcript: &mut T, round: usize, polynomial: &RoundPolynomial)
    ensures
        final(transcript).entries() == old(transcript).entries() + round_entries(round as nat, polynomial.values()),
{
    transcript.append_u64("round-index", round as u64);
    transcript.append_field_element("round-evaluation-0", &polynomial.evaluation_at_zero);
    transcript.append_field_element("round-evaluation-1", &polynomial.evaluation_at_one);
    assert(final(transcript).entries() =~= old(transcript).entries() + round_entries(
        round as nat,
        polynomial.values(),
    ));
}

/// The sums of the even-position and odd-position entries.
pub fn half_sums(values: &[Scalar]) -> (r: RoundPolynomial)
    ensures
        r.evaluation_at_zero@ == sum_even(scalars_view(values@)),
        r.evaluation_at_one@ == sum_odd(scalars_view(values@)),
{
    let ghost table = scalars_view(values@);
    let half = values.len() / 2;
    let mut even = Scalar::zero();
    let mut odd = Scalar::zero();
    let mut i: usize = 0;
    let length = values.len();
    while i < half
        invariant
            i <= half,
            length == values@.len(),
            half == length / 2,
            table == scalars_view(values@),
            even@ == field_sum(Seq::new(table.len() / 2, |k: int| table[2 * k]).take(i as int)),
            odd@ == field_sum(Seq::new(table.len() / 2, |k: int| table[2 * k + 1]).take(i as int)),
        decreases half - i,
    {
        proof {
            let evens = Seq::new(table.len() / 2, |k: int| table[2 * k]);
            let odds = Seq::new(table.len() / 2, |k: int| table[2 * k + 1]);
            assert(evens.take(i + 1).drop_last() =~= evens.take(i as int));
            assert(odds.take(i + 1).drop_last() =~= odds.take(i as int));
        }
        assert(2 * i + 1 < length);
        even = even.add(&values[2 * i]);
        odd = odd.add(&values[2 * i + 1]);
        i = i + 1;
    }
    proof {
        let evens = Seq::new(table.len() / 2, |k: int| table[2 * k]);
        let odds = Seq::new(table.len() / 2, |k: int| table[2 * k + 1]);
        assert(evens.take(i as int) =~= evens);
        assert(odds.take(i as int) =~= odds);
    }
    RoundPolynomial { evaluation_at_zero: even, evaluation_at_one: odd }
}

/// Runs the prover's rounds on `polynomial` from the current transcript state:
/// its messages, its final folded value and its challenges.
pub(crate) fn run_prover_rounds<T: ProofTranscript>(polynomial: &Multilinear, transcript: &mut T) -> (r: (
    Vec<RoundPolynomial>,
    Scalar,
    Vec<Scalar>,
))
    ensures
        ({
            let (entries, table, messages, challenges) = prover_rounds::<T>(
                old(transcript).entries(),
                polynomial@,
                polynomial.num_variables(),
            );
            &&& final(transcript).entries() == entries
            &&& messages_view(r.0@) == messages
            &&& r.1@ == table[0]
            &&& scalars_view(r.2@) == challenges
        }),
{
    let ghost bound = transcript.entries();
    let variables = polynomial.variables();
    let mut folded = polynomial.clone();
    let mut round_polynomials: Vec<RoundPolynomial> = Vec::new();
    let mut challenges: Vec<Scalar> = Vec::new();
    let mut round: usize = 0;
    while round < variables
        invariant
            round <= variables,
            variables == polynomial.num_variables(),
            folded.num_variables() == variables - round,
            ({
                let (entries, table, messages, drawn) = prover_rounds::<T>(bound, polynomial@, round as nat);
                &&& transcript.entries() == entries
                &&& folded@ == table
                &&& messages_view(round_polynomials@) == messages
                &&& scalars_view(challenges@) == drawn
            }),
        decreases variables - round,
    {
        let message = half_sums(folded.evaluations());
        append_round(transcript, round, &message);
        let challenge = transcript.challenge_scalar("round-challenge");
        folded = folded.fold_first(challenge);
        round_polynomials.push(message);
        challenges.push(challenge);
        proof {
            let next = prover_rounds::<T>(bound, polynomial@, (round + 1) as nat);
            assert(messages_view(round_polynomials@) =~= next.2);
            assert(scalars_view(challenges@) =~= next.3);
        }
        round = round + 1;
    }
    let final_evaluation = folded.evaluations()[0];
    (round_polynomials, final_evaluation, challenges)
}

/// Proves that the evaluations of `polynomial` sum to `claimed_sum`.
pub fn prove<T: ProofTranscript>(polynomial: &Multilinear, claimed_sum: Scalar, transcript: &mut T) -> (r: Proof)
    ensures
        ({
            let bound = old(transcript).entries() + statement_entries(
                polynomial@,
                polynomial.num_variables(),
                claimed_sum@,
            );
            let (entries, table, messages, _challenges) = prover_rounds::<T>(
                bound,
                polynomial@,
                polynomial.num_variables(),
            );
            &&& final(transcript).entries() == entries
            &&& messages_view(r.round_polynomials@) == messages
            &&& r.final_evaluation@ == table[0]
        }),
{
    bind_statement(transcript, polynomial, claimed_sum);
    let (round_polynomials, final_evaluation, _challenges) = run_prover_rounds(polynomial, transcript);
    Proof { round_polynomials, final_evaluation }
}

/// Derives the verifier challenges from the statement and proof messages.
pub fn derive_challenges<T: ProofTranscript>(
    polynomial: &Multilinear,
    claimed_sum: Scalar,
    proof: &Proof,
    transcript: &mut T,
) -> (r: Vec<Scalar>)
    ensures
        ({
            let bound = old(transcript).entries() + statement_entries(
                polynomial@,
                polynomial.num_variables(),
                claimed_sum@,
            );
            let messages = messages_view(proof.round_polynomials@);
            let (entries, challenges) = absorb_rounds::<T>(bound, messages, messages.len());
            &&& final(transcript).entries() == entries
            &&& scalars_view(r@) == challenges
        }),
{
    bind_statement(transcript, polynomial, claimed_sum);
    let ghost bound = transcript.entries();
    let ghost messages = messages_view(proof.round_polynomials@);
    let mut challenges: Vec<Scalar> = Vec::new();
    let mut round: usize = 0;
    while round < proof.round_polynomials.len()
        invariant
            round <= proof.round_polynomials@.len(),
            messages == messages_view(proof.round_polynomials@),
            ({
                let (entries, derived) = absorb_rounds::<T>(bound, messages, round as nat);
                &&& transcript.entries() == entries
                &&& scalars_view(challenges@) == derived
            }),
        decreases proof.round_polynomials@.len() - round,
    {
        append_round(transcript, round, &proof.round_polynomials[round]);
        let challenge = transcript.challenge_scalar("round-challenge");
        challenges.push(challenge);
        proof {
            assert(scalars_view(challenges@) =~= absorb_rounds::<T>(bound, messages, (round + 1) as nat).1);
        }
        round = round + 1;
    }
    challenges
}

/// Checks each round message against the running claim and folds the claim
/// at the round's challenge.
fn check_messages(claimed_sum: Scalar, rounds: &[RoundPolynomial], challenges: &[Scalar]) -> (r: Result<
    Scalar,
    VerifyError,
>)
    requires
        challenges@.len() == rounds@.len(),
    ensures
        match check_rounds(claimed_sum@, messages_view(rounds@), scalars_view(challenges@), rounds@.len()) {
            Ok(claim) => r matches Ok(value) && value@ == claim,
            Err(error) => r == Err::<Scalar, VerifyError>(error),
        },
{
    let ghost messages = messages_view(rounds@);
    let ghost derived = scalars_view(challenges@);
    let mut claim = claimed_sum;
    let mut round: usize = 0;
    while round < rounds.len()
        invariant
            round <= rounds@.len(),
            challenges@.len() == rounds@.len(),
            messages == messages_view(rounds@),
            derived == scalars_view(challenges@),
            check_rounds(claimed_sum@, messages, derived, round as nat) == Ok::<nat, VerifyError>(claim@),
        decreases rounds@.len() - round,
    {
        let message = &rounds[round];
        assert(messages[round as int] == message.values());
        let total = message.evaluation_at_zero.add(&message.evaluation_at_one);
        if !total.equals(&claim) {
            proof {
                lemma_check_rounds_stays_rejected(
                    claimed_sum@,
                    messages,
                    derived,
                    (round + 1) as nat,
                    messages.len(),
                );
            }
            return Err(VerifyError::RoundDoesNotMatchClaim { round });
        }
        claim = message.evaluate(challenges[round]);
        round = round + 1;
    }
    Ok(claim)
}

/// What a verification result says, with the challenges left out.
pub open spec fn verdict(result: Result<Vec<Scalar>, VerifyError>) -> Result<(), VerifyError> {
    match result {
        Ok(_) => Ok(()),
        Err(error) => Err(error),
    }
}

/// Checks a Sumcheck proof against the transparent table and returns the
/// derived challenges.
#[verifier::rlimit(40)]
pub fn verify<T: ProofTranscript>(
    polynomial: &Multilinear,
    claimed_sum: Scalar,
    proof: &Proof,
    transcript: &mut T,
) -> (r: Result<Vec<Scalar>, VerifyError>)
    ensures
        proof.round_polynomials@.len() != polynomial.num_variables() ==> r == Err::<Vec<Scalar>, VerifyError>(
            VerifyError::WrongRoundCount,
        ) && final(transcript).entries() == old(transcript).entries(),
        proof.round_polynomials@.len() == polynomial.num_variables() ==> ({
            let bound = old(transcript).entries() + statement_entries(
                polynomial@,
                polynomial.num_variables(),
                claimed_sum@,
            );
            let messages = messages_view(proof.round_polynomials@);
            let (entries, challenges) = absorb_rounds::<T>(bound, messages, messages.len());
            &&& final(transcript).entries() == entries
            &&& verdict(r) == verify_outcome(
                polynomial@,
                claimed_sum@,
                messages,
                proof.final_evaluation@,
                challenges,
            )
            &&& r matches Ok(derived) ==> scalars_view(derived@) == challenges
        }),
{
    if proof.round_polynomials.len() != polynomial.variables() {
        return Err(VerifyError::WrongRoundCount);
    }
    let challenges = derive_challenges(polynomial, claimed_sum, proof, transcript);
    proof {
        lemma_absorb_rounds_len::<T>(
            old(transcript).entries() + statement_entries(polynomial@, polynomial.num_variables(), claimed_sum@),
            messages_view(proof.round_polynomials@),
            proof.round_polynomials@.len(),
        );
    }
    let claim = match check_messages(claimed_sum, proof.round_polynomials.as_slice(), challenges.as_slice()) {
        Ok(claim) => claim,
        Err(error) => {
            return Err(error);
        },
    };
    let evaluation = polynomial.evaluate(challenges.as_slice());
    let matches_table = match evaluation {
        Ok(value) => value.equals(&proof.final_evaluation),
        Err(_) => false,
    };
    if !claim.equals(&proof.final_evaluation) || !matches_table {
        return Err(VerifyError::FinalEvaluationMismatch);
    }
    Ok(challenges)
}

} // verus!
