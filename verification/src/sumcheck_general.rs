//! Sumcheck over any polynomial that can produce its round polynomials and
//! evaluate itself, with round messages in dense coefficient form.
use vstd::prelude::*;
use vstd::string::StringSliceAdditionalSpecFns;
use crate::arith::pow2;
use crate::field::{fadd, field_sum, fmul, fsub, le_nat, modulus, scalar_bytes, scalars_view, u64_le_bytes, Scalar};
use crate::field_laws::{lemma_canonical, lemma_field_sum_canonical, lemma_line, lemma_ops_canonical};
use crate::multilinear::{all_canonical, evaluate_table, lemma_scalars_canonical, Multilinear};
use crate::sumcheck::{
    after_round_challenge, append_field_elements, field_entries, half_sums, round_challenge, sum_even, sum_odd,
};
use crate::sumcheck_laws::{
    fold_point, lemma_evaluate_is_fold_point, lemma_fold_pairs_canonical, lemma_fold_point_push, lemma_sum_fold,
    lemma_sum_splits,
};
use crate::sumcheck_round::{boolean_sum_of, horner, poly_degree, DenseRoundPolynomial};
use crate::transcript::{
    dom_sep_label, lemma_ascii_label, message_entry, modulus_le_bytes, ProofTranscript, TranscriptEntry,
};

verus! {

#[derive(Clone, Copy, Debug, PartialEq, Eq, Structural)]
pub enum GeneralVerifyError {
    WrongRoundCount,
    RoundDegreeTooHigh { round: usize, degree: usize, max_degree: usize },
    RoundDoesNotMatchClaim { round: usize },
    FinalEvaluationMismatch,
    InvalidEvaluationPoint,
}

/// A polynomial the general Sumcheck can run on.
pub trait SumcheckPolynomial: Sized {
    spec fn num_variables(&self) -> nat;

    spec fn degree_bound(&self) -> nat;

    /// What binding the polynomial's own statement appends.
    spec fn statement_entries(&self) -> Seq<TranscriptEntry>;

    /// The coefficients of the round polynomial after fixing the first
    /// variables to `prefix`.
    spec fn round_message(&self, prefix: Seq<nat>, round: nat) -> Seq<nat>;

    /// The polynomial's value at `point`, or why it cannot be evaluated there.
    spec fn evaluation(&self, point: Seq<nat>) -> Result<nat, GeneralVerifyError>;

    fn variables(&self) -> (r: usize)
        ensures
            r == self.num_variables(),
    ;

    fn max_individual_degree(&self) -> (r: usize)
        ensures
            r == self.degree_bound(),
    ;

    fn bind_statement<T: ProofTranscript>(&self, transcript: &mut T)
        ensures
            final(transcript).entries() == old(transcript).entries() + self.statement_entries(),
    ;

    fn round_polynomial(&self, prefix_challenges: &[Scalar], round: usize) -> (r: DenseRoundPolynomial)
        requires
            prefix_challenges@.len() <= self.num_variables(),
        ensures
            r@ == self.round_message(scalars_view(prefix_challenges@), round as nat),
    ;

    fn evaluate_at(&self, point: &[Scalar]) -> (r: Result<Scalar, GeneralVerifyError>)
        ensures
            match r {
                Ok(value) => self.evaluation(scalars_view(point@)) == Ok::<nat, GeneralVerifyError>(value@),
                Err(error) => self.evaluation(scalars_view(point@)) == Err::<nat, GeneralVerifyError>(error),
            },
    ;
}

#[derive(Clone, Debug, PartialEq, Eq)]
pub struct GeneralProof {
    pub round_polynomials: Vec<DenseRoundPolynomial>,
    pub final_evaluation: Scalar,
}

/// The coefficient sequences of the round messages.
pub open spec fn dense_messages_view(rounds: Seq<DenseRoundPolynomial>) -> Seq<Seq<nat>> {
    rounds.map_values(|round: DenseRoundPolynomial| round@)
}

/// What binding the general Sumcheck statement appends to a transcript.
pub open spec fn general_statement_entries<P: SumcheckPolynomial>(polynomial: P, claimed_sum: nat) -> Seq<
    TranscriptEntry,
> {
    seq![
        message_entry(dom_sep_label(), "snark-lab/sumcheck-general/v1".spec_bytes()),
        message_entry("field-modulus".spec_bytes(), modulus_le_bytes()),
        message_entry("num-variables".spec_bytes(), u64_le_bytes(polynomial.num_variables() as u64)),
        message_entry("max-individual-degree".spec_bytes(), u64_le_bytes(polynomial.degree_bound() as u64)),
        message_entry("claimed-sum".spec_bytes(), scalar_bytes(claimed_sum)),
    ] + polynomial.statement_entries()
}

/// What appending a dense round message appends.
pub open spec fn dense_round_entries(round: nat, coefficients: Seq<nat>) -> Seq<TranscriptEntry> {
    seq![
        message_entry("round-index".spec_bytes(), u64_le_bytes(round as u64)),
        message_entry("round-degree".spec_bytes(), u64_le_bytes(poly_degree(coefficients) as u64)),
        message_entry("round-coefficients".spec_bytes(), u64_le_bytes(coefficients.len() as u64)),
    ] + field_entries("round-coefficient".spec_bytes(), coefficients)
}

/// The transcript and challenges after absorbing the first `count` dense
/// round messages, each followed by its challenge.
pub open spec fn general_absorb_rounds<T: ProofTranscript>(
    entries: Seq<TranscriptEntry>,
    messages: Seq<Seq<nat>>,
    count: nat,
) -> (Seq<TranscriptEntry>, Seq<nat>)
    decreases count,
{
    if count == 0 {
        (entries, seq![])
    } else {
        let (previous, challenges) = general_absorb_rounds::<T>(entries, messages, (count - 1) as nat);
        let bound = previous + dense_round_entries((count - 1) as nat, messages[count - 1]);
        (after_round_challenge::<T>(bound), challenges.push(round_challenge::<T>(bound)))
    }
}

/// The honest prover after `count` rounds: its transcript, its messages and
/// the challenges it drew.
pub open spec fn general_prover_rounds<T: ProofTranscript, P: SumcheckPolynomial>(
    polynomial: P,
    entries: Seq<TranscriptEntry>,
    count: nat,
) -> (Seq<TranscriptEntry>, Seq<Seq<nat>>, Seq<nat>)
    decreases count,
{
    if count == 0 {
        (entries, seq![], seq![])
    } else {
        let (previous, messages, challenges) = general_prover_rounds::<T, P>(polynomial, entries, (count - 1) as nat);
        let message = polynomial.round_message(challenges, (count - 1) as nat);
        let bound = previous + dense_round_entries((count - 1) as nat, message);
        (after_round_challenge::<T>(bound), messages.push(message), challenges.push(round_challenge::<T>(bound)))
    }
}

/// The running claim after checking the first `count` round messages, or the
/// first round whose message is too high in degree or does not sum to the
/// claim.
pub open spec fn general_check_rounds(
    degree_bound: nat,
    claimed_sum: nat,
    messages: Seq<Seq<nat>>,
    challenges: Seq<nat>,
    count: nat,
) -> Result<nat, GeneralVerifyError>
    decreases count,
{
    if count == 0 {
        Ok(claimed_sum)
    } else {
        match general_check_rounds(degree_bound, claimed_sum, messages, challenges, (count - 1) as nat) {
            Err(error) => Err(error),
            Ok(claim) => {
                let round = (count - 1) as nat;
                let message = messages[round as int];
                if poly_degree(message) > degree_bound {
                    Err(
                        GeneralVerifyError::RoundDegreeTooHigh {
                            round: round as usize,
                            degree: poly_degree(message) as usize,
                            max_degree: degree_bound as usize,
                        },
                    )
                } else if boolean_sum_of(message) != claim {
                    Err(GeneralVerifyError::RoundDoesNotMatchClaim { round: round as usize })
                } else {
                    Ok(horner(message, challenges[round as int]))
                }
            },
        }
    }
}

/// The general verifier's verdict given the challenges derived from the
/// transcript.
pub open spec fn general_verdict<P: SumcheckPolynomial>(
    polynomial: P,
    claimed_sum: nat,
    messages: Seq<Seq<nat>>,
    final_evaluation: nat,
    challenges: Seq<nat>,
) -> Result<(), GeneralVerifyError> {
    match general_check_rounds(polynomial.degree_bound(), claimed_sum, messages, challenges, messages.len()) {
        Err(error) => Err(error),
        Ok(claim) => match polynomial.evaluation(challenges) {
            Err(error) => Err(error),
            Ok(value) => if claim != final_evaluation || value != final_evaluation {
                Err(GeneralVerifyError::FinalEvaluationMismatch)
            } else {
                Ok(())
            },
        },
    }
}

/// Absorbing `count` rounds draws `count` challenges, and fewer rounds draw a
/// prefix of them.
pub proof fn lemma_general_absorb_prefix<T: ProofTranscript>(
    entries: Seq<TranscriptEntry>,
    messages: Seq<Seq<nat>>,
    shorter: nat,
    count: nat,
)
    requires
        shorter <= count,
    ensures
        general_absorb_rounds::<T>(entries, messages, count).1.len() == count,
        general_absorb_rounds::<T>(entries, messages, count).1.take(shorter as int) == general_absorb_rounds::<T>(
            entries,
            messages,
            shorter,
        ).1,
    decreases count,
{
    if count > 0 {
        let k = (count - 1) as nat;
        if shorter == count {
            lemma_general_absorb_prefix::<T>(entries, messages, k, k);
            assert(general_absorb_rounds::<T>(entries, messages, count).1.take(count as int) =~= general_absorb_rounds::<
                T,
            >(entries, messages, count).1);
        } else {
            lemma_general_absorb_prefix::<T>(entries, messages, shorter, k);
            let previous = general_absorb_rounds::<T>(entries, messages, k).1;
            let current = general_absorb_rounds::<T>(entries, messages, count).1;
            assert(current.take(shorter as int) =~= previous.take(shorter as int));
        }
    }
}

/// Once a round is rejected, every later round count reports that rejection.
pub proof fn lemma_general_check_stays_rejected(
    degree_bound: nat,
    claimed_sum: nat,
    messages: Seq<Seq<nat>>,
    challenges: Seq<nat>,
    rejected: nat,
    count: nat,
)
    requires
        rejected <= count,
        general_check_rounds(degree_bound, claimed_sum, messages, challenges, rejected) is Err,
    ensures
        general_check_rounds(degree_bound, claimed_sum, messages, challenges, count) == general_check_rounds(
            degree_bound,
            claimed_sum,
            messages,
            challenges,
            rejected,
        ),
    decreases count,
{
    if rejected < count {
        lemma_general_check_stays_rejected(
            degree_bound,
            claimed_sum,
            messages,
            challenges,
            rejected,
            (count - 1) as nat,
        );
    }
}

/// The running claim after `count` rounds reads only the first `count`
/// challenges.
pub proof fn lemma_general_check_reads_prefix(
    degree_bound: nat,
    claimed_sum: nat,
    messages: Seq<Seq<nat>>,
    first: Seq<nat>,
    second: Seq<nat>,
    count: nat,
)
    requires
        count <= first.len(),
        count <= second.len(),
        first.take(count as int) == second.take(count as int),
    ensures
        general_check_rounds(degree_bound, claimed_sum, messages, first, count) == general_check_rounds(
            degree_bound,
            claimed_sum,
            messages,
            second,
            count,
        ),
    decreases count,
{
    if count > 0 {
        assert(first.take(count - 1) =~= first.take(count as int).take(count - 1));
        assert(second.take(count - 1) =~= second.take(count as int).take(count - 1));
        assert(first[count - 1] == first.take(count as int)[count - 1]);
        assert(second[count - 1] == second.take(count as int)[count - 1]);
        lemma_general_check_reads_prefix(degree_bound, claimed_sum, messages, first, second, (count - 1) as nat);
    }
}

fn bind_general_statement<T: ProofTranscript, P: SumcheckPolynomial>(
    polynomial: &P,
    claimed_sum: Scalar,
    transcript: &mut T,
)
    ensures
        final(transcript).entries() == old(transcript).entries() + general_statement_entries(
            *polynomial,
            claimed_sum@,
        ),
{
    proof {
        reveal_strlit("snark-lab/sumcheck-general/v1");
        lemma_ascii_label("snark-lab/sumcheck-general/v1");
    }
    transcript.append_domain_separator("snark-lab/sumcheck-general/v1");
    transcript.append_field_modulus();
    transcript.append_u64("num-variables", polynomial.variables() as u64);
    transcript.append_u64("max-individual-degree", polynomial.max_individual_degree() as u64);
    transcript.append_field_element("claimed-sum", &claimed_sum);
    polynomial.bind_statement(transcript);
    assert(final(transcript).entries() =~= old(transcript).entries() + general_statement_entries(
        *polynomial,
        claimed_sum@,
    ));
}

fn append_dense_round<T: ProofTranscript>(transcript: &mut T, round: usize, polynomial: &DenseRoundPolynomial)
    ensures
        final(transcript).entries() == old(transcript).entries() + dense_round_entries(round as nat, polynomial@),
{
    transcript.append_u64("round-index", round as u64);
    transcript.append_u64("round-degree", polynomial.degree() as u64);
    transcript.append_u64("round-coefficients", polynomial.coefficients.len() as u64);
    append_field_elements(transcript, "round-coefficient", polynomial.coefficients.as_slice());
    assert(final(transcript).entries() =~= old(transcript).entries() + dense_round_entries(
        round as nat,
        polynomial@,
    ));
}

/// Proves that `polynomial` sums to `claimed_sum` over the Boolean cube.
pub fn prove_general<T: ProofTranscript, P: SumcheckPolynomial>(
    polynomial: &P,
    claimed_sum: Scalar,
    transcript: &mut T,
) -> (r: Result<GeneralProof, GeneralVerifyError>)
    ensures
        ({
            let bound = old(transcript).entries() + general_statement_entries(*polynomial, claimed_sum@);
            let (entries, messages, challenges) = general_prover_rounds::<T, P>(
                *polynomial,
                bound,
                polynomial.num_variables(),
            );
            &&& final(transcript).entries() == entries
            &&& match polynomial.evaluation(challenges) {
                Ok(value) => r matches Ok(proof) && dense_messages_view(proof.round_polynomials@) == messages
                    && proof.final_evaluation@ == value,
                Err(error) => r == Err::<GeneralProof, GeneralVerifyError>(error),
            }
        }),
{
    bind_general_statement(polynomial, claimed_sum, transcript);
    let ghost bound = transcript.entries();
    let variables = polynomial.variables();
    let mut challenges: Vec<Scalar> = Vec::new();
    let mut round_polynomials: Vec<DenseRoundPolynomial> = Vec::new();
    let mut round: usize = 0;
    while round < variables
        invariant
            round <= variables,
            variables == polynomial.num_variables(),
            ({
                let (entries, messages, drawn) = general_prover_rounds::<T, P>(*polynomial, bound, round as nat);
                &&& transcript.entries() == entries
                &&& dense_messages_view(round_polynomials@) == messages
                &&& scalars_view(challenges@) == drawn
            }),
            challenges@.len() == round,
        decreases variables - round,
    {
        let round_polynomial = polynomial.round_polynomial(challenges.as_slice(), round);
        append_dense_round(transcript, round, &round_polynomial);
        let challenge = transcript.challenge_scalar("round-challenge");
        challenges.push(challenge);
        round_polynomials.push(round_polynomial);
        proof {
            let next = general_prover_rounds::<T, P>(*polynomial, bound, (round + 1) as nat);
            assert(dense_messages_view(round_polynomials@) =~= next.1);
            assert(scalars_view(challenges@) =~= next.2);
        }
        round = round + 1;
    }
    let final_evaluation = match polynomial.evaluate_at(challenges.as_slice()) {
        Ok(value) => value,
        Err(error) => {
            return Err(error);
        },
    };
    Ok(GeneralProof { round_polynomials, final_evaluation })
}

/// Checks a general Sumcheck proof and returns the derived challenges.
#[verifier::rlimit(40)]
pub fn verify_general<T: ProofTranscript, P: SumcheckPolynomial>(
    polynomial: &P,
    claimed_sum: Scalar,
    proof: &GeneralProof,
    transcript: &mut T,
) -> (r: Result<Vec<Scalar>, GeneralVerifyError>)
    ensures
        proof.round_polynomials@.len() != polynomial.num_variables() ==> r == Err::<
            Vec<Scalar>,
            GeneralVerifyError,
        >(GeneralVerifyError::WrongRoundCount) && final(transcript).entries() == old(transcript).entries(),
        proof.round_polynomials@.len() == polynomial.num_variables() ==> ({
            let bound = old(transcript).entries() + general_statement_entries(*polynomial, claimed_sum@);
            let messages = dense_messages_view(proof.round_polynomials@);
            let (entries, challenges) = general_absorb_rounds::<T>(bound, messages, messages.len());
            let verdict = general_verdict(*polynomial, claimed_sum@, messages, proof.final_evaluation@, challenges);
            &&& match r {
                Ok(_) => verdict == Ok::<(), GeneralVerifyError>(()),
                Err(error) => verdict == Err::<(), GeneralVerifyError>(error),
            }
            &&& r matches Ok(derived) ==> scalars_view(derived@) == challenges
            &&& match general_check_rounds(
                polynomial.degree_bound(),
                claimed_sum@,
                messages,
                challenges,
                messages.len(),
            ) {
                Err(GeneralVerifyError::RoundDegreeTooHigh { round, .. }) => final(transcript).entries()
                    == general_absorb_rounds::<T>(bound, messages, round as nat).0,
                Err(GeneralVerifyError::RoundDoesNotMatchClaim { round }) => final(transcript).entries()
                    == general_absorb_rounds::<T>(bound, messages, round as nat).0,
                _ => final(transcript).entries() == entries,
            }
        }),
{
    if proof.round_polynomials.len() != polynomial.variables() {
        return Err(GeneralVerifyError::WrongRoundCount);
    }
    bind_general_statement(polynomial, claimed_sum, transcript);
    let ghost bound = transcript.entries();
    let ghost messages = dense_messages_view(proof.round_polynomials@);
    let ghost all = general_absorb_rounds::<T>(bound, messages, messages.len()).1;
    proof {
        lemma_general_absorb_prefix::<T>(bound, messages, 0, messages.len());
    }
    let max_degree = polynomial.max_individual_degree();
    let mut claim = claimed_sum;
    let mut challenges: Vec<Scalar> = Vec::new();
    let mut round: usize = 0;
    while round < proof.round_polynomials.len()
        invariant
            round <= proof.round_polynomials@.len(),
            proof.round_polynomials@.len() == polynomial.num_variables(),
            bound == old(transcript).entries() + general_statement_entries(*polynomial, claimed_sum@),
            max_degree == polynomial.degree_bound(),
            messages == dense_messages_view(proof.round_polynomials@),
            all == general_absorb_rounds::<T>(bound, messages, messages.len()).1,
            all.len() == messages.len(),
            ({
                let (entries, drawn) = general_absorb_rounds::<T>(bound, messages, round as nat);
                &&& transcript.entries() == entries
                &&& scalars_view(challenges@) == drawn
                &&& all.take(round as int) == drawn
                &&& general_check_rounds(polynomial.degree_bound(), claimed_sum@, messages, all, round as nat)
                    == Ok::<nat, GeneralVerifyError>(claim@)
            }),
        decreases proof.round_polynomials@.len() - round,
    {
        let round_polynomial = &proof.round_polynomials[round];
        assert(messages[round as int] == round_polynomial@);
        let degree = round_polynomial.degree();
        if degree > max_degree {
            proof {
                lemma_general_check_stays_rejected(
                    polynomial.degree_bound(),
                    claimed_sum@,
                    messages,
                    all,
                    (round + 1) as nat,
                    messages.len(),
                );
            }
            return Err(GeneralVerifyError::RoundDegreeTooHigh { round, degree, max_degree });
        }
        let sum = round_polynomial.boolean_sum();
        if !sum.equals(&claim) {
            proof {
                lemma_general_check_stays_rejected(
                    polynomial.degree_bound(),
                    claimed_sum@,
                    messages,
                    all,
                    (round + 1) as nat,
                    messages.len(),
                );
            }
            return Err(GeneralVerifyError::RoundDoesNotMatchClaim { round });
        }
        append_dense_round(transcript, round, round_polynomial);
        let challenge = transcript.challenge_scalar("round-challenge");
        claim = round_polynomial.evaluate(challenge);
        challenges.push(challenge);
        proof {
            lemma_general_absorb_prefix::<T>(bound, messages, (round + 1) as nat, messages.len());
            let drawn = general_absorb_rounds::<T>(bound, messages, (round + 1) as nat).1;
            assert(scalars_view(challenges@) =~= drawn);
            assert(all[round as int] == drawn[round as int]);
            assert(all.take(round as int) =~= all.take(round + 1).take(round as int));
        }
        round = round + 1;
    }
    proof {
        assert(all.take(round as int) =~= all);
    }
    let evaluation = match polynomial.evaluate_at(challenges.as_slice()) {
        Ok(value) => value,
        Err(error) => {
            return Err(error);
        },
    };
    if !claim.equals(&proof.final_evaluation) || !evaluation.equals(&proof.final_evaluation) {
        return Err(GeneralVerifyError::FinalEvaluationMismatch);
    }
    Ok(challenges)
}

/// The multilinear round message: the line through the sums of the even and
/// odd entries of the table folded at the prefix.
pub open spec fn multilinear_round_message(table: Seq<nat>, prefix: Seq<nat>) -> Seq<nat> {
    let folded = fold_point(table, prefix);
    seq![sum_even(folded), fsub(sum_odd(folded), sum_even(folded))]
}

impl SumcheckPolynomial for Multilinear {
    open spec fn num_variables(&self) -> nat {
        Multilinear::num_variables(*self)
    }

    open spec fn degree_bound(&self) -> nat {
        1
    }

    open spec fn statement_entries(&self) -> Seq<TranscriptEntry> {
        seq![message_entry("oracle-length".spec_bytes(), u64_le_bytes(self@.len() as u64))] + field_entries(
            "oracle-evaluation".spec_bytes(),
            self@,
        )
    }

    open spec fn round_message(&self, prefix: Seq<nat>, round: nat) -> Seq<nat> {
        multilinear_round_message(self@, prefix)
    }

    open spec fn evaluation(&self, point: Seq<nat>) -> Result<nat, GeneralVerifyError> {
        if point.len() == Multilinear::num_variables(*self) {
            Ok(evaluate_table(self@, point))
        } else {
            Err(GeneralVerifyError::InvalidEvaluationPoint)
        }
    }

    fn variables(&self) -> (r: usize) {
        Multilinear::variables(self)
    }

    fn max_individual_degree(&self) -> (r: usize) {
        1
    }

    fn bind_statement<T: ProofTranscript>(&self, transcript: &mut T) {
        let evaluations = self.evaluations();
        transcript.append_u64("oracle-length", evaluations.len() as u64);
        append_field_elements(transcript, "oracle-evaluation", evaluations);
        assert(final(transcript).entries() =~= old(transcript).entries() + self.statement_entries());
    }

    fn round_polynomial(&self, prefix_challenges: &[Scalar], round: usize) -> (r: DenseRoundPolynomial) {
        let mut folded = self.clone();
        let mut i: usize = 0;
        assert(scalars_view(prefix_challenges@).take(0) =~= seq![]);
        while i < prefix_challenges.len()
            invariant
                i <= prefix_challenges@.len(),
                prefix_challenges@.len() <= Multilinear::num_variables(*self),
                folded.num_variables() == Multilinear::num_variables(*self) - i,
                folded@ == fold_point(self@, scalars_view(prefix_challenges@).take(i as int)),
            decreases prefix_challenges@.len() - i,
        {
            proof {
                crate::sumcheck_laws::lemma_fold_point_push(
                    self@,
                    scalars_view(prefix_challenges@).take(i as int),
                    prefix_challenges@[i as int]@,
                );
                assert(scalars_view(prefix_challenges@).take(i + 1) =~= scalars_view(prefix_challenges@).take(
                    i as int,
                ).push(prefix_challenges@[i as int]@));
            }
            folded = folded.fold_first(prefix_challenges[i]);
            i = i + 1;
        }
        assert(scalars_view(prefix_challenges@).take(i as int) =~= scalars_view(prefix_challenges@));
        let halves = half_sums(folded.evaluations());
        DenseRoundPolynomial::linear(halves.evaluation_at_zero, halves.evaluation_at_one)
    }

    fn evaluate_at(&self, point: &[Scalar]) -> (r: Result<Scalar, GeneralVerifyError>) {
        match self.evaluate(point) {
            Ok(value) => Ok(value),
            Err(_) => Err(GeneralVerifyError::InvalidEvaluationPoint),
        }
    }
}

/// The dense line `[e, o - e]` has degree at most one, sums to `e + o` over
/// the Boolean points, and takes `e + x·(o - e)` at `x`.
proof fn lemma_dense_line(e: nat, o: nat, x: nat)
    requires
        e < modulus(),
        o < modulus(),
        x < modulus(),
    ensures
        poly_degree(seq![e, fsub(o, e)]) <= 1,
        boolean_sum_of(seq![e, fsub(o, e)]) == fadd(e, o),
        horner(seq![e, fsub(o, e)], x) == fadd(e, fmul(x, fsub(o, e))),
{
    let slope = fsub(o, e);
    let line = seq![e, slope];
    let p = modulus() as int;
    lemma_ops_canonical(o, e);
    assert(line.drop_last() =~= seq![e]);
    assert(seq![e].drop_last() =~= Seq::<nat>::empty());
    reveal_with_fuel(poly_degree, 3);
    assert(line.drop_first() =~= seq![slope]);
    assert(seq![slope].drop_first() =~= Seq::<nat>::empty());
    reveal_with_fuel(horner, 3);
    lemma_canonical(slope);
    lemma_canonical(e);
    assert(horner(Seq::<nat>::empty(), x) == 0);
    assert(fmul(0, x) == 0);
    assert(horner(seq![slope], x) == slope);
    assert(slope * x == x * slope) by (nonlinear_arith);
    assert(horner(line, x) == fadd(e, fmul(x, slope)));
    assert(horner(seq![slope], 0) == slope);
    assert(fmul(slope, 0) == 0);
    assert(horner(line, 0) == e);
    assert(fmul(slope, 1) == slope);
    assert(horner(line, 1) == fadd(slope, e));
    vstd::arithmetic::div_mod::lemma_add_mod_noop((o - e) as int, e as int, p);
    lemma_canonical(o);
    assert(fadd(slope, e) == o);
}

/// Shape of the honest general prover's state on a multilinear table after
/// `count` rounds.
proof fn lemma_general_prover_shape<T: ProofTranscript>(
    polynomial: Multilinear,
    entries: Seq<TranscriptEntry>,
    variables: nat,
    count: nat,
)
    requires
        all_canonical(polynomial@),
        polynomial@.len() == pow2(variables),
        count <= variables,
    ensures
        ({
            let (_after, messages, challenges) = general_prover_rounds::<T, Multilinear>(polynomial, entries, count);
            &&& messages.len() == count
            &&& challenges.len() == count
            &&& all_canonical(challenges)
            &&& fold_point(polynomial@, challenges).len() == pow2((variables - count) as nat)
            &&& all_canonical(fold_point(polynomial@, challenges))
        }),
    decreases count,
{
    if count > 0 {
        let k = (count - 1) as nat;
        lemma_general_prover_shape::<T>(polynomial, entries, variables, k);
        let challenges = general_prover_rounds::<T, Multilinear>(polynomial, entries, k).2;
        let next = general_prover_rounds::<T, Multilinear>(polynomial, entries, count).2;
        let challenge = next.last();
        assert(next =~= challenges.push(challenge));
        lemma_fold_point_push(polynomial@, challenges, challenge);
        lemma_fold_pairs_canonical(fold_point(polynomial@, challenges), challenge);
        assert(pow2((variables - k) as nat) == 2 * pow2((variables - count) as nat));
    } else {
        assert(fold_point(polynomial@, seq![]) == polynomial@);
    }
}

/// The general prover's messages and challenges after fewer rounds are
/// prefixes of those after more rounds.
proof fn lemma_general_prover_prefix<T: ProofTranscript>(
    polynomial: Multilinear,
    entries: Seq<TranscriptEntry>,
    shorter: nat,
    count: nat,
)
    requires
        shorter <= count,
    ensures
        general_prover_rounds::<T, Multilinear>(polynomial, entries, count).1.len() == count,
        general_prover_rounds::<T, Multilinear>(polynomial, entries, count).2.len() == count,
        general_prover_rounds::<T, Multilinear>(polynomial, entries, shorter).1 == general_prover_rounds::<
            T,
            Multilinear,
        >(polynomial, entries, count).1.take(shorter as int),
        general_prover_rounds::<T, Multilinear>(polynomial, entries, shorter).2 == general_prover_rounds::<
            T,
            Multilinear,
        >(polynomial, entries, count).2.take(shorter as int),
    decreases count,
{
    if count > 0 {
        let k = (count - 1) as nat;
        let current = general_prover_rounds::<T, Multilinear>(polynomial, entries, count);
        if shorter == count {
            lemma_general_prover_prefix::<T>(polynomial, entries, k, k);
            assert(current.1.take(count as int) =~= current.1);
            assert(current.2.take(count as int) =~= current.2);
        } else {
            lemma_general_prover_prefix::<T>(polynomial, entries, shorter, k);
            let previous = general_prover_rounds::<T, Multilinear>(polynomial, entries, k);
            assert(current.1.take(shorter as int) =~= previous.1.take(shorter as int));
            assert(current.2.take(shorter as int) =~= previous.2.take(shorter as int));
        }
    }
}

/// Round by round, the general verifier replays the honest prover's
/// transcript on a multilinear table, and its running claim is the sum of
/// the table folded at the challenges so far.
proof fn lemma_general_honest_rounds<T: ProofTranscript>(
    polynomial: Multilinear,
    bound: Seq<TranscriptEntry>,
    variables: nat,
    count: nat,
)
    requires
        all_canonical(polynomial@),
        polynomial@.len() == pow2(variables),
        polynomial.num_variables() == variables,
        count <= variables,
    ensures
        ({
            let full = general_prover_rounds::<T, Multilinear>(polynomial, bound, variables);
            let current = general_prover_rounds::<T, Multilinear>(polynomial, bound, count);
            &&& general_absorb_rounds::<T>(bound, full.1, count) == (current.0, current.2)
            &&& general_check_rounds(1, field_sum(polynomial@), full.1, full.2, count) == Ok::<
                nat,
                GeneralVerifyError,
            >(field_sum(fold_point(polynomial@, current.2)))
        }),
    decreases count,
{
    if count == 0 {
        assert(fold_point(polynomial@, seq![]) == polynomial@);
    } else {
        let k = (count - 1) as nat;
        lemma_general_honest_rounds::<T>(polynomial, bound, variables, k);
        lemma_general_prover_prefix::<T>(polynomial, bound, count, variables);
        lemma_general_prover_prefix::<T>(polynomial, bound, k, count);
        lemma_general_prover_shape::<T>(polynomial, bound, variables, k);
        let full = general_prover_rounds::<T, Multilinear>(polynomial, bound, variables);
        let previous = general_prover_rounds::<T, Multilinear>(polynomial, bound, k);
        let current = general_prover_rounds::<T, Multilinear>(polynomial, bound, count);
        let folded = fold_point(polynomial@, previous.2);
        let message = multilinear_round_message(polynomial@, previous.2);
        assert(current.1[k as int] == message);
        assert(full.1[k as int] == current.1[k as int]);
        let challenge = current.2.last();
        assert(full.2[k as int] == current.2[k as int]);
        assert(current.2 =~= previous.2.push(challenge));
        assert(pow2((variables - k) as nat) == 2 * pow2((variables - count) as nat));
        assert(folded.len() % 2 == 0);
        let e = sum_even(folded);
        let o = sum_odd(folded);
        lemma_field_sum_canonical(Seq::new(folded.len() / 2, |i: int| folded[2 * i]));
        lemma_field_sum_canonical(Seq::new(folded.len() / 2, |i: int| folded[2 * i + 1]));
        assert(challenge < modulus());
        lemma_dense_line(e, o, challenge);
        lemma_sum_splits(folded);
        lemma_sum_fold(folded, challenge);
        lemma_line(e, o, challenge);
        lemma_fold_point_push(polynomial@, previous.2, challenge);
    }
}

/// Completeness of the general Sumcheck on a multilinear polynomial: the
/// honest prover's messages for the true sum, replayed from the same
/// transcript state, yield the prover's own challenges and are accepted with
/// the polynomial's value at them as final evaluation.
pub proof fn lemma_honest_general_proof_verifies<T: ProofTranscript>(
    entries: Seq<TranscriptEntry>,
    polynomial: Multilinear,
)
    requires
        polynomial@.len() == pow2(polynomial.num_variables()),
    ensures
        ({
            let claimed = field_sum(polynomial@);
            let bound = entries + general_statement_entries(polynomial, claimed);
            let (after, messages, challenges) = general_prover_rounds::<T, Multilinear>(
                polynomial,
                bound,
                polynomial.num_variables(),
            );
            &&& general_absorb_rounds::<T>(bound, messages, messages.len()) == (after, challenges)
            &&& general_verdict(polynomial, claimed, messages, evaluate_table(polynomial@, challenges), challenges)
                == Ok::<(), GeneralVerifyError>(())
        }),
{
    let variables = polynomial.num_variables();
    let claimed = field_sum(polynomial@);
    let bound = entries + general_statement_entries(polynomial, claimed);
    polynomial.lemma_view();
    lemma_scalars_canonical(polynomial.table());
    lemma_general_honest_rounds::<T>(polynomial, bound, variables, variables);
    lemma_general_prover_shape::<T>(polynomial, bound, variables, variables);
    lemma_general_prover_prefix::<T>(polynomial, bound, variables, variables);
    let (_after, _messages, challenges) = general_prover_rounds::<T, Multilinear>(polynomial, bound, variables);
    let folded = fold_point(polynomial@, challenges);
    assert(pow2(0) == 1);
    assert(folded.len() == 1);
    assert(folded.drop_last().len() == 0);
    assert(field_sum(folded.drop_last()) == 0);
    lemma_canonical(folded[0]);
    assert(field_sum(folded) == folded[0]);
    lemma_evaluate_is_fold_point(polynomial@, challenges);
}

/// The claim round `i` of the general verifier must match: the claimed sum
/// for the first round, the previous round polynomial at its challenge after
/// that.
pub open spec fn general_round_target(claimed_sum: nat, messages: Seq<Seq<nat>>, challenges: Seq<nat>, i: int) -> nat {
    if i == 0 {
        claimed_sum
    } else {
        horner(messages[i - 1], challenges[i - 1])
    }
}

/// Accepted general rounds each respect the degree bound and sum over the
/// Boolean points to the claim before them.
proof fn lemma_general_check_each(
    degree_bound: nat,
    claimed_sum: nat,
    messages: Seq<Seq<nat>>,
    challenges: Seq<nat>,
    count: nat,
)
    requires
        count <= messages.len(),
        general_check_rounds(degree_bound, claimed_sum, messages, challenges, count) is Ok,
    ensures
        forall|i: int|
            0 <= i < count ==> poly_degree(#[trigger] messages[i]) <= degree_bound && (horner(messages[i], 0)
                + horner(messages[i], 1)) % modulus() == general_round_target(claimed_sum, messages, challenges, i),
        general_check_rounds(degree_bound, claimed_sum, messages, challenges, count) == Ok::<nat, GeneralVerifyError>(
            general_round_target(claimed_sum, messages, challenges, count as int),
        ),
    decreases count,
{
    if count > 0 {
        let k = (count - 1) as nat;
        if general_check_rounds(degree_bound, claimed_sum, messages, challenges, k) is Err {
            assert(general_check_rounds(degree_bound, claimed_sum, messages, challenges, count) is Err);
        }
        lemma_general_check_each(degree_bound, claimed_sum, messages, challenges, k);
    }
}

/// Soundness of the general verifier's checks: an accepted proof has every
/// round polynomial within the degree bound and summing over `{0, 1}` to the
/// claim before it, a final evaluation equal to the last round polynomial at
/// its challenge (to the claimed sum when there are no rounds), and the
/// polynomial's own value at the challenges equal to that final evaluation.
pub proof fn lemma_accepted_general_proof_closes_rounds<P: SumcheckPolynomial>(
    polynomial: P,
    claimed_sum: nat,
    messages: Seq<Seq<nat>>,
    final_evaluation: nat,
    challenges: Seq<nat>,
)
    requires
        general_verdict(polynomial, claimed_sum, messages, final_evaluation, challenges) is Ok,
    ensures
        forall|i: int|
            0 <= i < messages.len() ==> poly_degree(#[trigger] messages[i]) <= polynomial.degree_bound() && (horner(
                messages[i],
                0,
            ) + horner(messages[i], 1)) % modulus() == general_round_target(claimed_sum, messages, challenges, i),
        final_evaluation == general_round_target(claimed_sum, messages, challenges, messages.len() as int),
        polynomial.evaluation(challenges) == Ok::<nat, GeneralVerifyError>(final_evaluation),
{
    lemma_general_check_each(polynomial.degree_bound(), claimed_sum, messages, challenges, messages.len());
}

} // verus!
