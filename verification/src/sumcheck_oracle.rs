//! Sumcheck whose final evaluation is checked through an oracle opening
//! rather than against the full table.
use vstd::prelude::*;
use vstd::string::StringSliceAdditionalSpecFns;
use crate::arith::{exact_log2, pow2};
use crate::field::{field_sum, modulus, scalar_bytes, scalars_view, u64_le_bytes, Scalar};
use crate::multilinear::all_canonical;
use crate::oracle::{
    MultilinearOracle, TransparentCommitment, TransparentOpening, TransparentOracle, TransparentOracleError,
};
use crate::sumcheck::{
    absorb_rounds, append_round, check_rounds, line_at, messages_view, prover_rounds, run_prover_rounds,
    verify_outcome, Proof, RoundPolynomial, VerifyError,
};
use crate::sumcheck_laws::{lemma_check_rounds_each, lemma_honest_replay, lemma_prover_rounds_shape, round_target};
use crate::transcript::{
    dom_sep_label, lemma_ascii_label, message_entry, modulus_le_bytes, ProofTranscript, TranscriptEntry,
};

verus! {

/// A Sumcheck proof together with the oracle commitment and the opening at
/// the final point.
#[derive(Clone, Debug, PartialEq, Eq)]
pub struct OracleProof<O: MultilinearOracle> {
    pub commitment: O::Commitment,
    pub sumcheck_proof: Proof,
    pub final_opening: O::Opening,
}

#[derive(Clone, Debug, PartialEq, Eq)]
pub enum OracleVerifyError<E> {
    WrongRoundCount,
    RoundDoesNotMatchClaim { round: usize },
    Opening(E),
    FinalEvaluationMismatch,
}

/// What binding the oracle Sumcheck statement appends to a transcript.
pub open spec fn oracle_statement_entries<O: MultilinearOracle>(
    variables: nat,
    claimed_sum: nat,
    commitment: O::Commitment,
) -> Seq<TranscriptEntry> {
    seq![
        message_entry(dom_sep_label(), "snark-lab/sumcheck-oracle/v1".spec_bytes()),
        message_entry("field-modulus".spec_bytes(), modulus_le_bytes()),
        message_entry("num-variables".spec_bytes(), u64_le_bytes(variables as u64)),
        message_entry("claimed-sum".spec_bytes(), scalar_bytes(claimed_sum)),
    ] + O::commitment_entries(commitment)
}

/// The oracle verifier's verdict given the challenges derived from the
/// transcript: the round checks, then the opening, then the final value.
pub open spec fn oracle_verdict<O: MultilinearOracle>(
    commitment: O::Commitment,
    claimed_sum: nat,
    messages: Seq<(nat, nat)>,
    final_evaluation: nat,
    opening: O::Opening,
    challenges: Seq<nat>,
) -> Result<(), OracleVerifyError<O::Error>> {
    match check_rounds(claimed_sum, messages, challenges, messages.len()) {
        Err(VerifyError::RoundDoesNotMatchClaim { round }) => Err(OracleVerifyError::RoundDoesNotMatchClaim { round }),
        Err(_) => Err(OracleVerifyError::WrongRoundCount),
        Ok(claim) => match O::opening_outcome(commitment, challenges, opening) {
            Err(error) => Err(OracleVerifyError::Opening(error)),
            Ok(value) => if claim != final_evaluation || value != final_evaluation {
                Err(OracleVerifyError::FinalEvaluationMismatch)
            } else {
                Ok(())
            },
        },
    }
}

/// The challenges drawn after fewer rounds are a prefix of those drawn after
/// more.
pub proof fn lemma_absorb_rounds_prefix<T: ProofTranscript>(
    entries: Seq<TranscriptEntry>,
    messages: Seq<(nat, nat)>,
    shorter: nat,
    count: nat,
)
    requires
        shorter <= count,
    ensures
        absorb_rounds::<T>(entries, messages, count).1.take(shorter as int) == absorb_rounds::<T>(
            entries,
            messages,
            shorter,
        ).1,
    decreases count,
{
    crate::sumcheck::lemma_absorb_rounds_len::<T>(entries, messages, count);
    if shorter == count {
        assert(absorb_rounds::<T>(entries, messages, count).1.take(count as int) =~= absorb_rounds::<T>(
            entries,
            messages,
            count,
        ).1);
    } else {
        lemma_absorb_rounds_prefix::<T>(entries, messages, shorter, (count - 1) as nat);
        crate::sumcheck::lemma_absorb_rounds_len::<T>(entries, messages, (count - 1) as nat);
        let previous = absorb_rounds::<T>(entries, messages, (count - 1) as nat).1;
        let current = absorb_rounds::<T>(entries, messages, count).1;
        assert(current.take(shorter as int) =~= previous.take(shorter as int));
    }
}

/// The running claim after `count` rounds reads only the first `count`
/// challenges.
pub proof fn lemma_check_rounds_reads_prefix(
    claimed_sum: nat,
    messages: Seq<(nat, nat)>,
    first: Seq<nat>,
    second: Seq<nat>,
    count: nat,
)
    requires
        count <= first.len(),
        count <= second.len(),
        first.take(count as int) == second.take(count as int),
    ensures
        check_rounds(claimed_sum, messages, first, count) == check_rounds(claimed_sum, messages, second, count),
    decreases count,
{
    if count > 0 {
        assert(first.take(count - 1) =~= first.take(count as int).take(count - 1));
        assert(second.take(count - 1) =~= second.take(count as int).take(count - 1));
        assert(first[count - 1] == first.take(count as int)[count - 1]);
        assert(second[count - 1] == second.take(count as int)[count - 1]);
        lemma_check_rounds_reads_prefix(claimed_sum, messages, first, second, (count - 1) as nat);
    }
}

fn bind_oracle_statement<T: ProofTranscript, O: MultilinearOracle>(
    transcript: &mut T,
    variables: usize,
    claimed_sum: Scalar,
    commitment: &O::Commitment,
)
    ensures
        final(transcript).entries() == old(transcript).entries() + oracle_statement_entries::<O>(
            variables as nat,
            claimed_sum@,
            *commitment,
        ),
{
    proof {
        reveal_strlit("snark-lab/sumcheck-oracle/v1");
        lemma_ascii_label("snark-lab/sumcheck-oracle/v1");
    }
    transcript.append_domain_separator("snark-lab/sumcheck-oracle/v1");
    transcript.append_field_modulus();
    transcript.append_u64("num-variables", variables as u64);
    transcript.append_field_element("claimed-sum", &claimed_sum);
    O::bind_commitment(commitment, transcript);
    assert(final(transcript).entries() =~= old(transcript).entries() + oracle_statement_entries::<O>(
        variables as nat,
        claimed_sum@,
        *commitment,
    ));
}

/// Proves the Sumcheck claim for a transparent oracle and opens it at the
/// final point.
pub fn prove_with_transparent_oracle<T: ProofTranscript>(
    oracle: &TransparentOracle,
    claimed_sum: Scalar,
    transcript: &mut T,
) -> (r: Result<OracleProof<TransparentOracle>, TransparentOracleError>)
    ensures
        r matches Ok(proof) && ({
            let bound = old(transcript).entries() + oracle_statement_entries::<TransparentOracle>(
                oracle.num_variables(),
                claimed_sum@,
                proof.commitment,
            );
            let (entries, table, messages, challenges) = prover_rounds::<T>(
                bound,
                oracle@,
                oracle.num_variables(),
            );
            &&& oracle.commits_to(proof.commitment)
            &&& final(transcript).entries() == entries
            &&& messages_view(proof.sumcheck_proof.round_polynomials@) == messages
            &&& proof.sumcheck_proof.final_evaluation@ == table[0]
            &&& oracle.opens_to(challenges, proof.final_opening)
        }),
{
    let commitment = oracle.commit();
    bind_oracle_statement::<T, TransparentOracle>(transcript, oracle.variables(), claimed_sum, &commitment);
    let polynomial = oracle.polynomial();
    let _variables = polynomial.variables();
    proof {
        polynomial.lemma_view();
        crate::multilinear::lemma_scalars_canonical(polynomial.table());
    }
    let (round_polynomials, final_evaluation, challenges) = run_prover_rounds(polynomial, transcript);
    proof {
        lemma_prover_rounds_shape::<T>(
            old(transcript).entries() + oracle_statement_entries::<TransparentOracle>(
                oracle.num_variables(),
                claimed_sum@,
                commitment,
            ),
            oracle@,
            oracle.num_variables(),
            oracle.num_variables(),
        );
        polynomial.lemma_view();
    }
    let final_opening = match oracle.open(challenges.as_slice()) {
        Ok(opening) => opening,
        Err(error) => {
            return Err(error);
        },
    };
    Ok(OracleProof { commitment, sumcheck_proof: Proof { round_polynomials, final_evaluation }, final_opening })
}

/// Checks a Sumcheck proof whose final evaluation is vouched for by an oracle
/// opening, and returns the derived challenges.
#[verifier::rlimit(40)]
pub fn verify_with_oracle<T: ProofTranscript, O: MultilinearOracle>(
    commitment: &O::Commitment,
    variables: usize,
    claimed_sum: Scalar,
    proof: &Proof,
    final_opening: &O::Opening,
    transcript: &mut T,
) -> (r: Result<Vec<Scalar>, OracleVerifyError<O::Error>>)
    ensures
        proof.round_polynomials@.len() != variables ==> r == Err::<Vec<Scalar>, OracleVerifyError<O::Error>>(
            OracleVerifyError::WrongRoundCount,
        ) && final(transcript).entries() == old(transcript).entries(),
        proof.round_polynomials@.len() == variables ==> ({
            let bound = old(transcript).entries() + oracle_statement_entries::<O>(
                variables as nat,
                claimed_sum@,
                *commitment,
            );
            let messages = messages_view(proof.round_polynomials@);
            let (entries, challenges) = absorb_rounds::<T>(bound, messages, messages.len());
            let verdict = oracle_verdict::<O>(
                *commitment,
                claimed_sum@,
                messages,
                proof.final_evaluation@,
                *final_opening,
                challenges,
            );
            &&& match r {
                Ok(_) => verdict == Ok::<(), OracleVerifyError<O::Error>>(()),
                Err(error) => verdict == Err::<(), OracleVerifyError<O::Error>>(error),
            }
            &&& r matches Ok(derived) ==> scalars_view(derived@) == challenges
            &&& match r {
                Err(OracleVerifyError::RoundDoesNotMatchClaim { round }) => final(transcript).entries()
                    == absorb_rounds::<T>(bound, messages, round as nat).0,
                _ => final(transcript).entries() == entries,
            }
        }),
{
    if proof.round_polynomials.len() != variables {
        return Err(OracleVerifyError::WrongRoundCount);
    }
    bind_oracle_statement::<T, O>(transcript, variables, claimed_sum, commitment);
    let ghost bound = transcript.entries();
    let ghost messages = messages_view(proof.round_polynomials@);
    let ghost all = absorb_rounds::<T>(bound, messages, messages.len()).1;
    proof {
        crate::sumcheck::lemma_absorb_rounds_len::<T>(bound, messages, messages.len());
    }
    let mut claim = claimed_sum;
    let mut challenges: Vec<Scalar> = Vec::new();
    let mut round: usize = 0;
    while round < proof.round_polynomials.len()
        invariant
            round <= proof.round_polynomials@.len(),
            proof.round_polynomials@.len() == variables,
            bound == old(transcript).entries() + oracle_statement_entries::<O>(
                variables as nat,
                claimed_sum@,
                *commitment,
            ),
            messages == messages_view(proof.round_polynomials@),
            all == absorb_rounds::<T>(bound, messages, messages.len()).1,
            all.len() == messages.len(),
            ({
                let (entries, drawn) = absorb_rounds::<T>(bound, messages, round as nat);
                &&& transcript.entries() == entries
                &&& scalars_view(challenges@) == drawn
                &&& all.take(round as int) == drawn
                &&& check_rounds(claimed_sum@, messages, all, round as nat) == Ok::<nat, VerifyError>(claim@)
            }),
        decreases proof.round_polynomials@.len() - round,
    {
        let message = &proof.round_polynomials[round];
        assert(messages[round as int] == message.values());
        let total = message.evaluation_at_zero.add(&message.evaluation_at_one);
        if !total.equals(&claim) {
            proof {
                crate::sumcheck::lemma_check_rounds_stays_rejected(
                    claimed_sum@,
                    messages,
                    all,
                    (round + 1) as nat,
                    messages.len(),
                );
            }
            return Err(OracleVerifyError::RoundDoesNotMatchClaim { round });
        }
        append_round(transcript, round, message);
        let challenge = transcript.challenge_scalar("round-challenge");
        claim = message.evaluate(challenge);
        challenges.push(challenge);
        proof {
            lemma_absorb_rounds_prefix::<T>(bound, messages, (round + 1) as nat, messages.len());
            let drawn = absorb_rounds::<T>(bound, messages, (round + 1) as nat).1;
            assert(scalars_view(challenges@) =~= drawn);
            assert(all[round as int] == drawn[round as int]);
            assert(all.take(round as int) =~= all.take(round + 1).take(round as int));
        }
        round = round + 1;
    }
    proof {
        assert(all.take(round as int) =~= all);
    }
    let opened = match O::verify_opening(commitment, challenges.as_slice(), final_opening) {
        Ok(value) => value,
        Err(error) => {
            return Err(OracleVerifyError::Opening(error));
        },
    };
    if !claim.equals(&proof.final_evaluation) || !opened.equals(&proof.final_evaluation) {
        return Err(OracleVerifyError::FinalEvaluationMismatch);
    }
    Ok(challenges)
}

/// Completeness with a transparent oracle: the honest proof of the true sum
/// of the committed table, with the honest opening at the final point,
/// replays from the same transcript state to the prover's challenges and is
/// accepted.
pub proof fn lemma_honest_oracle_proof_verifies<T: ProofTranscript>(
    entries: Seq<TranscriptEntry>,
    oracle: TransparentOracle,
    commitment: TransparentCommitment,
    opening: TransparentOpening,
)
    requires
        oracle@.len() == pow2(oracle.num_variables()),
        oracle.commits_to(commitment),
        oracle.opens_to(
            prover_rounds::<T>(
                entries + oracle_statement_entries::<TransparentOracle>(
                    oracle.num_variables(),
                    field_sum(oracle@),
                    commitment,
                ),
                oracle@,
                oracle.num_variables(),
            ).3,
            opening,
        ),
    ensures
        ({
            let bound = entries + oracle_statement_entries::<TransparentOracle>(
                oracle.num_variables(),
                field_sum(oracle@),
                commitment,
            );
            let (after, folded, messages, challenges) = prover_rounds::<T>(bound, oracle@, oracle.num_variables());
            &&& absorb_rounds::<T>(bound, messages, messages.len()) == (after, challenges)
            &&& oracle_verdict::<TransparentOracle>(
                commitment,
                field_sum(oracle@),
                messages,
                folded[0],
                opening,
                challenges,
            ) == Ok::<(), OracleVerifyError<TransparentOracleError>>(())
        }),
{
    let variables = oracle.num_variables();
    let bound = entries + oracle_statement_entries::<TransparentOracle>(variables, field_sum(oracle@), commitment);
    oracle.held().lemma_view();
    crate::multilinear::lemma_scalars_canonical(oracle.held().table());
    lemma_honest_replay::<T>(bound, oracle@, variables);
    crate::arith::lemma_exact_log2_pow2(variables);
    assert(scalars_view(commitment.evaluations@) == oracle@);
}

/// Soundness of the oracle verifier's checks: an accepted proof has every
/// round summing to the claim before it, a final evaluation equal to the last
/// round's line at its challenge (to the claimed sum when there are no
/// rounds), and the oracle's opening at the challenges verifies to that same
/// final evaluation.
pub proof fn lemma_accepted_oracle_proof_closes_rounds<O: MultilinearOracle>(
    commitment: O::Commitment,
    claimed_sum: nat,
    messages: Seq<(nat, nat)>,
    final_evaluation: nat,
    opening: O::Opening,
    challenges: Seq<nat>,
)
    requires
        claimed_sum < modulus(),
        forall|i: int| 0 <= i < messages.len() ==> (#[trigger] messages[i]).0 < modulus(),
        oracle_verdict::<O>(commitment, claimed_sum, messages, final_evaluation, opening, challenges) is Ok,
    ensures
        forall|i: int|
            0 <= i < messages.len() ==> ((#[trigger] messages[i]).0 as int + messages[i].1 as int) % (
            modulus() as int) == round_target(claimed_sum, messages, challenges, i),
        final_evaluation as int == round_target(claimed_sum, messages, challenges, messages.len() as int),
        O::opening_outcome(commitment, challenges, opening) == Ok::<nat, O::Error>(final_evaluation),
{
    lemma_check_rounds_each(claimed_sum, messages, challenges, messages.len());
}

} // verus!
