//! Fiat–Shamir Zerocheck reduced to equality-weighted Sumcheck.
use vstd::prelude::*;
use vstd::string::StringSliceAdditionalSpecFns;
use crate::arith::pow2;
use crate::field::{field_sum, fmul, modulus, scalars_view, u64_le_bytes, Scalar};
use crate::multilinear::{all_canonical, eq_evaluations, eq_table, Multilinear};
use crate::sumcheck::{
    absorb_rounds, append_field_elements, field_entries, messages_view, prover_rounds, statement_entries,
    verify_outcome, Proof as SumcheckProof, VerifyError as SumcheckError,
};
use crate::transcript::{
    challenge_vector, challenge_vector_outcome, dom_sep_label, lemma_ascii_label, message_entry, modulus_le_bytes,
    ProofTranscript, TranscriptEntry,
};

verus! {

#[derive(Clone, Debug, PartialEq, Eq)]
pub struct Proof {
    pub sumcheck: SumcheckProof,
}

#[derive(Clone, Copy, Debug, PartialEq, Eq, Structural)]
pub enum VerifyError {
    Sumcheck(SumcheckError),
}

/// Each constraint evaluation weighted by the equality polynomial at the
/// mixing point.
pub open spec fn weighted_table(table: Seq<nat>, point: Seq<nat>) -> Seq<nat> {
    Seq::new(table.len(), |i: int| fmul(table[i], eq_table(point)[i]))
}

/// What binding the constraint table appends before the mixing point is
/// drawn.
pub open spec fn zerocheck_statement_entries(table: Seq<nat>, variables: nat) -> Seq<TranscriptEntry> {
    seq![
        message_entry(dom_sep_label(), "snark-lab/zerocheck/v1".spec_bytes()),
        message_entry("field-modulus".spec_bytes(), modulus_le_bytes()),
        message_entry("num-variables".spec_bytes(), u64_le_bytes(variables as u64)),
        message_entry("constraint-length".spec_bytes(), u64_le_bytes(table.len() as u64)),
    ] + field_entries("constraint-evaluation".spec_bytes(), table)
}

/// The transcript after binding the constraints and drawing the mixing
/// point, and the mixing point.
pub open spec fn mixing_outcome<T: ProofTranscript>(entries: Seq<TranscriptEntry>, table: Seq<nat>, variables: nat) -> (
    Seq<TranscriptEntry>,
    Seq<nat>,
) {
    challenge_vector_outcome::<T>(
        entries + zerocheck_statement_entries(table, variables),
        "mixing-coordinate".spec_bytes(),
        variables,
    )
}

/// Weights the constraints by `eq(mixing_point, ·)`.
pub fn weighted_polynomial(constraints: &Multilinear, mixing_point: &[Scalar]) -> (r: Result<
    Multilinear,
    &'static str,
>)
    ensures
        r is Ok <==> mixing_point@.len() == constraints.num_variables(),
        r matches Ok(weighted) ==> weighted@ == weighted_table(constraints@, scalars_view(mixing_point@))
            && weighted.num_variables() == constraints.num_variables(),
{
    let variables = constraints.variables();
    if mixing_point.len() != variables {
        return Err("point dimension mismatch");
    }
    let evaluations = constraints.evaluations();
    let length = evaluations.len();
    assert(pow2(mixing_point@.len()) == length);
    let equality = eq_evaluations(mixing_point);
    let mut products: Vec<Scalar> = Vec::new();
    let mut i: usize = 0;
    while i < evaluations.len()
        invariant
            i <= evaluations@.len(),
            evaluations@.len() == equality@.len(),
            scalars_view(evaluations@) == constraints@,
            scalars_view(equality@) == eq_table(scalars_view(mixing_point@)),
            scalars_view(products@) == weighted_table(constraints@, scalars_view(mixing_point@)).take(i as int),
        decreases evaluations@.len() - i,
    {
        let product = evaluations[i].mul(&equality[i]);
        assert(constraints@[i as int] == evaluations@[i as int]@);
        assert(eq_table(scalars_view(mixing_point@))[i as int] == equality@[i as int]@);
        let ghost before = products@;
        products.push(product);
        assert(scalars_view(products@) =~= scalars_view(before).push(product@));
        i = i + 1;
        assert(scalars_view(products@) =~= weighted_table(constraints@, scalars_view(mixing_point@)).take(
            i as int,
        ));
    }
    assert(weighted_table(constraints@, scalars_view(mixing_point@)).take(i as int) =~= weighted_table(
        constraints@,
        scalars_view(mixing_point@),
    ));
    proof {
        crate::arith::lemma_exact_log2_pow2(variables as nat);
    }
    Multilinear::new(products)
}

/// Binds the constraints and draws the mixing point.
pub fn derive_mixing_point<T: ProofTranscript>(constraints: &Multilinear, transcript: &mut T) -> (r: Vec<Scalar>)
    ensures
        ({
            let (entries, point) = mixing_outcome::<T>(
                old(transcript).entries(),
                constraints@,
                constraints.num_variables(),
            );
            &&& final(transcript).entries() == entries
            &&& scalars_view(r@) == point
            &&& r@.len() == constraints.num_variables()
        }),
{
    proof {
        reveal_strlit("snark-lab/zerocheck/v1");
        lemma_ascii_label("snark-lab/zerocheck/v1");
    }
    transcript.append_domain_separator("snark-lab/zerocheck/v1");
    transcript.append_field_modulus();
    let variables = constraints.variables();
    transcript.append_u64("num-variables", variables as u64);
    let evaluations = constraints.evaluations();
    transcript.append_u64("constraint-length", evaluations.len() as u64);
    append_field_elements(transcript, "constraint-evaluation", evaluations);
    assert(transcript.entries() =~= old(transcript).entries() + zerocheck_statement_entries(
        constraints@,
        variables as nat,
    ));
    let point = challenge_vector(transcript, "mixing-coordinate", variables);
    proof {
        lemma_challenge_vector_len::<T>(
            old(transcript).entries() + zerocheck_statement_entries(constraints@, variables as nat),
            "mixing-coordinate".spec_bytes(),
            variables as nat,
        );
    }
    point
}

/// Drawing `count` challenges yields `count` values.
pub proof fn lemma_challenge_vector_len<T: ProofTranscript>(entries: Seq<TranscriptEntry>, label: Seq<u8>, count: nat)
    ensures
        challenge_vector_outcome::<T>(entries, label, count).1.len() == count,
    decreases count,
{
    if count > 0 {
        lemma_challenge_vector_len::<T>(entries, label, (count - 1) as nat);
    }
}

/// Proves that every constraint evaluation is zero.
pub fn prove<T: ProofTranscript>(constraints: &Multilinear, transcript: &mut T) -> (r: Proof)
    ensures
        ({
            let variables = constraints.num_variables();
            let (mixed, point) = mixing_outcome::<T>(old(transcript).entries(), constraints@, variables);
            let weighted = weighted_table(constraints@, point);
            let bound = mixed + statement_entries(weighted, variables, 0);
            let (entries, folded, messages, _challenges) = prover_rounds::<T>(bound, weighted, variables);
            &&& final(transcript).entries() == entries
            &&& messages_view(r.sumcheck.round_polynomials@) == messages
            &&& r.sumcheck.final_evaluation@ == folded[0]
        }),
{
    let mixing_point = derive_mixing_point(constraints, transcript);
    let weighted = match weighted_polynomial(constraints, mixing_point.as_slice()) {
        Ok(weighted) => weighted,
        Err(_) => {
            assert(false);
            constraints.clone()
        },
    };
    Proof { sumcheck: crate::sumcheck::prove(&weighted, Scalar::zero(), transcript) }
}

/// Checks a Zerocheck proof and returns the mixing point.
pub fn verify<T: ProofTranscript>(constraints: &Multilinear, proof: &Proof, transcript: &mut T) -> (r: Result<
    Vec<Scalar>,
    VerifyError,
>)
    ensures
        ({
            let variables = constraints.num_variables();
            let (mixed, point) = mixing_outcome::<T>(old(transcript).entries(), constraints@, variables);
            let weighted = weighted_table(constraints@, point);
            let messages = messages_view(proof.sumcheck.round_polynomials@);
            let bound = mixed + statement_entries(weighted, variables, 0);
            let (entries, challenges) = absorb_rounds::<T>(bound, messages, messages.len());
            if messages.len() != variables {
                &&& r == Err::<Vec<Scalar>, VerifyError>(VerifyError::Sumcheck(SumcheckError::WrongRoundCount))
                &&& final(transcript).entries() == mixed
            } else {
                &&& final(transcript).entries() == entries
                &&& match verify_outcome(weighted, 0, messages, proof.sumcheck.final_evaluation@, challenges) {
                    Ok(()) => r matches Ok(mixing) && scalars_view(mixing@) == point,
                    Err(error) => r == Err::<Vec<Scalar>, VerifyError>(VerifyError::Sumcheck(error)),
                }
            }
        }),
{
    let mixing_point = derive_mixing_point(constraints, transcript);
    let weighted = match weighted_polynomial(constraints, mixing_point.as_slice()) {
        Ok(weighted) => weighted,
        Err(_) => {
            assert(false);
            constraints.clone()
        },
    };
    match crate::sumcheck::verify(&weighted, Scalar::zero(), &proof.sumcheck, transcript) {
        Ok(_) => Ok(mixing_point),
        Err(error) => Err(VerifyError::Sumcheck(error)),
    }
}

/// The field sum of a sequence of zeros is zero.
pub proof fn lemma_sum_of_zeros(values: Seq<nat>)
    requires
        forall|i: int| 0 <= i < values.len() ==> values[i] == 0,
    ensures
        field_sum(values) == 0,
    decreases values.len(),
{
    if values.len() > 0 {
        lemma_sum_of_zeros(values.drop_last());
    }
}

/// Completeness on the zero table: when every constraint evaluation is
/// zero, the honest proof replayed from the same transcript state is
/// accepted and yields the prover's challenges.
pub proof fn lemma_zero_constraints_verify<T: ProofTranscript>(
    entries: Seq<TranscriptEntry>,
    table: Seq<nat>,
    variables: nat,
)
    requires
        table.len() == pow2(variables),
        forall|i: int| 0 <= i < table.len() ==> table[i] == 0,
    ensures
        ({
            let (mixed, point) = mixing_outcome::<T>(entries, table, variables);
            let weighted = weighted_table(table, point);
            let bound = mixed + statement_entries(weighted, variables, 0);
            let (after, folded, messages, challenges) = prover_rounds::<T>(bound, weighted, variables);
            &&& absorb_rounds::<T>(bound, messages, messages.len()) == (after, challenges)
            &&& verify_outcome(weighted, 0, messages, folded[0], challenges) == Ok::<(), SumcheckError>(())
        }),
{
    let (mixed, point) = mixing_outcome::<T>(entries, table, variables);
    let weighted = weighted_table(table, point);
    assert forall|i: int| 0 <= i < weighted.len() implies weighted[i] == 0 by {
        assert(fmul(0, eq_table(point)[i]) == 0);
    }
    lemma_sum_of_zeros(weighted);
    assert(all_canonical(weighted));
    crate::sumcheck_laws::lemma_honest_proof_verifies::<T>(mixed, weighted, variables);
}

} // verus!
