//! Completeness of Sumcheck: an honest proof of a true claim is accepted.
use vstd::prelude::*;
use crate::arith::pow2;
use crate::field::{fadd, field_sum, fmul, fsub, modulus};
use crate::field_laws::{
    lemma_add_assoc, lemma_add_swap, lemma_canonical, lemma_distribute_right,
    lemma_field_sum_canonical, lemma_line, lemma_ops_canonical,
};
use crate::multilinear::{all_canonical, evaluate_table, fold_pairs};
use crate::sumcheck::{
    absorb_rounds, check_rounds, line_at, prover_rounds, statement_entries, sum_even, sum_odd,
    verify_outcome,
};
use crate::transcript::{ProofTranscript, TranscriptEntry};

verus! {

/// The table left after folding at each coordinate of `point` in turn.
pub open spec fn fold_point(table: Seq<nat>, point: Seq<nat>) -> Seq<nat>
    decreases point.len(),
{
    if point.len() == 0 {
        table
    } else {
        fold_point(fold_pairs(table, point[0]), point.drop_first())
    }
}

/// Evaluating the extension is folding at every coordinate and reading the
/// single entry left.
pub proof fn lemma_evaluate_is_fold_point(table: Seq<nat>, point: Seq<nat>)
    ensures
        evaluate_table(table, point) == fold_point(table, point)[0],
    decreases point.len(),
{
    if point.len() > 0 {
        lemma_evaluate_is_fold_point(fold_pairs(table, point[0]), point.drop_first());
    }
}

/// Folding at one more coordinate folds the last table once more.
pub proof fn lemma_fold_point_push(table: Seq<nat>, point: Seq<nat>, x: nat)
    ensures
        fold_point(table, point.push(x)) == fold_pairs(fold_point(table, point), x),
    decreases point.len(),
{
    if point.len() == 0 {
        assert(point.push(x).drop_first() =~= point);
        assert(point.push(x)[0] == x);
        assert(fold_point(fold_pairs(table, x), point) == fold_pairs(table, x));
    } else {
        assert(point.push(x)[0] == point[0]);
        assert(point.push(x).drop_first() =~= point.drop_first().push(x));
        lemma_fold_point_push(fold_pairs(table, point[0]), point.drop_first(), x);
    }
}

/// Folding yields canonical entries.
pub proof fn lemma_fold_pairs_canonical(table: Seq<nat>, r: nat)
    ensures
        all_canonical(fold_pairs(table, r)),
        fold_pairs(table, r).len() == table.len() / 2,
{
    assert forall|i: int| 0 <= i < fold_pairs(table, r).len() implies fold_pairs(table, r)[i] < modulus() by {
        lemma_ops_canonical(fmul(table[2 * i], fsub(1, r)), fmul(table[2 * i + 1], r));
    }
}

/// The sum of a table of even length splits into its even and odd halves.
pub proof fn lemma_sum_splits(table: Seq<nat>)
    requires
        all_canonical(table),
        table.len() % 2 == 0,
    ensures
        field_sum(table) == fadd(sum_even(table), sum_odd(table)),
    decreases table.len(),
{
    let n = table.len();
    let evens = Seq::new(n / 2, |i: int| table[2 * i]);
    let odds = Seq::new(n / 2, |i: int| table[2 * i + 1]);
    if n == 0 {
        assert(evens.len() == 0);
        assert(odds.len() == 0);
        assert(field_sum(evens) == 0);
        assert(field_sum(odds) == 0);
        assert(field_sum(table) == 0);
        assert(fadd(0, 0) == 0);
    } else {
        let rest = table.subrange(0, n - 2);
        assert(field_sum(table) == fadd(field_sum(table.drop_last()), table.last()));
        assert(field_sum(table.drop_last()) == fadd(field_sum(table.drop_last().drop_last()), table.drop_last().last()));
        assert(field_sum(evens) == fadd(field_sum(evens.drop_last()), evens.last()));
        assert(field_sum(odds) == fadd(field_sum(odds.drop_last()), odds.last()));
        let a = table[n - 2];
        let b = table[n - 1];
        lemma_sum_splits(rest);
        assert(table.drop_last().drop_last() =~= rest);
        assert(table.drop_last().last() == a);
        assert(evens.drop_last() =~= Seq::new(rest.len() / 2, |i: int| rest[2 * i]));
        assert(odds.drop_last() =~= Seq::new(rest.len() / 2, |i: int| rest[2 * i + 1]));
        let e = sum_even(rest);
        let o = sum_odd(rest);
        lemma_field_sum_canonical(Seq::new(rest.len() / 2, |i: int| rest[2 * i]));
        lemma_field_sum_canonical(Seq::new(rest.len() / 2, |i: int| rest[2 * i + 1]));
        lemma_ops_canonical(e, o);
        lemma_ops_canonical(a, b);
        lemma_add_assoc(fadd(e, o), a, b);
        lemma_add_swap(e, o, a, b);
    }
}

/// Summing a folded table gives the fold of the two half sums.
pub proof fn lemma_sum_fold(table: Seq<nat>, r: nat)
    requires
        all_canonical(table),
        table.len() % 2 == 0,
        r < modulus(),
    ensures
        field_sum(fold_pairs(table, r)) == fadd(fmul(sum_even(table), fsub(1, r)), fmul(sum_odd(table), r)),
    decreases table.len(),
{
    let n = table.len();
    let c = fsub(1, r);
    let folded = fold_pairs(table, r);
    let evens = Seq::new(n / 2, |i: int| table[2 * i]);
    let odds = Seq::new(n / 2, |i: int| table[2 * i + 1]);
    lemma_ops_canonical(1, r);
    if n == 0 {
        assert(folded.len() == 0);
        assert(evens.len() == 0);
        assert(odds.len() == 0);
        assert(0 * c == 0);
        assert(0 * r == 0);
        assert(fmul(0, c) == 0);
        assert(fmul(0, r) == 0);
        assert(fadd(0, 0) == 0);
    } else {
        let rest = table.subrange(0, n - 2);
        let a = table[n - 2];
        let b = table[n - 1];
        lemma_sum_fold(rest, r);
        assert(folded.drop_last() =~= fold_pairs(rest, r));
        assert(evens.drop_last() =~= Seq::new(rest.len() / 2, |i: int| rest[2 * i]));
        assert(odds.drop_last() =~= Seq::new(rest.len() / 2, |i: int| rest[2 * i + 1]));
        let e = sum_even(rest);
        let o = sum_odd(rest);
        lemma_field_sum_canonical(Seq::new(rest.len() / 2, |i: int| rest[2 * i]));
        lemma_field_sum_canonical(Seq::new(rest.len() / 2, |i: int| rest[2 * i + 1]));
        lemma_ops_canonical(e, c);
        lemma_ops_canonical(o, r);
        lemma_ops_canonical(a, c);
        lemma_ops_canonical(b, r);
        lemma_add_swap(fmul(e, c), fmul(o, r), fmul(a, c), fmul(b, r));
        lemma_distribute_right(e, a, c);
        lemma_distribute_right(o, b, r);
    }
}

/// Shape of the honest prover's state after `count` rounds.
pub proof fn lemma_prover_rounds_shape<T: ProofTranscript>(
    entries: Seq<TranscriptEntry>,
    table: Seq<nat>,
    variables: nat,
    count: nat,
)
    requires
        all_canonical(table),
        table.len() == pow2(variables),
        count <= variables,
    ensures
        ({
            let (_after, folded, messages, challenges) = prover_rounds::<T>(entries, table, count);
            &&& messages.len() == count
            &&& challenges.len() == count
            &&& folded == fold_point(table, challenges)
            &&& folded.len() == pow2((variables - count) as nat)
            &&& all_canonical(folded)
            &&& all_canonical(challenges)
        }),
    decreases count,
{
    if count > 0 {
        lemma_prover_rounds_shape::<T>(entries, table, variables, (count - 1) as nat);
        let (_after, folded, _messages, challenges) = prover_rounds::<T>(entries, table, (count - 1) as nat);
        let next = prover_rounds::<T>(entries, table, count);
        let challenge = next.3.last();
        assert(next.3.drop_last() =~= challenges);
        assert(next.3 =~= challenges.push(challenge));
        lemma_fold_point_push(table, challenges, challenge);
        lemma_fold_pairs_canonical(folded, challenge);
        assert(pow2((variables - (count - 1)) as nat) == 2 * pow2((variables - count) as nat));
    } else {
        assert(fold_point(table, seq![]) == table);
    }
}

/// The prover's messages and challenges after fewer rounds are prefixes of
/// those after more rounds.
pub proof fn lemma_prover_rounds_prefix<T: ProofTranscript>(
    entries: Seq<TranscriptEntry>,
    table: Seq<nat>,
    variables: nat,
    shorter: nat,
    count: nat,
)
    requires
        all_canonical(table),
        table.len() == pow2(variables),
        shorter <= count,
        count <= variables,
    ensures
        prover_rounds::<T>(entries, table, shorter).2 == prover_rounds::<T>(entries, table, count).2.take(
            shorter as int,
        ),
        prover_rounds::<T>(entries, table, shorter).3 == prover_rounds::<T>(entries, table, count).3.take(
            shorter as int,
        ),
    decreases count,
{
    lemma_prover_rounds_shape::<T>(entries, table, variables, count);
    if shorter == count {
        assert(prover_rounds::<T>(entries, table, count).2.take(count as int) =~= prover_rounds::<T>(
            entries,
            table,
            count,
        ).2);
        assert(prover_rounds::<T>(entries, table, count).3.take(count as int) =~= prover_rounds::<T>(
            entries,
            table,
            count,
        ).3);
    } else {
        lemma_prover_rounds_prefix::<T>(entries, table, variables, shorter, (count - 1) as nat);
        lemma_prover_rounds_shape::<T>(entries, table, variables, (count - 1) as nat);
        let previous = prover_rounds::<T>(entries, table, (count - 1) as nat);
        let current = prover_rounds::<T>(entries, table, count);
        assert(current.2.take(shorter as int) =~= previous.2.take(shorter as int));
        assert(current.3.take(shorter as int) =~= previous.3.take(shorter as int));
    }
}

/// Round by round, the verifier replays the honest prover's transcript and
/// its running claim is the sum of the prover's folded table.
proof fn lemma_honest_rounds<T: ProofTranscript>(
    bound: Seq<TranscriptEntry>,
    table: Seq<nat>,
    variables: nat,
    count: nat,
)
    requires
        all_canonical(table),
        table.len() == pow2(variables),
        count <= variables,
    ensures
        ({
            let (_after, _folded, messages, challenges) = prover_rounds::<T>(bound, table, variables);
            let (after, folded, _m, prefix) = prover_rounds::<T>(bound, table, count);
            &&& absorb_rounds::<T>(bound, messages, count) == (after, prefix)
            &&& check_rounds(field_sum(table), messages, challenges, count) == Ok::<nat, crate::sumcheck::VerifyError>(
                field_sum(folded),
            )
        }),
    decreases count,
{
    if count > 0 {
        let k = (count - 1) as nat;
        lemma_honest_rounds::<T>(bound, table, variables, k);
        lemma_prover_rounds_prefix::<T>(bound, table, variables, count, variables);
        lemma_prover_rounds_shape::<T>(bound, table, variables, k);
        lemma_prover_rounds_shape::<T>(bound, table, variables, count);
        lemma_prover_rounds_shape::<T>(bound, table, variables, variables);
        let full = prover_rounds::<T>(bound, table, variables);
        let previous = prover_rounds::<T>(bound, table, k);
        let current = prover_rounds::<T>(bound, table, count);
        let folded = previous.1;
        assert(current.2.last() == full.2[k as int]);
        assert(current.3.last() == full.3[k as int]);
        let challenge = full.3[k as int];
        assert(pow2((variables - k) as nat) == 2 * pow2((variables - count) as nat));
        assert(folded.len() % 2 == 0);
        lemma_sum_splits(folded);
        lemma_sum_fold(folded, challenge);
        lemma_field_sum_canonical(Seq::new(folded.len() / 2, |i: int| folded[2 * i]));
        lemma_field_sum_canonical(Seq::new(folded.len() / 2, |i: int| folded[2 * i + 1]));
        lemma_line(sum_even(folded), sum_odd(folded), challenge);
    }
}

/// From any transcript state, the honest prover's messages for the true sum
/// of a table replay to the prover's own challenges and pass every check.
pub proof fn lemma_honest_replay<T: ProofTranscript>(bound: Seq<TranscriptEntry>, table: Seq<nat>, variables: nat)
    requires
        all_canonical(table),
        table.len() == pow2(variables),
    ensures
        ({
            let (after, folded, messages, challenges) = prover_rounds::<T>(bound, table, variables);
            &&& absorb_rounds::<T>(bound, messages, messages.len()) == (after, challenges)
            &&& challenges.len() == variables
            &&& verify_outcome(table, field_sum(table), messages, folded[0], challenges) == Ok::<(), crate::sumcheck::VerifyError>(())
        }),
{
    lemma_honest_rounds::<T>(bound, table, variables, variables);
    lemma_prover_rounds_shape::<T>(bound, table, variables, variables);
    let (_after, folded, _messages, challenges) = prover_rounds::<T>(bound, table, variables);
    assert(pow2(0) == 1);
    assert(folded.len() == 1);
    assert(folded.drop_last().len() == 0);
    assert(field_sum(folded.drop_last()) == 0);
    assert(folded[0] < modulus());
    lemma_canonical(folded[0]);
    assert(field_sum(folded) == folded[0]);
    lemma_evaluate_is_fold_point(table, challenges);
}

/// Completeness: the honest prover's messages for the true sum of a table,
/// replayed from the same transcript state, yield the prover's own challenges
/// and are accepted.
pub proof fn lemma_honest_proof_verifies<T: ProofTranscript>(
    entries: Seq<TranscriptEntry>,
    table: Seq<nat>,
    variables: nat,
)
    requires
        all_canonical(table),
        table.len() == pow2(variables),
    ensures
        ({
            let bound = entries + statement_entries(table, variables, field_sum(table));
            let (after, folded, messages, challenges) = prover_rounds::<T>(bound, table, variables);
            &&& absorb_rounds::<T>(bound, messages, messages.len()) == (after, challenges)
            &&& verify_outcome(table, field_sum(table), messages, folded[0], challenges) == Ok::<(), crate::sumcheck::VerifyError>(())
        }),
{
    lemma_honest_replay::<T>(entries + statement_entries(table, variables, field_sum(table)), table, variables);
}

/// The round line `line_at(g0, g1, x)` is `g0 + x·(g1 - g0)` reduced modulo
/// the field order.
pub proof fn lemma_line_at_is_line(g0: nat, g1: nat, x: nat)
    requires
        g0 < modulus(),
    ensures
        line_at(g0, g1, x) as int == (g0 as int + (x as int) * (g1 as int - g0 as int)) % (modulus() as int),
{
    let p = modulus() as int;
    let d = g1 as int - g0 as int;
    vstd::arithmetic::div_mod::lemma_mod_bound(d, p);
    vstd::arithmetic::div_mod::lemma_mul_mod_noop_right(x as int, d, p);
    vstd::arithmetic::div_mod::lemma_add_mod_noop_right(g0 as int, (x as int) * d, p);
    assert(fsub(g1, g0) as int == d % p);
    assert(fmul(x, fsub(g1, g0)) as int == ((x as int) * (d % p)) % p);
}

/// The claim a round of the plain verifier must match: the claimed sum for
/// the first round, the previous round's line at its challenge after that.
pub open spec fn round_target(claimed_sum: nat, messages: Seq<(nat, nat)>, challenges: Seq<nat>, i: int) -> int {
    if i == 0 {
        claimed_sum as int
    } else {
        let m = messages[i - 1];
        (m.0 as int + (challenges[i - 1] as int) * (m.1 as int - m.0 as int)) % (modulus() as int)
    }
}

/// Accepted rounds each sum to the claim before them, and the running claim
/// after them is the last round's line at its challenge.
pub proof fn lemma_check_rounds_each(
    claimed_sum: nat,
    messages: Seq<(nat, nat)>,
    challenges: Seq<nat>,
    count: nat,
)
    requires
        count <= messages.len(),
        claimed_sum < modulus(),
        forall|i: int| 0 <= i < messages.len() ==> (#[trigger] messages[i]).0 < modulus(),
        check_rounds(claimed_sum, messages, challenges, count) is Ok,
    ensures
        forall|i: int|
            0 <= i < count ==> ((#[trigger] messages[i]).0 as int + messages[i].1 as int) % (modulus() as int) == round_target(
                claimed_sum,
                messages,
                challenges,
                i,
            ),
        check_rounds(claimed_sum, messages, challenges, count) == Ok::<nat, crate::sumcheck::VerifyError>(
            round_target(claimed_sum, messages, challenges, count as int) as nat,
        ),
    decreases count,
{
    if count > 0 {
        let k = (count - 1) as nat;
        if check_rounds(claimed_sum, messages, challenges, k) is Err {
            assert(check_rounds(claimed_sum, messages, challenges, count) is Err);
        }
        lemma_check_rounds_each(claimed_sum, messages, challenges, k);
        let m = messages[k as int];
        lemma_line_at_is_line(m.0, m.1, challenges[k as int]);
        vstd::arithmetic::div_mod::lemma_mod_bound(
            m.0 as int + (challenges[k as int] as int) * (m.1 as int - m.0 as int),
            modulus() as int,
        );
    }
}

/// Soundness of the plain verifier's checks: an accepted proof has every
/// round summing to the claim before it, a final evaluation equal to the last
/// round's line at its challenge (to the claimed sum when there are no
/// rounds), and that final evaluation is the table's extension at the
/// challenges.
pub proof fn lemma_accepted_proof_closes_rounds(
    table: Seq<nat>,
    claimed_sum: nat,
    messages: Seq<(nat, nat)>,
    final_evaluation: nat,
    challenges: Seq<nat>,
)
    requires
        claimed_sum < modulus(),
        forall|i: int| 0 <= i < messages.len() ==> (#[trigger] messages[i]).0 < modulus(),
        verify_outcome(table, claimed_sum, messages, final_evaluation, challenges) is Ok,
    ensures
        forall|i: int|
            0 <= i < messages.len() ==> ((#[trigger] messages[i]).0 as int + messages[i].1 as int) % (modulus() as int)
                == round_target(claimed_sum, messages, challenges, i),
        final_evaluation as int == round_target(claimed_sum, messages, challenges, messages.len() as int),
        evaluate_table(table, challenges) == final_evaluation,
{
    lemma_check_rounds_each(claimed_sum, messages, challenges, messages.len());
}

} // verus!
