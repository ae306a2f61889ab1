//! Transcript-bound product and rational permutation fingerprints.
use vstd::prelude::*;
use vstd::string::StringSliceAdditionalSpecFns;
use crate::field::{fadd, field_inverse, field_sum, fmul, scalar_bytes, scalars_view, u64_le_bytes, Scalar};
use crate::arith::pow2;
use crate::transcript::{
    challenge_entry, dom_sep_label, lemma_ascii_label, message_entry, modulus_le_bytes, ProofTranscript,
    TranscriptEntry,
};
use crate::field::{le_nat, modulus};

verus! {

#[derive(Clone, Copy, Debug, PartialEq, Eq, Structural)]
pub enum Error {
    LengthMismatch,
    Pole,
}

/// A column of values, each carrying a tag that records its position.
#[derive(Clone, Copy, Debug)]
pub struct TaggedColumn<'a> {
    pub values: &'a [Scalar],
    pub tags: &'a [Scalar],
}

impl<'a> TaggedColumn<'a> {
    /// The `(value, tag)` pairs, as far as both lists reach.
    pub open spec fn pairs(self) -> Seq<(nat, nat)> {
        Seq::new(
            if self.values@.len() <= self.tags@.len() {
                self.values@.len()
            } else {
                self.tags@.len()
            },
            |i: int| (self.values@[i]@, self.tags@[i]@),
        )
    }

    fn validate(&self) -> (r: Result<(), Error>)
        ensures
            r is Ok <==> self.values@.len() == self.tags@.len(),
            r is Err ==> r == Err::<(), Error>(Error::LengthMismatch),
    {
        if self.values.len() != self.tags.len() {
            return Err(Error::LengthMismatch);
        }
        Ok(())
    }
}

/// The product of a sequence of field elements.
pub open spec fn field_product(values: Seq<nat>) -> nat
    decreases values.len(),
{
    if values.len() == 0 {
        1
    } else {
        fmul(field_product(values.drop_last()), values.last())
    }
}

/// The sum of the inverses, or a pole when some element is zero.
pub open spec fn inverse_sum(values: Seq<nat>) -> Result<nat, Error>
    decreases values.len(),
{
    if values.len() == 0 {
        Ok(0)
    } else {
        match inverse_sum(values.drop_last()) {
            Err(error) => Err(error),
            Ok(sum) => if values.last() == 0 {
                Err(Error::Pole)
            } else {
                Ok(fadd(sum, field_inverse(values.last())))
            },
        }
    }
}

/// Each pair compressed to `value + β·tag + γ`.
pub open spec fn compress(pairs: Seq<(nat, nat)>, beta: nat, gamma: nat) -> Seq<nat> {
    pairs.map_values(|pair: (nat, nat)| fadd(fadd(pair.0, fmul(beta, pair.1)), gamma))
}

/// The messages binding one side of the statement: its side label and then
/// every value and tag.
pub open spec fn column_entries(side: Seq<u8>, pairs: Seq<(nat, nat)>) -> Seq<TranscriptEntry>
    decreases pairs.len(),
{
    if pairs.len() == 0 {
        seq![message_entry("column-side".spec_bytes(), side)]
    } else {
        column_entries(side, pairs.drop_last()) + seq![
            message_entry("column-value".spec_bytes(), scalar_bytes(pairs.last().0)),
            message_entry("column-tag".spec_bytes(), scalar_bytes(pairs.last().1)),
        ]
    }
}

/// What binding both columns appends before `β` is drawn.
pub open spec fn permcheck_statement_entries(left: Seq<(nat, nat)>, right: Seq<(nat, nat)>) -> Seq<TranscriptEntry> {
    seq![
        message_entry(dom_sep_label(), "snark-lab/permcheck/v1".spec_bytes()),
        message_entry("field-modulus".spec_bytes(), modulus_le_bytes()),
        message_entry("column-length".spec_bytes(), u64_le_bytes(left.len() as u64)),
    ] + column_entries("left".spec_bytes(), left) + column_entries("right".spec_bytes(), right)
}

/// The transcript after binding both columns and drawing `β` and `γ`, and
/// the two challenges.
pub open spec fn permcheck_challenges<T: ProofTranscript>(
    entries: Seq<TranscriptEntry>,
    left: Seq<(nat, nat)>,
    right: Seq<(nat, nat)>,
) -> (Seq<TranscriptEntry>, nat, nat) {
    let bound = entries + permcheck_statement_entries(left, right);
    let beta_bytes = T::challenge_output(bound, "beta".spec_bytes());
    let after_beta = bound.push(challenge_entry("beta".spec_bytes(), beta_bytes));
    let gamma_bytes = T::challenge_output(after_beta, "gamma".spec_bytes());
    (
        after_beta.push(challenge_entry("gamma".spec_bytes(), gamma_bytes)),
        le_nat(beta_bytes) % modulus(),
        le_nat(gamma_bytes) % modulus(),
    )
}

/// Whether the two columns can be compared: each has a tag per value and
/// both have the same length.
pub open spec fn columns_match(left: TaggedColumn, right: TaggedColumn) -> bool {
    &&& left.values@.len() == left.tags@.len()
    &&& right.values@.len() == right.tags@.len()
    &&& left.values@.len() == right.values@.len()
}

fn append_column<T: ProofTranscript>(transcript: &mut T, side: &'static str, column: TaggedColumn)
    requires
        side.spec_bytes().len() <= u32::MAX,
        column.values@.len() == column.tags@.len(),
    ensures
        final(transcript).entries() == old(transcript).entries() + column_entries(side.spec_bytes(), column.pairs()),
{
    transcript.append_bytes("column-side", side.as_bytes());
    let mut i: usize = 0;
    while i < column.values.len()
        invariant
            i <= column.values@.len(),
            column.values@.len() == column.tags@.len(),
            transcript.entries() == old(transcript).entries() + column_entries(
                side.spec_bytes(),
                column.pairs().take(i as int),
            ),
        decreases column.values@.len() - i,
    {
        transcript.append_field_element("column-value", &column.values[i]);
        transcript.append_field_element("column-tag", &column.tags[i]);
        proof {
            let next = column.pairs().take(i + 1);
            assert(next.drop_last() =~= column.pairs().take(i as int));
            assert(next.last() == (column.values@[i as int]@, column.tags@[i as int]@));
        }
        i = i + 1;
    }
    assert(column.pairs().take(i as int) =~= column.pairs());
}

fn bind_columns<T: ProofTranscript>(left: TaggedColumn, right: TaggedColumn, transcript: &mut T) -> (r: Result<
    (Scalar, Scalar),
    Error,
>)
    ensures
        !columns_match(left, right) ==> r == Err::<(Scalar, Scalar), Error>(Error::LengthMismatch)
            && final(transcript).entries() == old(transcript).entries(),
        columns_match(left, right) ==> ({
            let (entries, beta, gamma) = permcheck_challenges::<T>(
                old(transcript).entries(),
                left.pairs(),
                right.pairs(),
            );
            &&& r matches Ok((b, g)) && b@ == beta && g@ == gamma
            &&& final(transcript).entries() == entries
        }),
{
    match left.validate() {
        Err(error) => {
            return Err(error);
        },
        Ok(()) => {},
    }
    match right.validate() {
        Err(error) => {
            return Err(error);
        },
        Ok(()) => {},
    }
    if left.values.len() != right.values.len() {
        return Err(Error::LengthMismatch);
    }
    proof {
        reveal_strlit("snark-lab/permcheck/v1");
        lemma_ascii_label("snark-lab/permcheck/v1");
        reveal_strlit("left");
        lemma_ascii_label("left");
        reveal_strlit("right");
        lemma_ascii_label("right");
    }
    transcript.append_domain_separator("snark-lab/permcheck/v1");
    transcript.append_field_modulus();
    transcript.append_u64("column-length", left.values.len() as u64);
    append_column(transcript, "left", left);
    append_column(transcript, "right", right);
    assert(transcript.entries() =~= old(transcript).entries() + permcheck_statement_entries(
        left.pairs(),
        right.pairs(),
    ));
    let beta = transcript.challenge_scalar("beta");
    let gamma = transcript.challenge_scalar("gamma");
    Ok((beta, gamma))
}

fn compressed(column: TaggedColumn, beta: Scalar, gamma: Scalar) -> (r: Vec<Scalar>)
    requires
        column.values@.len() == column.tags@.len(),
    ensures
        scalars_view(r@) == compress(column.pairs(), beta@, gamma@),
{
    let mut out: Vec<Scalar> = Vec::new();
    let mut i: usize = 0;
    while i < column.values.len()
        invariant
            i <= column.values@.len(),
            column.values@.len() == column.tags@.len(),
            scalars_view(out@) == compress(column.pairs(), beta@, gamma@).take(i as int),
        decreases column.values@.len() - i,
    {
        let value = column.values[i].add(&beta.mul(&column.tags[i])).add(&gamma);
        let ghost before = out@;
        out.push(value);
        assert(scalars_view(out@) =~= scalars_view(before).push(value@));
        i = i + 1;
        assert(scalars_view(out@) =~= compress(column.pairs(), beta@, gamma@).take(i as int));
    }
    assert(compress(column.pairs(), beta@, gamma@).take(i as int) =~= compress(column.pairs(), beta@, gamma@));
    out
}

/// The product of the scalars.
fn product_of(values: &[Scalar]) -> (r: Scalar)
    ensures
        r@ == field_product(scalars_view(values@)),
{
    let mut product = Scalar::one();
    let mut i: usize = 0;
    while i < values.len()
        invariant
            i <= values@.len(),
            product@ == field_product(scalars_view(values@.take(i as int))),
        decreases values@.len() - i,
    {
        product = product.mul(&values[i]);
        i = i + 1;
        assert(scalars_view(values@.take(i as int)).drop_last() =~= scalars_view(values@.take(i - 1)));
    }
    assert(values@.take(i as int) =~= values@);
    product
}

/// The sum of the inverses of the scalars, or a pole.
fn inverse_sum_of(values: &[Scalar]) -> (r: Result<Scalar, Error>)
    ensures
        match inverse_sum(scalars_view(values@)) {
            Ok(sum) => r matches Ok(value) && value@ == sum,
            Err(error) => r == Err::<Scalar, Error>(error),
        },
{
    let mut sum = Scalar::zero();
    let mut i: usize = 0;
    while i < values.len()
        invariant
            i <= values@.len(),
            inverse_sum(scalars_view(values@.take(i as int))) == Ok::<nat, Error>(sum@),
        decreases values@.len() - i,
    {
        assert(scalars_view(values@.take(i + 1)).drop_last() =~= scalars_view(values@.take(i as int)));
        match values[i].inverse() {
            Some(inverse) => {
                sum = sum.add(&inverse);
            },
            None => {
                proof {
                    lemma_inverse_sum_stays_failed(scalars_view(values@), (i + 1) as nat);
                    assert(scalars_view(values@).take(i + 1) =~= scalars_view(values@.take(i + 1)));
                    assert(scalars_view(values@).take(values@.len() as int) =~= scalars_view(values@));
                }
                return Err(Error::Pole);
            },
        }
        i = i + 1;
    }
    assert(values@.take(i as int) =~= values@);
    Ok(sum)
}

/// Once a prefix has a pole, every longer prefix reports it.
pub proof fn lemma_inverse_sum_stays_failed(values: Seq<nat>, failed: nat)
    requires
        failed <= values.len(),
        inverse_sum(values.take(failed as int)) is Err,
    ensures
        inverse_sum(values) == inverse_sum(values.take(failed as int)),
{
    lemma_inverse_sum_prefix_failed(values, failed, values.len());
    assert(values.take(values.len() as int) =~= values);
}

proof fn lemma_inverse_sum_prefix_failed(values: Seq<nat>, failed: nat, count: nat)
    requires
        failed <= count <= values.len(),
        inverse_sum(values.take(failed as int)) is Err,
    ensures
        inverse_sum(values.take(count as int)) == inverse_sum(values.take(failed as int)),
    decreases count,
{
    if count > failed {
        lemma_inverse_sum_prefix_failed(values, failed, (count - 1) as nat);
        assert(values.take(count as int).drop_last() =~= values.take(count - 1));
    }
}

/// Compares the products of the compressed columns at transcript-derived
/// `β` and `γ`.
pub fn product_check<T: ProofTranscript>(left: TaggedColumn, right: TaggedColumn, transcript: &mut T) -> (r: Result<
    bool,
    Error,
>)
    ensures
        !columns_match(left, right) ==> r == Err::<bool, Error>(Error::LengthMismatch)
            && final(transcript).entries() == old(transcript).entries(),
        columns_match(left, right) ==> ({
            let (entries, beta, gamma) = permcheck_challenges::<T>(
                old(transcript).entries(),
                left.pairs(),
                right.pairs(),
            );
            &&& r == Ok::<bool, Error>(
                field_product(compress(left.pairs(), beta, gamma)) == field_product(
                    compress(right.pairs(), beta, gamma),
                ),
            )
            &&& final(transcript).entries() == entries
        }),
{
    let (beta, gamma) = match bind_columns(left, right, transcript) {
        Err(error) => {
            return Err(error);
        },
        Ok(challenges) => challenges,
    };
    let left_compressed = compressed(left, beta, gamma);
    let right_compressed = compressed(right, beta, gamma);
    let left_product = product_of(left_compressed.as_slice());
    let right_product = product_of(right_compressed.as_slice());
    Ok(left_product.equals(&right_product))
}

/// Compares the sums of inverses of the compressed columns at
/// transcript-derived `β` and `γ`.
pub fn rational_check<T: ProofTranscript>(left: TaggedColumn, right: TaggedColumn, transcript: &mut T) -> (r: Result<
    bool,
    Error,
>)
    ensures
        !columns_match(left, right) ==> r == Err::<bool, Error>(Error::LengthMismatch)
            && final(transcript).entries() == old(transcript).entries(),
        columns_match(left, right) ==> ({
            let (entries, beta, gamma) = permcheck_challenges::<T>(
                old(transcript).entries(),
                left.pairs(),
                right.pairs(),
            );
            &&& r == match (inverse_sum(compress(left.pairs(), beta, gamma)), inverse_sum(
                compress(right.pairs(), beta, gamma),
            )) {
                (Err(error), _) => Err(error),
                (Ok(_), Err(error)) => Err(error),
                (Ok(l), Ok(r)) => Ok::<bool, Error>(l == r),
            }
            &&& final(transcript).entries() == entries
        }),
{
    let (beta, gamma) = match bind_columns(left, right, transcript) {
        Err(error) => {
            return Err(error);
        },
        Ok(challenges) => challenges,
    };
    let left_compressed = compressed(left, beta, gamma);
    let left_sum = match inverse_sum_of(left_compressed.as_slice()) {
        Err(error) => {
            return Err(error);
        },
        Ok(sum) => sum,
    };
    let right_compressed = compressed(right, beta, gamma);
    let right_sum = match inverse_sum_of(right_compressed.as_slice()) {
        Err(error) => {
            return Err(error);
        },
        Ok(sum) => sum,
    };
    Ok(left_sum.equals(&right_sum))
}

/// `Π (β + v)` over the values.
pub fn product_fingerprint(values: &[Scalar], beta: Scalar) -> (r: Scalar)
    ensures
        r@ == field_product(scalars_view(values@).map_values(|value: nat| fadd(beta@, value))),
{
    let mut shifted: Vec<Scalar> = Vec::new();
    let mut i: usize = 0;
    while i < values.len()
        invariant
            i <= values@.len(),
            scalars_view(shifted@) == scalars_view(values@).map_values(|value: nat| fadd(beta@, value)).take(
                i as int,
            ),
        decreases values@.len() - i,
    {
        let ghost before = shifted@;
        let value = beta.add(&values[i]);
        shifted.push(value);
        assert(scalars_view(shifted@) =~= scalars_view(before).push(value@));
        i = i + 1;
        assert(scalars_view(shifted@) =~= scalars_view(values@).map_values(|value: nat| fadd(beta@, value)).take(
            i as int,
        ));
    }
    assert(scalars_view(values@).map_values(|value: nat| fadd(beta@, value)).take(i as int) =~= scalars_view(
        values@,
    ).map_values(|value: nat| fadd(beta@, value)));
    product_of(shifted.as_slice())
}

/// `Σ 1/(β + v)` over the values, or a pole when some `β + v` is zero.
pub fn rational_fingerprint(values: &[Scalar], beta: Scalar) -> (r: Result<Scalar, Error>)
    ensures
        match inverse_sum(scalars_view(values@).map_values(|value: nat| fadd(beta@, value))) {
            Ok(sum) => r matches Ok(value) && value@ == sum,
            Err(error) => r == Err::<Scalar, Error>(error),
        },
{
    let mut shifted: Vec<Scalar> = Vec::new();
    let mut i: usize = 0;
    while i < values.len()
        invariant
            i <= values@.len(),
            scalars_view(shifted@) == scalars_view(values@).map_values(|value: nat| fadd(beta@, value)).take(
                i as int,
            ),
        decreases values@.len() - i,
    {
        let ghost before = shifted@;
        let value = beta.add(&values[i]);
        shifted.push(value);
        assert(scalars_view(shifted@) =~= scalars_view(before).push(value@));
        i = i + 1;
        assert(scalars_view(shifted@) =~= scalars_view(values@).map_values(|value: nat| fadd(beta@, value)).take(
            i as int,
        ));
    }
    assert(scalars_view(values@).map_values(|value: nat| fadd(beta@, value)).take(i as int) =~= scalars_view(
        values@,
    ).map_values(|value: nat| fadd(beta@, value)));
    inverse_sum_of(shifted.as_slice())
}

/// Estimated costs of a streaming fingerprint computation.
#[derive(Clone, Copy, Debug, PartialEq, Eq, Structural)]
pub struct StreamEstimate {
    pub elements: usize,
    pub field_ops: usize,
    pub peak_field_elements: usize,
    pub passes: usize,
    pub bytes_read: usize,
    pub bytes_written: usize,
}

/// The least `k` with `2^k ≥ n`.
pub open spec fn ceil_log2(n: nat) -> nat
    decreases n,
{
    if n <= 1 {
        0
    } else {
        1 + ceil_log2((n + 1) / 2)
    }
}

/// The number of levels of a binary product tree over `n` leaves.
fn tree_levels(n: usize) -> (r: usize)
    requires
        1 <= n <= pow2((usize::BITS - 1) as nat),
    ensures
        r == ceil_log2(n as nat),
        r < usize::BITS,
{
    let mut levels: usize = 0;
    let mut width: usize = n;
    while width > 1
        invariant
            1 <= width <= n,
            levels + ceil_log2(width as nat) == ceil_log2(n as nat),
            levels < usize::BITS,
            width as nat <= pow2((usize::BITS - 1 - levels) as nat),
        decreases width,
    {
        let ghost k = (usize::BITS - 1 - levels) as nat;
        assert(k >= 1) by {
            if k == 0 {
                assert(pow2(0) == 1);
            }
        }
        assert(pow2(k) == 2 * pow2((k - 1) as nat));
        let ghost before = width;
        width = width / 2 + width % 2;
        assert(width == (before + 1) / 2);
        levels = levels + 1;
    }
    levels
}

/// Cost of a binary product tree over `elements` field elements of
/// `field_bytes` bytes.
pub fn estimate_product_tree(elements: usize, field_bytes: usize) -> (r: StreamEstimate)
    requires
        elements <= pow2((usize::BITS - 1) as nat),
        elements * field_bytes * (ceil_log2(if elements == 0 { 1 } else { elements as nat }) + 1) <= usize::MAX,
    ensures
        ({
            let levels = ceil_log2(if elements == 0 { 1 } else { elements as nat });
            r == StreamEstimate {
                elements,
                field_ops: if elements == 0 { 0 } else { (elements - 1) as usize },
                peak_field_elements: elements,
                passes: (levels + 1) as usize,
                bytes_read: (elements * field_bytes * (levels + 1)) as usize,
                bytes_written: (elements * field_bytes * levels) as usize,
            }
        }),
{
    let leaves = if elements == 0 { 1 } else { elements };
    proof {
        crate::arith::lemma_pow2_positive((usize::BITS - 1) as nat);
    }
    let levels = tree_levels(leaves);
    let field_ops = if elements == 0 { 0 } else { elements - 1 };
    assert(elements * field_bytes <= elements * field_bytes * (levels + 1)) by (nonlinear_arith)
        requires
            levels + 1 >= 1,
    ;
    assert(elements * field_bytes * levels <= elements * field_bytes * (levels + 1)) by (nonlinear_arith);
    let per_pass = elements * field_bytes;
    StreamEstimate {
        elements,
        field_ops,
        peak_field_elements: elements,
        passes: levels + 1,
        bytes_read: per_pass * (levels + 1),
        bytes_written: per_pass * levels,
    }
}

/// Cost of a single streaming pass of inverse accumulation.
pub fn estimate_rational_stream(elements: usize, field_bytes: usize) -> (r: StreamEstimate)
    requires
        elements * 2 <= usize::MAX,
        elements * field_bytes <= usize::MAX,
    ensures
        r == (StreamEstimate {
            elements,
            field_ops: (elements * 2) as usize,
            peak_field_elements: 3,
            passes: 1,
            bytes_read: (elements * field_bytes) as usize,
            bytes_written: 0,
        }),
{
    StreamEstimate {
        elements,
        field_ops: elements * 2,
        peak_field_elements: 3,
        passes: 1,
        bytes_read: elements * field_bytes,
        bytes_written: 0,
    }
}

/// Taking one element out of a product: `Π t = (Π t without t_j)·t_j`.
pub proof fn lemma_product_remove(values: Seq<nat>, j: int)
    requires
        0 <= j < values.len(),
    ensures
        field_product(values) == fmul(field_product(values.remove(j)), values[j]),
    decreases values.len(),
{
    let rest = values.drop_last();
    if j == values.len() - 1 {
        assert(values.remove(j) =~= rest);
    } else {
        lemma_product_remove(rest, j);
        assert(values.remove(j).drop_last() =~= rest.remove(j));
        assert(values.remove(j).last() == values.last());
        crate::field_laws::lemma_mul_swap(field_product(rest.remove(j)), rest[j], values.last());
    }
}

/// What adding one more element does to a sum of inverses.
pub open spec fn add_inverse(sum: Result<nat, Error>, value: nat) -> Result<nat, Error> {
    match sum {
        Err(error) => Err(error),
        Ok(sum) => if value == 0 {
            Err(Error::Pole)
        } else {
            Ok(fadd(sum, field_inverse(value)))
        },
    }
}

/// Taking one element out of a sum of inverses.
pub proof fn lemma_inverse_sum_remove(values: Seq<nat>, j: int)
    requires
        0 <= j < values.len(),
    ensures
        inverse_sum(values) == add_inverse(inverse_sum(values.remove(j)), values[j]),
    decreases values.len(),
{
    let rest = values.drop_last();
    if j == values.len() - 1 {
        assert(values.remove(j) =~= rest);
    } else {
        lemma_inverse_sum_remove(rest, j);
        assert(values.remove(j).drop_last() =~= rest.remove(j));
        assert(values.remove(j).last() == values.last());
        match inverse_sum(rest.remove(j)) {
            Err(_) => {},
            Ok(sum) => {
                crate::field_laws::lemma_add_swap_last(
                    sum,
                    field_inverse(rest[j]),
                    field_inverse(values.last()),
                );
            },
        }
    }
}

/// Compressing commutes with removing a pair.
proof fn lemma_compress_remove(pairs: Seq<(nat, nat)>, j: int, beta: nat, gamma: nat)
    requires
        0 <= j < pairs.len(),
    ensures
        compress(pairs.remove(j), beta, gamma) == compress(pairs, beta, gamma).remove(j),
        compress(pairs, beta, gamma)[j] == fadd(fadd(pairs[j].0, fmul(beta, pairs[j].1)), gamma),
{
    assert(compress(pairs.remove(j), beta, gamma) =~= compress(pairs, beta, gamma).remove(j));
}

/// Columns whose `(value, tag)` pairs are a rearrangement of each other have
/// the same product and the same sum of inverses after compression, at every
/// `β` and `γ`: a permutation always passes both checks.
pub proof fn lemma_permuted_columns_agree(left: Seq<(nat, nat)>, right: Seq<(nat, nat)>, beta: nat, gamma: nat)
    requires
        left.to_multiset() == right.to_multiset(),
    ensures
        field_product(compress(left, beta, gamma)) == field_product(compress(right, beta, gamma)),
        inverse_sum(compress(left, beta, gamma)) == inverse_sum(compress(right, beta, gamma)),
    decreases left.len(),
{
    broadcast use vstd::seq_lib::group_to_multiset_ensures;

    if left.len() == 0 {
        assert(right.to_multiset().len() == 0);
        assert(right.len() == 0);
        assert(compress(left, beta, gamma) =~= seq![]);
        assert(compress(right, beta, gamma) =~= seq![]);
    } else {
        let x = left.last();
        let rest = left.drop_last();
        assert(left =~= rest.push(x));
        assert(left.to_multiset() == rest.to_multiset().insert(x));
        assert(right.to_multiset().count(x) > 0);
        assert(right.contains(x));
        let j = choose|j: int| 0 <= j < right.len() && right[j] == x;
        assert(right.remove(j).to_multiset() == right.to_multiset().remove(x));
        assert(rest.to_multiset() =~= right.remove(j).to_multiset());
        lemma_permuted_columns_agree(rest, right.remove(j), beta, gamma);
        lemma_compress_remove(right, j, beta, gamma);
        lemma_product_remove(compress(right, beta, gamma), j);
        lemma_inverse_sum_remove(compress(right, beta, gamma), j);
        assert(compress(left, beta, gamma).drop_last() =~= compress(rest, beta, gamma));
    }
}

} // verus!
