//! Dense multilinear extensions in little-endian Boolean-cube order.
use vstd::prelude::*;
use crate::arith::{checked_log2, exact_log2, pow2};
use crate::field::{fadd, field_sum, fmul, fsub, modulus, scalars_view, Scalar};
use crate::field_laws::{
    lemma_add_assoc, lemma_complement_sum, lemma_distribute_right, lemma_field_sum_canonical,
    lemma_ops_canonical,
};

verus! {

/// Folds adjacent pairs `(t[2i], t[2i+1])` into `t[2i]·(1-r) + t[2i+1]·r`.
pub open spec fn fold_pairs(table: Seq<nat>, r: nat) -> Seq<nat> {
    Seq::new(
        table.len() / 2,
        |i: int| fadd(fmul(table[2 * i], fsub(1, r)), fmul(table[2 * i + 1], r)),
    )
}

/// The multilinear extension of `table` at `point`, the first coordinate
/// binding the least significant index bit.
pub open spec fn evaluate_table(table: Seq<nat>, point: Seq<nat>) -> nat
    decreases point.len(),
{
    if point.len() == 0 {
        table[0]
    } else {
        evaluate_table(fold_pairs(table, point[0]), point.drop_first())
    }
}

/// `eq(point, x) = Π_i (r_i x_i + (1 - r_i)(1 - x_i))` for every `x` of the
/// cube, indexed with the first coordinate as the most significant bit.
pub open spec fn eq_table(point: Seq<nat>) -> Seq<nat>
    decreases point.len(),
{
    if point.len() == 0 {
        seq![1nat]
    } else {
        let previous = eq_table(point.drop_last());
        let r = point.last();
        Seq::new(
            2 * previous.len(),
            |i: int|
                if i % 2 == 0 {
                    fmul(previous[i / 2], fsub(1, r))
                } else {
                    fmul(previous[i / 2], r)
                },
        )
    }
}

/// A multilinear polynomial given by its evaluations on the Boolean cube.
#[derive(Debug, PartialEq, Eq)]
pub struct Multilinear {
    evaluations: Vec<Scalar>,
    variables: usize,
}

impl View for Multilinear {
    type V = Seq<nat>;

    closed spec fn view(&self) -> Seq<nat> {
        scalars_view(self.evaluations@)
    }
}

impl Clone for Multilinear {
    fn clone(&self) -> (r: Multilinear)
        ensures
            r@ == self@,
            r.table() == self.table(),
            r.num_variables() == self.num_variables(),
    {
        proof {
            use_type_invariant(self);
        }
        let evaluations = self.evaluations.clone();
        assert(evaluations@ == self.evaluations@);
        Multilinear { evaluations, variables: self.variables }
    }
}

impl Multilinear {
    #[verifier::type_invariant]
    spec fn well_formed(self) -> bool {
        &&& self.evaluations@.len() == pow2(self.variables as nat)
        &&& self.variables < 64
    }

    /// The number of variables.
    pub closed spec fn num_variables(self) -> nat {
        self.variables as nat
    }

    /// The evaluation table as scalars.
    pub closed spec fn table(self) -> Seq<Scalar> {
        self.evaluations@
    }

    pub proof fn lemma_view(self)
        ensures
            self@ == scalars_view(self.table()),
    {
    }

    pub fn new(evaluations: Vec<Scalar>) -> (r: Result<Multilinear, &'static str>)
        ensures
            r is Ok <==> exact_log2(evaluations@.len()) is Some,
            r matches Ok(m) ==> m.table() == evaluations@ && m@ == scalars_view(evaluations@)
                && exact_log2(evaluations@.len()) == Some(m.num_variables())
                && evaluations@.len() == pow2(m.num_variables()),
            r matches Err(message) ==> message@ == "evaluation count must be a non-zero power of two"@,
    {
        match checked_log2(evaluations.len()) {
            Some(variables) => {
                proof {
                    crate::arith::lemma_pow2_bound(variables as nat);
                }
                Ok(Multilinear { evaluations, variables })
            },
            None => Err("evaluation count must be a non-zero power of two"),
        }
    }

    pub fn evaluations(&self) -> (r: &[Scalar])
        ensures
            r@ == self.table(),
            scalars_view(r@) == self@,
            r@.len() == pow2(self.num_variables()),
            self.num_variables() < 64,
    {
        proof {
            use_type_invariant(self);
        }
        self.evaluations.as_slice()
    }

    pub fn variables(&self) -> (r: usize)
        ensures
            r == self.num_variables(),
            self@.len() == pow2(self.num_variables()),
            r < 64,
    {
        proof {
            use_type_invariant(self);
        }
        self.variables
    }

    /// The sum of the evaluations over the Boolean cube.
    pub fn sum_hypercube(&self) -> (r: Scalar)
        ensures
            r@ == field_sum(self@),
    {
        let mut sum = Scalar::zero();
        let mut i: usize = 0;
        while i < self.evaluations.len()
            invariant
                i <= self.evaluations@.len(),
                sum@ == field_sum(scalars_view(self.evaluations@.take(i as int))),
            decreases self.evaluations@.len() - i,
        {
            proof {
                assert(scalars_view(self.evaluations@.take(i + 1)).drop_last() =~= scalars_view(
                    self.evaluations@.take(i as int),
                ));
            }
            sum = sum.add(&self.evaluations[i]);
            i = i + 1;
        }
        assert(self.evaluations@.take(i as int) =~= self.evaluations@);
        sum
    }

    /// Evaluates the multilinear extension at `point`.
    pub fn evaluate(&self, point: &[Scalar]) -> (r: Result<Scalar, &'static str>)
        ensures
            r is Ok <==> point@.len() == self.num_variables(),
            r matches Ok(value) ==> value@ == evaluate_table(self@, scalars_view(point@)),
            r matches Err(message) ==> message@ == "point dimension mismatch"@,
    {
        proof {
            use_type_invariant(self);
        }
        if point.len() != self.variables {
            return Err("point dimension mismatch");
        }
        let mut layer = self.evaluations.clone();
        assert(layer@ == self.evaluations@);
        let mut k: usize = 0;
        assert(scalars_view(point@).skip(0) =~= scalars_view(point@));
        while k < point.len()
            invariant
                k <= point@.len(),
                layer@.len() == pow2((point@.len() - k) as nat),
                evaluate_table(self@, scalars_view(point@)) == evaluate_table(
                    scalars_view(layer@),
                    scalars_view(point@).skip(k as int),
                ),
            decreases point@.len() - k,
        {
            proof {
                assert(pow2((point@.len() - k) as nat) == 2 * pow2((point@.len() - k - 1) as nat));
                assert(scalars_view(point@).skip(k as int).drop_first() =~= scalars_view(point@).skip(k + 1));
            }
            layer = fold_layer(&layer, &point[k]);
            k = k + 1;
        }
        proof {
            crate::arith::lemma_pow2_positive(0);
        }
        Ok(layer[0])
    }

    /// Fixes the first variable to `challenge`.
    pub fn fold_first(&self, challenge: Scalar) -> (r: Multilinear)
        requires
            self.num_variables() >= 1,
        ensures
            r@ == fold_pairs(self@, challenge@),
            r.num_variables() == self.num_variables() - 1,
    {
        proof {
            use_type_invariant(self);
            assert(pow2(self.variables as nat) == 2 * pow2((self.variables - 1) as nat));
        }
        let folded = fold_layer(&self.evaluations, &challenge);
        Multilinear { evaluations: folded, variables: self.variables - 1 }
    }
}

/// Folds adjacent pairs of a table at `challenge`.
fn fold_layer(table: &Vec<Scalar>, challenge: &Scalar) -> (r: Vec<Scalar>)
    ensures
        scalars_view(r@) == fold_pairs(scalars_view(table@), challenge@),
        r@.len() == table@.len() / 2,
{
    let one = Scalar::one();
    let complement = one.sub(challenge);
    let length = table.len();
    let half = length / 2;
    let mut next: Vec<Scalar> = Vec::new();
    let mut i: usize = 0;
    while i < half
        invariant
            i <= half,
            length == table@.len(),
            half == length / 2,
            complement@ == fsub(1, challenge@),
            next@.len() == i,
            forall|k: int|
                0 <= k < i ==> (#[trigger] next@[k])@ == fadd(
                    fmul(table@[2 * k]@, fsub(1, challenge@)),
                    fmul(table@[2 * k + 1]@, challenge@),
                ),
        decreases half - i,
    {
        assert(2 * i + 1 < table@.len());
        let low = table[2 * i].mul(&complement);
        let high = table[2 * i + 1].mul(challenge);
        next.push(low.add(&high));
        i = i + 1;
    }
    assert(scalars_view(next@) =~= fold_pairs(scalars_view(table@), challenge@));
    next
}

/// `eq(r, x) = Π_i (r_i x_i + (1-r_i)(1-x_i))` over the cube.
pub fn eq_evaluations(point: &[Scalar]) -> (r: Vec<Scalar>)
    requires
        pow2(point@.len()) <= usize::MAX,
    ensures
        scalars_view(r@) == eq_table(scalars_view(point@)),
        r@.len() == pow2(point@.len()),
{
    let one = Scalar::one();
    let mut values: Vec<Scalar> = vec![one];
    let mut k: usize = 0;
    assert(scalars_view(values@) =~= eq_table(scalars_view(point@).take(0)));
    while k < point.len()
        invariant
            k <= point@.len(),
            pow2(point@.len()) <= usize::MAX,
            scalars_view(values@) == eq_table(scalars_view(point@).take(k as int)),
            values@.len() == pow2(k as nat),
        decreases point@.len() - k,
    {
        let r = point[k];
        let complement = Scalar::one().sub(&r);
        let mut next: Vec<Scalar> = Vec::new();
        let mut j: usize = 0;
        proof {
            crate::arith::lemma_pow2_monotone((k + 1) as nat, point@.len());
        }
        while j < values.len()
            invariant
                j <= values@.len(),
                values@.len() == pow2(k as nat),
                2 * pow2(k as nat) <= usize::MAX,
                complement@ == fsub(1, r@),
                next@.len() == 2 * j,
                forall|i: int|
                    0 <= i < next@.len() ==> (#[trigger] next@[i])@ == (if i % 2 == 0 {
                        fmul(values@[i / 2]@, fsub(1, r@))
                    } else {
                        fmul(values@[i / 2]@, r@)
                    }),
            decreases values@.len() - j,
        {
            let value = values[j];
            next.push(value.mul(&complement));
            next.push(value.mul(&r));
            j = j + 1;
        }
        proof {
            let prefix = scalars_view(point@).take(k + 1);
            assert(prefix.drop_last() =~= scalars_view(point@).take(k as int));
            assert(scalars_view(next@) =~= eq_table(prefix));
        }
        values = next;
        k = k + 1;
    }
    assert(scalars_view(point@).take(point@.len() as int) =~= scalars_view(point@));
    values
}

/// Every entry of a sequence is a canonical field representative.
pub open spec fn all_canonical(values: Seq<nat>) -> bool {
    forall|i: int| 0 <= i < values.len() ==> values[i] < modulus()
}

/// The views of scalars are canonical representatives.
pub proof fn lemma_scalars_canonical(values: Seq<Scalar>)
    ensures
        all_canonical(scalars_view(values)),
{
    assert forall|i: int| 0 <= i < scalars_view(values).len() implies scalars_view(values)[i] < modulus() by {
        vstd::arithmetic::div_mod::lemma_mod_bound(values[i].value() as int, modulus() as int);
    }
}

/// Each entry `v` of `values` replaced by the pair `v·x, v·y`.
pub open spec fn interleave(values: Seq<nat>, x: nat, y: nat) -> Seq<nat> {
    Seq::new(
        2 * values.len(),
        |i: int| if i % 2 == 0 { fmul(values[i / 2], x) } else { fmul(values[i / 2], y) },
    )
}

/// Splitting every entry into shares `x` and `y` scales the sum by `x + y`.
pub proof fn lemma_sum_interleave(values: Seq<nat>, x: nat, y: nat)
    requires
        all_canonical(values),
        x < modulus(),
        y < modulus(),
    ensures
        field_sum(interleave(values, x, y)) == fmul(field_sum(values), fadd(x, y)),
    decreases values.len(),
{
    let t = interleave(values, x, y);
    if values.len() == 0 {
        assert(t.len() == 0);
        assert(field_sum(t) == 0);
        assert(field_sum(values) == 0);
        assert(fmul(0, fadd(x, y)) == 0);
    } else {
        let rest = values.drop_last();
        let last = values.last();
        assert(t.drop_last().drop_last() =~= interleave(rest, x, y));
        lemma_sum_interleave(rest, x, y);
        let a = field_sum(rest);
        let s = fadd(x, y);
        lemma_field_sum_canonical(rest);
        lemma_ops_canonical(a, s);
        lemma_ops_canonical(last, x);
        lemma_ops_canonical(last, y);
        lemma_ops_canonical(x, y);
        assert(t[2 * values.len() - 2] == fmul(last, x));
        assert(t[2 * values.len() - 1] == fmul(last, y));
        lemma_add_assoc(fmul(a, s), fmul(last, x), fmul(last, y));
        lemma_distribute_right(x, y, last);
        assert(fmul(x, last) == fmul(last, x));
        assert(fmul(y, last) == fmul(last, y));
        assert(fmul(fadd(x, y), last) == fmul(last, fadd(x, y)));
        lemma_distribute_right(a, last, s);
        assert(field_sum(t.drop_last()) == fadd(fmul(a, s), fmul(last, x)));
        assert(field_sum(t) == fadd(fadd(fmul(a, s), fmul(last, x)), fmul(last, y)));
        assert(field_sum(values) == fadd(a, last));
        assert(fadd(fmul(last, x), fmul(last, y)) == fmul(last, s));
    }
}

/// Every entry of the equality table is canonical.
pub proof fn lemma_eq_table_canonical(point: Seq<nat>)
    ensures
        all_canonical(eq_table(point)),
        eq_table(point).len() == crate::arith::pow2(point.len()),
    decreases point.len(),
{
    if point.len() > 0 {
        lemma_eq_table_canonical(point.drop_last());
        let previous = eq_table(point.drop_last());
        assert forall|i: int| 0 <= i < eq_table(point).len() implies eq_table(point)[i] < modulus() by {
            lemma_ops_canonical(previous[i / 2], fsub(1, point.last()));
            lemma_ops_canonical(previous[i / 2], point.last());
        }
    } else {
        assert(1nat < modulus());
    }
}

/// The equality table of any point sums to one.
pub proof fn lemma_eq_table_sums_to_one(point: Seq<nat>)
    requires
        all_canonical(point),
    ensures
        field_sum(eq_table(point)) == 1,
    decreases point.len(),
{
    if point.len() == 0 {
        let table = eq_table(point);
        assert(table == seq![1nat]);
        assert(table.drop_last().len() == 0);
        assert(field_sum(table.drop_last()) == 0);
        assert(fadd(0, 1) == 1);
        assert(field_sum(table) == fadd(field_sum(table.drop_last()), table.last()));
    } else {
        let previous = eq_table(point.drop_last());
        let r = point.last();
        lemma_eq_table_sums_to_one(point.drop_last());
        lemma_eq_table_canonical(point.drop_last());
        lemma_ops_canonical(1, r);
        assert(eq_table(point) =~= interleave(previous, fsub(1, r), r));
        lemma_sum_interleave(previous, fsub(1, r), r);
        lemma_complement_sum(r);
        assert(fmul(1, 1) == 1);
    }
}

/// The corner of the Boolean cube with little-endian index `index`: its first
/// coordinate is the least significant bit.
pub open spec fn cube_point(index: nat, variables: nat) -> Seq<nat>
    decreases variables,
{
    if variables == 0 {
        Seq::empty()
    } else {
        seq![index % 2] + cube_point(index / 2, (variables - 1) as nat)
    }
}

/// The extension interpolates its table: at the cube corner with index `i`
/// it takes the value `table[i]`.
pub proof fn lemma_extension_interpolates(table: Seq<nat>, variables: nat, index: nat)
    requires
        table.len() == pow2(variables),
        index < pow2(variables),
        all_canonical(table),
    ensures
        evaluate_table(table, cube_point(index, variables)) == table[index as int],
    decreases variables,
{
    if variables > 0 {
        let bit = index % 2;
        let folded = fold_pairs(table, bit);
        let point = cube_point(index, variables);
        assert(point[0] == bit);
        assert(point.drop_first() =~= cube_point(index / 2, (variables - 1) as nat));
        assert(fsub(1, 0) == 1 && fsub(1, 1) == 0) by {
            assert(modulus() > 1);
        }
        assert forall|j: int| 0 <= j < folded.len() implies #[trigger] folded[j] == table[2 * j + bit] by {
            let even = table[2 * j];
            let odd = table[2 * j + 1];
            vstd::arithmetic::div_mod::lemma_small_mod(even, modulus());
            vstd::arithmetic::div_mod::lemma_small_mod(odd, modulus());
            if bit == 0 {
                assert(fmul(even, 1) == even);
                assert(fmul(odd, 0) == 0);
                assert(fadd(even, 0) == even);
            } else {
                assert(fmul(even, 0) == 0);
                assert(fmul(odd, 1) == odd);
                assert(fadd(0, odd) == odd);
            }
        }
        assert(folded.len() == pow2((variables - 1) as nat));
        assert(all_canonical(folded));
        lemma_extension_interpolates(folded, (variables - 1) as nat, index / 2);
        assert(folded[(index / 2) as int] == table[index as int]);
    }
}

} // verus!
