//! Univariate round polynomials in dense coefficient form.
use vstd::prelude::*;
use crate::field::{fadd, fmul, fsub, scalars_view, Scalar};

verus! {

/// The degree of a coefficient sequence: the highest index holding a nonzero
/// coefficient, or zero when there is none.
pub open spec fn poly_degree(coefficients: Seq<nat>) -> nat
    decreases coefficients.len(),
{
    if coefficients.len() == 0 {
        0
    } else if coefficients.last() != 0 {
        (coefficients.len() - 1) as nat
    } else {
        poly_degree(coefficients.drop_last())
    }
}

/// `c_0 + x·(c_1 + x·(c_2 + …))` over the field.
pub open spec fn horner(coefficients: Seq<nat>, x: nat) -> nat
    decreases coefficients.len(),
{
    if coefficients.len() == 0 {
        0
    } else {
        fadd(fmul(horner(coefficients.drop_first(), x), x), coefficients[0])
    }
}

/// The sum of the values at zero and at one.
pub open spec fn boolean_sum_of(coefficients: Seq<nat>) -> nat {
    fadd(horner(coefficients, 0), horner(coefficients, 1))
}

/// A polynomial `c_0 + c_1·X + … + c_d·X^d`.
#[derive(Clone, Debug, PartialEq, Eq)]
pub struct DenseRoundPolynomial {
    pub coefficients: Vec<Scalar>,
}

impl View for DenseRoundPolynomial {
    type V = Seq<nat>;

    open spec fn view(&self) -> Seq<nat> {
        scalars_view(self.coefficients@)
    }
}

impl DenseRoundPolynomial {
    pub fn new(coefficients: Vec<Scalar>) -> (r: DenseRoundPolynomial)
        ensures
            r.coefficients@ == coefficients@,
    {
        DenseRoundPolynomial { coefficients }
    }

    pub fn constant(value: Scalar) -> (r: DenseRoundPolynomial)
        ensures
            r.coefficients@ == seq![value],
    {
        DenseRoundPolynomial { coefficients: vec![value] }
    }

    /// The line through `(0, evaluation_at_zero)` and `(1, evaluation_at_one)`.
    pub fn linear(evaluation_at_zero: Scalar, evaluation_at_one: Scalar) -> (r: DenseRoundPolynomial)
        ensures
            r@ == seq![evaluation_at_zero@, fsub(evaluation_at_one@, evaluation_at_zero@)],
    {
        let slope = evaluation_at_one.sub(&evaluation_at_zero);
        let r = DenseRoundPolynomial { coefficients: vec![evaluation_at_zero, slope] };
        assert(r@ =~= seq![evaluation_at_zero@, fsub(evaluation_at_one@, evaluation_at_zero@)]);
        r
    }

    pub fn degree(&self) -> (r: usize)
        ensures
            r == poly_degree(self@),
    {
        let mut length = self.coefficients.len();
        assert(self@.take(length as int) =~= self@);
        while length > 0
            invariant
                length <= self.coefficients@.len(),
                poly_degree(self@) == poly_degree(self@.take(length as int)),
            decreases length,
        {
            if !self.coefficients[length - 1].is_zero() {
                assert(self@.take(length as int).last() == self.coefficients@[length - 1]@);
                return length - 1;
            }
            assert(self@.take(length as int).drop_last() =~= self@.take(length - 1));
            length = length - 1;
        }
        0
    }

    pub fn evaluate(&self, point: Scalar) -> (r: Scalar)
        ensures
            r@ == horner(self@, point@),
    {
        let mut accumulator = Scalar::zero();
        let mut i = self.coefficients.len();
        assert(self@.skip(i as int) =~= seq![]);
        while i > 0
            invariant
                i <= self.coefficients@.len(),
                accumulator@ == horner(self@.skip(i as int), point@),
            decreases i,
        {
            assert(self@.skip(i - 1).drop_first() =~= self@.skip(i as int));
            accumulator = accumulator.mul(&point).add(&self.coefficients[i - 1]);
            i = i - 1;
        }
        assert(self@.skip(0) =~= self@);
        accumulator
    }

    pub fn boolean_sum(&self) -> (r: Scalar)
        ensures
            r@ == boolean_sum_of(self@),
    {
        let at_zero = self.evaluate(Scalar::zero());
        let at_one = self.evaluate(Scalar::one());
        at_zero.add(&at_one)
    }
}

} // verus!
