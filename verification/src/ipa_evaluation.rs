//! The evaluation basis `eq(z, ·)` of an IPA opening claim: for a table `a`
//! and a point `z`, the claimed value is `<a, eq(z, ·)>`.
use vstd::prelude::*;
use vstd::string::StringSliceAdditionalSpecFns;
use crate::arith::pow2;
use crate::field::{fadd, fmul, fsub, modulus, scalars_view, u64_le_bytes, Scalar};
use crate::field_laws::{lemma_add_assoc, lemma_distribute_right, lemma_ops_canonical};
use crate::ipa_generators::{expected_ipa_generator_count, generator_count, lemma_pow2_fits_usize, IpaGeneratorBasisError};
use crate::multilinear::{
    all_canonical, eq_evaluations, eq_table, evaluate_table, fold_pairs, interleave, lemma_eq_table_canonical,
    lemma_scalars_canonical, Multilinear,
};
use crate::transcript::{
    append_indexed_scalars, dom_sep_label, indexed_entries, lemma_ascii_label, message_entry,
    modulus_le_bytes, scalar_encodings, ProofTranscript, TranscriptEntry,
};

verus! {

#[derive(Clone, Copy, Debug, PartialEq, Eq)]
pub enum IpaEvaluationBasisError {
    GeneratorShape(IpaGeneratorBasisError),
    BasisLengthMismatch { expected: usize, actual: usize },
    PolynomialVariableMismatch { polynomial_variables: usize, basis_variables: usize },
}

/// `Σ_{i < n} a[i]·b[i]`, summed from the front.
pub open spec fn dot_upto(a: Seq<nat>, b: Seq<nat>, n: nat) -> nat
    decreases n,
{
    if n == 0 {
        0
    } else {
        fadd(dot_upto(a, b, (n - 1) as nat), fmul(a[n - 1], b[n - 1]))
    }
}

/// `Σ a[i]·b[i]` over the common length of `a` and `b`.
pub open spec fn inner_product(a: Seq<nat>, b: Seq<nat>) -> nat {
    dot_upto(a, b, if a.len() < b.len() { a.len() } else { b.len() })
}

/// The evaluation basis of `point`, ordered like a multilinear table: the
/// equality table of the reversed point.
pub open spec fn evaluation_basis_of(point: Seq<nat>) -> Seq<nat> {
    eq_table(point.reverse())
}

/// A result with its scalar taken by value.
pub open spec fn scalar_result<E>(result: Result<Scalar, E>) -> Result<nat, E> {
    match result {
        Ok(value) => Ok(value@),
        Err(error) => Err(error),
    }
}

/// The evaluation-basis vector of an opening claim.
#[derive(Clone, Debug, PartialEq, Eq)]
pub struct IpaEvaluationBasis {
    pub variables: usize,
    pub point: Vec<Scalar>,
    pub basis_evaluations: Vec<Scalar>,
}

/// Reverses a vector of scalars.
fn reversed(values: &[Scalar]) -> (r: Vec<Scalar>)
    ensures
        scalars_view(r@) == scalars_view(values@).reverse(),
        r@.len() == values@.len(),
{
    let mut out: Vec<Scalar> = Vec::new();
    let mut i: usize = values.len();
    while i > 0
        invariant
            i <= values@.len(),
            out@.len() == values@.len() - i,
            forall|k: int| 0 <= k < out@.len() ==> #[trigger] out@[k] == values@[values@.len() - 1 - k],
        decreases i,
    {
        i = i - 1;
        out.push(values[i]);
    }
    assert(scalars_view(out@) =~= scalars_view(values@).reverse());
    out
}

/// Inner product of two scalar vectors over their common length.
pub fn scalar_inner_product(a: &[Scalar], b: &[Scalar]) -> (r: Scalar)
    ensures
        r@ == inner_product(scalars_view(a@), scalars_view(b@)),
{
    let ghost left = scalars_view(a@);
    let ghost right = scalars_view(b@);
    let length = if a.len() < b.len() { a.len() } else { b.len() };
    let mut sum = Scalar::zero();
    let mut i: usize = 0;
    while i < length
        invariant
            i <= length,
            length <= a@.len(),
            length <= b@.len(),
            left == scalars_view(a@),
            right == scalars_view(b@),
            sum@ == dot_upto(left, right, i as nat),
        decreases length - i,
    {
        let term = a[i].mul(&b[i]);
        sum = sum.add(&term);
        i = i + 1;
    }
    sum
}

impl IpaEvaluationBasis {
    /// The basis of `point`.
    pub fn new(point: Vec<Scalar>) -> (r: Result<IpaEvaluationBasis, IpaEvaluationBasisError>)
        ensures
            match generator_count(point@.len() as usize) {
                Err(error) => r == Err::<IpaEvaluationBasis, IpaEvaluationBasisError>(
                    IpaEvaluationBasisError::GeneratorShape(error),
                ),
                Ok(_) => r matches Ok(basis) && basis.variables == point@.len() && basis.point@ == point@
                    && scalars_view(basis.basis_evaluations@) == evaluation_basis_of(scalars_view(point@))
                    && basis.basis_evaluations@.len() == pow2(point@.len()),
            },
    {
        let expected = match expected_ipa_generator_count(point.len()) {
            Err(error) => {
                return Err(IpaEvaluationBasisError::GeneratorShape(error));
            },
            Ok(expected) => expected,
        };
        let reversed_point = reversed(point.as_slice());
        let basis_evaluations = eq_evaluations(reversed_point.as_slice());
        if basis_evaluations.len() != expected {
            return Err(IpaEvaluationBasisError::BasisLengthMismatch { expected, actual: basis_evaluations.len() });
        }
        Ok(IpaEvaluationBasis { variables: point.len(), point, basis_evaluations })
    }

    /// A basis from a point and given basis values of the right length.
    pub fn from_parts(point: Vec<Scalar>, basis_evaluations: Vec<Scalar>) -> (r: Result<
        IpaEvaluationBasis,
        IpaEvaluationBasisError,
    >)
        ensures
            match generator_count(point@.len() as usize) {
                Err(error) => r == Err::<IpaEvaluationBasis, IpaEvaluationBasisError>(
                    IpaEvaluationBasisError::GeneratorShape(error),
                ),
                Ok(expected) => if basis_evaluations@.len() != expected {
                    r == Err::<IpaEvaluationBasis, IpaEvaluationBasisError>(
                        IpaEvaluationBasisError::BasisLengthMismatch {
                            expected,
                            actual: basis_evaluations@.len() as usize,
                        },
                    )
                } else {
                    r == Ok::<IpaEvaluationBasis, IpaEvaluationBasisError>(
                        IpaEvaluationBasis { variables: point@.len() as usize, point, basis_evaluations },
                    )
                },
            },
    {
        let expected = match expected_ipa_generator_count(point.len()) {
            Err(error) => {
                return Err(IpaEvaluationBasisError::GeneratorShape(error));
            },
            Ok(expected) => expected,
        };
        if basis_evaluations.len() != expected {
            return Err(IpaEvaluationBasisError::BasisLengthMismatch { expected, actual: basis_evaluations.len() });
        }
        Ok(IpaEvaluationBasis { variables: point.len(), point, basis_evaluations })
    }

    pub fn expected_len(&self) -> (r: Result<usize, IpaEvaluationBasisError>)
        ensures
            r == (match generator_count(self.variables) {
                Err(error) => Err(IpaEvaluationBasisError::GeneratorShape(error)),
                Ok(count) => Ok(count),
            }),
    {
        match expected_ipa_generator_count(self.variables) {
            Err(error) => Err(IpaEvaluationBasisError::GeneratorShape(error)),
            Ok(count) => Ok(count),
        }
    }

    /// What `inner_product_with_table` gives for a table.
    pub open spec fn table_product(&self, table: Seq<nat>) -> Result<nat, IpaEvaluationBasisError> {
        match generator_count(self.variables) {
            Err(error) => Err(IpaEvaluationBasisError::GeneratorShape(error)),
            Ok(expected) => if table.len() != expected {
                Err(IpaEvaluationBasisError::BasisLengthMismatch { expected, actual: table.len() as usize })
            } else {
                Ok(inner_product(table, scalars_view(self.basis_evaluations@)))
            },
        }
    }

    /// `<table, basis>` for a table of the basis's length.
    pub fn inner_product_with_table(&self, table: &[Scalar]) -> (r: Result<Scalar, IpaEvaluationBasisError>)
        ensures
            scalar_result(r) == self.table_product(scalars_view(table@)),
    {
        let expected = match self.expected_len() {
            Err(error) => {
                return Err(error);
            },
            Ok(expected) => expected,
        };
        if table.len() != expected {
            return Err(IpaEvaluationBasisError::BasisLengthMismatch { expected, actual: table.len() });
        }
        Ok(scalar_inner_product(table, self.basis_evaluations.as_slice()))
    }

    /// The polynomial's value at the basis point, as `<a, eq(z, ·)>`.
    pub fn evaluate_polynomial(&self, polynomial: &Multilinear) -> (r: Result<Scalar, IpaEvaluationBasisError>)
        ensures
            polynomial.num_variables() != self.variables ==> r == Err::<Scalar, IpaEvaluationBasisError>(
                IpaEvaluationBasisError::PolynomialVariableMismatch {
                    polynomial_variables: polynomial.num_variables() as usize,
                    basis_variables: self.variables,
                },
            ),
            polynomial.num_variables() == self.variables ==> scalar_result(r) == self.table_product(polynomial@),
    {
        if polynomial.variables() != self.variables {
            return Err(
                IpaEvaluationBasisError::PolynomialVariableMismatch {
                    polynomial_variables: polynomial.variables(),
                    basis_variables: self.variables,
                },
            );
        }
        self.inner_product_with_table(polynomial.evaluations())
    }
}

/// Computes the evaluation basis `eq(z, ·)` of a point.
pub fn compute_ipa_evaluation_basis(point: &[Scalar]) -> (r: Result<IpaEvaluationBasis, IpaEvaluationBasisError>)
    ensures
        match generator_count(point@.len() as usize) {
            Err(error) => r == Err::<IpaEvaluationBasis, IpaEvaluationBasisError>(
                IpaEvaluationBasisError::GeneratorShape(error),
            ),
            Ok(_) => r matches Ok(basis) && basis.variables == point@.len() && basis.point@ == point@
                && scalars_view(basis.basis_evaluations@) == evaluation_basis_of(scalars_view(point@))
                && basis.basis_evaluations@.len() == pow2(point@.len()),
        },
{
    let mut copy: Vec<Scalar> = Vec::new();
    let mut i: usize = 0;
    while i < point.len()
        invariant
            i <= point@.len(),
            copy@ == point@.take(i as int),
        decreases point@.len() - i,
    {
        copy.push(point[i]);
        i = i + 1;
        assert(copy@ =~= point@.take(i as int));
    }
    assert(copy@ =~= point@);
    IpaEvaluationBasis::new(copy)
}

/// Evaluates a polynomial as the inner product of its table with the
/// evaluation basis of `point`.
pub fn evaluate_with_ipa_evaluation_basis(polynomial: &Multilinear, point: &[Scalar]) -> (r: Result<
    Scalar,
    IpaEvaluationBasisError,
>)
    ensures
        match generator_count(point@.len() as usize) {
            Err(error) => r == Err::<Scalar, IpaEvaluationBasisError>(IpaEvaluationBasisError::GeneratorShape(error)),
            Ok(_) => if polynomial.num_variables() != point@.len() {
                r == Err::<Scalar, IpaEvaluationBasisError>(
                    IpaEvaluationBasisError::PolynomialVariableMismatch {
                        polynomial_variables: polynomial.num_variables() as usize,
                        basis_variables: point@.len() as usize,
                    },
                )
            } else {
                r matches Ok(value) && value@ == inner_product(polynomial@, evaluation_basis_of(scalars_view(point@)))
                    && value@ == evaluate_table(polynomial@, scalars_view(point@))
            },
        },
{
    let _variables = polynomial.variables();
    proof {
        if point@.len() < usize::BITS {
            lemma_pow2_fits_usize(point@.len());
        }
        if polynomial.num_variables() == point@.len() {
            polynomial.lemma_view();
            lemma_scalars_canonical(polynomial.table());
            lemma_scalars_canonical(point@);
            lemma_basis_inner_product_is_evaluation(polynomial@, scalars_view(point@));
        }
    }
    let basis = match compute_ipa_evaluation_basis(point) {
        Err(error) => {
            return Err(error);
        },
        Ok(basis) => basis,
    };
    basis.evaluate_polynomial(polynomial)
}

/// What binding an evaluation basis appends.
pub open spec fn evaluation_basis_entries(variables: usize, point: Seq<nat>, values: Seq<nat>) -> Seq<TranscriptEntry> {
    seq![
        message_entry(dom_sep_label(), "snark-lab/ipa-evaluation-basis/v1".spec_bytes()),
        message_entry("field-modulus".spec_bytes(), modulus_le_bytes()),
        message_entry("ipa-evaluation-variables".spec_bytes(), u64_le_bytes(variables as u64)),
        message_entry("ipa-evaluation-basis-len".spec_bytes(), u64_le_bytes(values.len() as u64)),
    ] + indexed_entries(
        "ipa-evaluation-point-index".spec_bytes(),
        "ipa-evaluation-point-coordinate".spec_bytes(),
        scalar_encodings(point),
    ) + indexed_entries(
        "ipa-evaluation-basis-index".spec_bytes(),
        "ipa-evaluation-basis-value".spec_bytes(),
        scalar_encodings(values),
    )
}

/// The length check of binding an evaluation basis.
pub open spec fn evaluation_basis_length_check(basis: IpaEvaluationBasis) -> Result<(), IpaEvaluationBasisError> {
    match generator_count(basis.variables) {
        Err(error) => Err(IpaEvaluationBasisError::GeneratorShape(error)),
        Ok(expected) => if basis.basis_evaluations@.len() != expected {
            Err(
                IpaEvaluationBasisError::BasisLengthMismatch {
                    expected,
                    actual: basis.basis_evaluations@.len() as usize,
                },
            )
        } else {
            Ok(())
        },
    }
}

/// Binds the point and the concrete equality vector of an opening.
pub fn bind_ipa_evaluation_basis<T: ProofTranscript>(transcript: &mut T, basis: &IpaEvaluationBasis) -> (r: Result<
    (),
    IpaEvaluationBasisError,
>)
    ensures
        r == evaluation_basis_length_check(*basis),
        r is Err ==> final(transcript).entries() == old(transcript).entries(),
        r is Ok ==> final(transcript).entries() == old(transcript).entries() + evaluation_basis_entries(
            basis.variables,
            scalars_view(basis.point@),
            scalars_view(basis.basis_evaluations@),
        ),
{
    let expected = match basis.expected_len() {
        Err(error) => {
            return Err(error);
        },
        Ok(expected) => expected,
    };
    if basis.basis_evaluations.len() != expected {
        return Err(
            IpaEvaluationBasisError::BasisLengthMismatch { expected, actual: basis.basis_evaluations.len() },
        );
    }
    proof {
        reveal_strlit("snark-lab/ipa-evaluation-basis/v1");
        lemma_ascii_label("snark-lab/ipa-evaluation-basis/v1");
    }
    transcript.append_domain_separator("snark-lab/ipa-evaluation-basis/v1");
    transcript.append_field_modulus();
    transcript.append_u64("ipa-evaluation-variables", basis.variables as u64);
    transcript.append_u64("ipa-evaluation-basis-len", basis.basis_evaluations.len() as u64);
    append_indexed_scalars(
        transcript,
        "ipa-evaluation-point-index",
        "ipa-evaluation-point-coordinate",
        basis.point.as_slice(),
    );
    append_indexed_scalars(
        transcript,
        "ipa-evaluation-basis-index",
        "ipa-evaluation-basis-value",
        basis.basis_evaluations.as_slice(),
    );
    assert(final(transcript).entries() =~= old(transcript).entries() + evaluation_basis_entries(
        basis.variables,
        scalars_view(basis.point@),
        scalars_view(basis.basis_evaluations@),
    ));
    Ok(())
}

/// `t·(e·x) = (t·x)·e`.
proof fn lemma_mul_rotate(t: nat, e: nat, x: nat)
    ensures
        fmul(t, fmul(e, x)) == fmul(fmul(t, x), e),
{
    let p = modulus() as int;
    assert(t * (e * x) == (t * x) * e) by (nonlinear_arith);
    vstd::arithmetic::div_mod::lemma_mul_mod_noop_right(t as int, (e * x) as int, p);
    vstd::arithmetic::div_mod::lemma_mul_mod_noop_left((t * x) as int, e as int, p);
}

/// A prefix sum of products is a canonical representative.
proof fn lemma_dot_upto_canonical(a: Seq<nat>, b: Seq<nat>, n: nat)
    ensures
        dot_upto(a, b, n) < modulus(),
    decreases n,
{
    if n > 0 {
        lemma_ops_canonical(dot_upto(a, b, (n - 1) as nat), fmul(a[n - 1], b[n - 1]));
    }
}

/// Pairing a table with the basis split at `r` pairs its fold at `r` with
/// the unsplit basis: `Σ_i t[i]·E[i] = Σ_j fold(t, r)[j]·e[j]` where
/// `E[2j] = e[j]·(1 - r)` and `E[2j+1] = e[j]·r`.
proof fn lemma_dot_split_basis(t: Seq<nat>, e: Seq<nat>, r: nat, m: nat)
    requires
        t.len() >= 2 * m,
        e.len() >= m,
        all_canonical(e),
        r < modulus(),
    ensures
        dot_upto(t, interleave(e, fsub(1, r), r), 2 * m) == dot_upto(fold_pairs(t, r), e, m),
    decreases m,
{
    if m > 0 {
        let split = interleave(e, fsub(1, r), r);
        let folded = fold_pairs(t, r);
        let j = (m - 1) as int;
        lemma_dot_split_basis(t, e, r, (m - 1) as nat);
        let previous = dot_upto(t, split, (2 * m - 2) as nat);
        assert(dot_upto(t, split, (2 * m - 1) as nat) == fadd(previous, fmul(t[2 * j], split[2 * j])));
        assert(split[2 * j] == fmul(e[j], fsub(1, r)));
        assert(split[2 * j + 1] == fmul(e[j], r));
        let even = fmul(t[2 * j], fmul(e[j], fsub(1, r)));
        let odd = fmul(t[2 * j + 1], fmul(e[j], r));
        lemma_mul_rotate(t[2 * j], e[j], fsub(1, r));
        lemma_mul_rotate(t[2 * j + 1], e[j], r);
        lemma_ops_canonical(t[2 * j], fsub(1, r));
        lemma_ops_canonical(t[2 * j + 1], r);
        lemma_distribute_right(fmul(t[2 * j], fsub(1, r)), fmul(t[2 * j + 1], r), e[j]);
        assert(fadd(even, odd) == fmul(folded[j], e[j]));
        lemma_dot_upto_canonical(t, split, (2 * m - 2) as nat);
        lemma_ops_canonical(t[2 * j], fmul(e[j], fsub(1, r)));
        lemma_ops_canonical(t[2 * j + 1], fmul(e[j], r));
        lemma_add_assoc(previous, even, odd);
    }
}

/// Evaluating through the evaluation basis gives the multilinear extension's
/// value: `<t, eq(z, ·)> = t~(z)` for a table of `2^n` field elements and a
/// point of `n` coordinates.
pub proof fn lemma_basis_inner_product_is_evaluation(table: Seq<nat>, point: Seq<nat>)
    requires
        table.len() == pow2(point.len()),
        all_canonical(table),
        all_canonical(point),
    ensures
        inner_product(table, evaluation_basis_of(point)) == evaluate_table(table, point),
    decreases point.len(),
{
    let basis = evaluation_basis_of(point);
    lemma_eq_table_canonical(point.reverse());
    if point.len() == 0 {
        assert(point.reverse() =~= Seq::<nat>::empty());
        assert(basis == seq![1nat]);
        vstd::arithmetic::div_mod::lemma_small_mod(table[0], modulus());
        assert(fmul(table[0], 1) == table[0]);
        assert(fadd(0, table[0]) == table[0]);
        assert(dot_upto(table, basis, 1) == fadd(dot_upto(table, basis, 0), fmul(table[0], basis[0])));
    } else {
        let r = point[0];
        let rest = point.drop_first();
        let reversed = point.reverse();
        assert(reversed.drop_last() =~= rest.reverse());
        assert(reversed.last() == r);
        let half = eq_table(rest.reverse());
        lemma_eq_table_canonical(rest.reverse());
        assert(basis =~= interleave(half, fsub(1, r), r));
        let m = pow2(rest.len());
        assert(table.len() == 2 * m);
        lemma_dot_split_basis(table, half, r, m);
        let folded = fold_pairs(table, r);
        assert forall|i: int| 0 <= i < folded.len() implies folded[i] < modulus() by {
            lemma_ops_canonical(fmul(table[2 * i], fsub(1, r)), fmul(table[2 * i + 1], r));
        }
        assert forall|i: int| 0 <= i < rest.len() implies rest[i] < modulus() by {
            assert(rest[i] == point[i + 1]);
        }
        lemma_basis_inner_product_is_evaluation(folded, rest);
    }
}

} // verus!
