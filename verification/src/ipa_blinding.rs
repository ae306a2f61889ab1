//! Reduces a blinded commitment `C = <a, G> + rB` to an ordinary IPA
//! relation over one more variable: `a_ext = (a, r, 0, …)`,
//! `G_ext = (G, B, padding)`, `b_ext = (eq(z, ·), 0, …)`, so that
//! `<a_ext, b_ext> = <a, eq(z, ·)>`.
use vstd::prelude::*;
use crate::arith::pow2;
use crate::field::{scalars_view, Scalar};
use crate::ipa_curve::{clone_points, curve_basis_check, points_view, IpaCurveGeneratorBasis, IpaCurvePoint, IpaCurvePointError};
use crate::ipa_evaluation::IpaEvaluationBasis;
use crate::ipa_generators::{expected_ipa_generator_count, generator_count, lemma_pow2_fits_usize, IpaGeneratorBasisError};
use crate::multilinear::Multilinear;

verus! {

#[derive(Clone, Copy, Debug, PartialEq, Eq)]
pub enum IpaBlindingExtensionError {
    GeneratorShape(IpaGeneratorBasisError),
    Curve(IpaCurvePointError),
    VariableOverflow,
    BasisVariableMismatch { basis_variables: usize, polynomial_variables: usize },
    EvaluationBasisVariableMismatch { basis_variables: usize, polynomial_variables: usize },
    PolynomialLengthMismatch { expected: usize, actual: usize },
    EvaluationBasisLengthMismatch { expected: usize, actual: usize },
    PaddingGeneratorCountMismatch { label: &'static str, expected: usize, actual: usize },
}

/// For `variables` variables: the table length, and how many padding
/// generators the extended polynomial and evaluation vectors need; a
/// generator-count failure, or `None` for an overflow.
pub open spec fn padding_plan(variables: usize) -> Result<(usize, usize, usize), Option<IpaGeneratorBasisError>> {
    match generator_count(variables) {
        Err(error) => Err(Some(error)),
        Ok(original) => if variables == usize::MAX {
            Err(None)
        } else {
            match generator_count((variables + 1) as usize) {
                Err(error) => Err(Some(error)),
                Ok(extended) => if extended < original + 1 {
                    Err(None)
                } else {
                    Ok((original, (extended - (original + 1)) as usize, (extended - original) as usize))
                },
            }
        },
    }
}

/// Computes the padding plan for `variables` variables.
pub fn plan_padding(variables: usize) -> (r: Result<(usize, usize, usize), Option<IpaGeneratorBasisError>>)
    ensures
        r == padding_plan(variables),
        r matches Ok((original, polynomial_padding, evaluation_padding)) ==> original as nat == pow2(variables as nat)
            && polynomial_padding + 1 == original && evaluation_padding == original,
{
    let original = match expected_ipa_generator_count(variables) {
        Err(error) => {
            return Err(Some(error));
        },
        Ok(count) => count,
    };
    let extended_variables = match variables.checked_add(1) {
        None => {
            return Err(None);
        },
        Some(extended) => extended,
    };
    let extended = match expected_ipa_generator_count(extended_variables) {
        Err(error) => {
            return Err(Some(error));
        },
        Ok(count) => count,
    };
    proof {
        lemma_pow2_fits_usize(variables as nat);
        assert(pow2((variables + 1) as nat) == 2 * pow2(variables as nat));
    }
    let polynomial_padding = match extended.checked_sub(original + 1) {
        None => {
            return Err(None);
        },
        Some(count) => count,
    };
    let evaluation_padding = match extended.checked_sub(original) {
        None => {
            return Err(None);
        },
        Some(count) => count,
    };
    Ok((original, polynomial_padding, evaluation_padding))
}

/// A sequence of `n` zeros.
pub open spec fn zeros(n: nat) -> Seq<nat> {
    Seq::new(n, |i: int| 0nat)
}

/// Appends `count` zero scalars.
fn push_zeros(values: &mut Vec<Scalar>, count: usize)
    ensures
        scalars_view(final(values)@) == scalars_view(old(values)@) + zeros(count as nat),
{
    let mut i: usize = 0;
    while i < count
        invariant
            i <= count,
            scalars_view(values@) == scalars_view(old(values)@) + zeros(i as nat),
        decreases count - i,
    {
        let ghost previous = values@;
        values.push(Scalar::zero());
        proof {
            assert(scalars_view(values@) =~= scalars_view(previous).push(0));
            assert(zeros((i + 1) as nat) =~= zeros(i as nat).push(0));
        }
        i = i + 1;
    }
}

/// Appends copies of generator points.
pub fn extend_points(points: &mut Vec<IpaCurvePoint>, more: &[IpaCurvePoint])
    ensures
        points_view(final(points)@) == points_view(old(points)@) + points_view(more@),
{
    let mut i: usize = 0;
    while i < more.len()
        invariant
            i <= more@.len(),
            points_view(points@) == points_view(old(points)@) + points_view(more@.take(i as int)),
        decreases more@.len() - i,
    {
        let ghost previous = points@;
        points.push(more[i].clone());
        proof {
            assert(points_view(points@) =~= points_view(previous).push(more@[i as int]@));
            assert(points_view(more@.take(i + 1)) =~= points_view(more@.take(i as int)).push(more@[i as int]@));
        }
        i = i + 1;
    }
    assert(more@.take(i as int) =~= more@);
}

/// A blinded opening extended to an ordinary IPA relation.
#[derive(Clone, Debug, PartialEq, Eq)]
pub struct IpaBlindedOpeningExtension {
    pub original_variables: usize,
    pub extended_variables: usize,
    pub commitment_blinding: Scalar,
    pub polynomial_vector: Vec<Scalar>,
    pub evaluation_vector: Vec<Scalar>,
    pub generator_basis: IpaCurveGeneratorBasis,
}

/// The shape checks of the inputs to the extension.
pub open spec fn original_shapes_check(
    basis: IpaCurveGeneratorBasis,
    polynomial_variables: nat,
    table_len: nat,
    evaluation_variables: usize,
    evaluation_len: nat,
) -> Result<usize, IpaBlindingExtensionError> {
    match basis.check() {
        Err(error) => Err(IpaBlindingExtensionError::Curve(error)),
        Ok(()) => if basis.variables != polynomial_variables {
            Err(
                IpaBlindingExtensionError::BasisVariableMismatch {
                    basis_variables: basis.variables,
                    polynomial_variables: polynomial_variables as usize,
                },
            )
        } else if evaluation_variables != polynomial_variables {
            Err(
                IpaBlindingExtensionError::EvaluationBasisVariableMismatch {
                    basis_variables: evaluation_variables,
                    polynomial_variables: polynomial_variables as usize,
                },
            )
        } else {
            match generator_count(polynomial_variables as usize) {
                Err(error) => Err(IpaBlindingExtensionError::GeneratorShape(error)),
                Ok(expected) => if table_len != expected {
                    Err(IpaBlindingExtensionError::PolynomialLengthMismatch { expected, actual: table_len as usize })
                } else if evaluation_len != expected {
                    Err(
                        IpaBlindingExtensionError::EvaluationBasisLengthMismatch {
                            expected,
                            actual: evaluation_len as usize,
                        },
                    )
                } else {
                    Ok(expected)
                },
            }
        }
    }
}

/// The extended relation, or the first failing check: the vectors and the
/// generator encodings of the extended basis.
pub open spec fn extension_outcome(
    basis: IpaCurveGeneratorBasis,
    polynomial_variables: nat,
    table: Seq<nat>,
    evaluation_variables: usize,
    evaluation_values: Seq<nat>,
    blinding: nat,
    padding_polynomial: Seq<Seq<u8>>,
    padding_evaluation: Seq<Seq<u8>>,
    extended_blinding: Seq<u8>,
) -> Result<(Seq<nat>, Seq<nat>, Seq<Seq<u8>>, Seq<Seq<u8>>), IpaBlindingExtensionError> {
    match original_shapes_check(basis, polynomial_variables, table.len(), evaluation_variables, evaluation_values.len()) {
        Err(error) => Err(error),
        Ok(_) => match padding_plan(polynomial_variables as usize) {
            Err(Some(error)) => Err(IpaBlindingExtensionError::GeneratorShape(error)),
            Err(None) => Err(IpaBlindingExtensionError::VariableOverflow),
            Ok((_original, polynomial_padding, evaluation_padding)) => if padding_polynomial.len()
                != polynomial_padding {
                Err(
                    IpaBlindingExtensionError::PaddingGeneratorCountMismatch {
                        label: "polynomial",
                        expected: polynomial_padding,
                        actual: padding_polynomial.len() as usize,
                    },
                )
            } else if padding_evaluation.len() != evaluation_padding {
                Err(
                    IpaBlindingExtensionError::PaddingGeneratorCountMismatch {
                        label: "evaluation",
                        expected: evaluation_padding,
                        actual: padding_evaluation.len() as usize,
                    },
                )
            } else {
                let polynomial_generators = basis.polynomial_view().push(basis.blinding_generator@)
                    + padding_polynomial;
                let evaluation_generators = basis.evaluation_view() + padding_evaluation;
                match curve_basis_check(
                    (polynomial_variables + 1) as usize,
                    polynomial_generators,
                    evaluation_generators,
                    extended_blinding,
                ) {
                    Err(error) => Err(IpaBlindingExtensionError::Curve(error)),
                    Ok(()) => Ok(
                        (
                            table.push(blinding) + zeros(polynomial_padding as nat),
                            evaluation_values + zeros(evaluation_padding as nat),
                            polynomial_generators,
                            evaluation_generators,
                        ),
                    ),
                }
            },
        },
    }
}

fn validate_original_shapes(
    basis: &IpaCurveGeneratorBasis,
    polynomial: &Multilinear,
    evaluation_basis: &IpaEvaluationBasis,
) -> (r: Result<usize, IpaBlindingExtensionError>)
    ensures
        r == original_shapes_check(
            *basis,
            polynomial.num_variables(),
            polynomial@.len(),
            evaluation_basis.variables,
            evaluation_basis.basis_evaluations@.len(),
        ),
{
    match basis.validate() {
        Err(error) => {
            return Err(IpaBlindingExtensionError::Curve(error));
        },
        Ok(()) => {},
    }
    let polynomial_variables = polynomial.variables();
    if basis.variables != polynomial_variables {
        return Err(
            IpaBlindingExtensionError::BasisVariableMismatch { basis_variables: basis.variables, polynomial_variables },
        );
    }
    if evaluation_basis.variables != polynomial_variables {
        return Err(
            IpaBlindingExtensionError::EvaluationBasisVariableMismatch {
                basis_variables: evaluation_basis.variables,
                polynomial_variables,
            },
        );
    }
    let expected = match expected_ipa_generator_count(polynomial_variables) {
        Err(error) => {
            return Err(IpaBlindingExtensionError::GeneratorShape(error));
        },
        Ok(count) => count,
    };
    if polynomial.evaluations().len() != expected {
        return Err(
            IpaBlindingExtensionError::PolynomialLengthMismatch { expected, actual: polynomial.evaluations().len() },
        );
    }
    if evaluation_basis.basis_evaluations.len() != expected {
        return Err(
            IpaBlindingExtensionError::EvaluationBasisLengthMismatch {
                expected,
                actual: evaluation_basis.basis_evaluations.len(),
            },
        );
    }
    Ok(expected)
}

/// Extends a blinded opening into an ordinary IPA relation over one more
/// variable, with the caller's padding generators.
pub fn extend_ipa_opening_for_blinding(
    basis: &IpaCurveGeneratorBasis,
    polynomial: &Multilinear,
    evaluation_basis: &IpaEvaluationBasis,
    commitment_blinding: Scalar,
    padding_polynomial_generators: Vec<IpaCurvePoint>,
    padding_evaluation_generators: Vec<IpaCurvePoint>,
    extended_blinding_generator: IpaCurvePoint,
) -> (r: Result<IpaBlindedOpeningExtension, IpaBlindingExtensionError>)
    ensures
        match extension_outcome(
            *basis,
            polynomial.num_variables(),
            polynomial@,
            evaluation_basis.variables,
            scalars_view(evaluation_basis.basis_evaluations@),
            commitment_blinding@,
            points_view(padding_polynomial_generators@),
            points_view(padding_evaluation_generators@),
            extended_blinding_generator@,
        ) {
            Err(error) => r == Err::<IpaBlindedOpeningExtension, IpaBlindingExtensionError>(error),
            Ok((polynomial_vector, evaluation_vector, polynomial_generators, evaluation_generators)) => r matches Ok(
                extension,
            ) && extension.original_variables == polynomial.num_variables() && extension.extended_variables
                == polynomial.num_variables() + 1 && extension.commitment_blinding == commitment_blinding
                && scalars_view(extension.polynomial_vector@) == polynomial_vector && scalars_view(
                extension.evaluation_vector@,
            ) == evaluation_vector && extension.generator_basis.variables == polynomial.num_variables() + 1
                && extension.generator_basis.polynomial_view() == polynomial_generators
                && extension.generator_basis.evaluation_view() == evaluation_generators
                && extension.generator_basis.blinding_generator@ == extended_blinding_generator@,
        },
{
    match validate_original_shapes(basis, polynomial, evaluation_basis) {
        Err(error) => {
            return Err(error);
        },
        Ok(_) => {},
    }
    let original_variables = polynomial.variables();
    let (_original, polynomial_padding, evaluation_padding) = match plan_padding(original_variables) {
        Err(Some(error)) => {
            return Err(IpaBlindingExtensionError::GeneratorShape(error));
        },
        Err(None) => {
            return Err(IpaBlindingExtensionError::VariableOverflow);
        },
        Ok(plan) => plan,
    };
    if padding_polynomial_generators.len() != polynomial_padding {
        return Err(
            IpaBlindingExtensionError::PaddingGeneratorCountMismatch {
                label: "polynomial",
                expected: polynomial_padding,
                actual: padding_polynomial_generators.len(),
            },
        );
    }
    if padding_evaluation_generators.len() != evaluation_padding {
        return Err(
            IpaBlindingExtensionError::PaddingGeneratorCountMismatch {
                label: "evaluation",
                expected: evaluation_padding,
                actual: padding_evaluation_generators.len(),
            },
        );
    }
    let mut polynomial_vector = vstd::slice::slice_to_vec(polynomial.evaluations());
    let ghost table_vector = polynomial_vector@;
    polynomial_vector.push(commitment_blinding);
    assert(scalars_view(polynomial_vector@) =~= scalars_view(table_vector).push(commitment_blinding@));
    push_zeros(&mut polynomial_vector, polynomial_padding);
    let mut evaluation_vector = vstd::slice::slice_to_vec(evaluation_basis.basis_evaluations.as_slice());
    push_zeros(&mut evaluation_vector, evaluation_padding);
    let mut polynomial_generators = clone_points(basis.polynomial_generators.as_slice());
    let ghost cloned = polynomial_generators@;
    polynomial_generators.push(basis.blinding_generator.clone());
    assert(points_view(polynomial_generators@) =~= points_view(cloned).push(basis.blinding_generator@));
    extend_points(&mut polynomial_generators, padding_polynomial_generators.as_slice());
    let mut evaluation_generators = clone_points(basis.evaluation_generators.as_slice());
    extend_points(&mut evaluation_generators, padding_evaluation_generators.as_slice());
    let generator_basis = match IpaCurveGeneratorBasis::new(
        original_variables + 1,
        polynomial_generators,
        evaluation_generators,
        extended_blinding_generator,
    ) {
        Err(error) => {
            return Err(IpaBlindingExtensionError::Curve(error));
        },
        Ok(basis) => basis,
    };
    Ok(
        IpaBlindedOpeningExtension {
            original_variables,
            extended_variables: original_variables + 1,
            commitment_blinding,
            polynomial_vector,
            evaluation_vector,
            generator_basis,
        },
    )
}

} // verus!
