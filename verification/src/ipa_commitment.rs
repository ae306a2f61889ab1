//! The IPA commitment equation `C = <a, G> + rH` and the prover's commit path.
use vstd::prelude::*;
use crate::curve::{g1_add, g1_decode, g1_mul, lincomb, GroupElement};
use crate::field::{scalars_view, Scalar};
use crate::ipa::IpaCommitment;
use crate::ipa_curve::{IpaCurveGeneratorBasis, IpaCurvePointError};
use crate::multilinear::Multilinear;
use crate::pcs::{validate_supported_variables, PcsShapeError};

verus! {

#[derive(Clone, Copy, Debug, PartialEq, Eq)]
pub enum IpaCommitmentEquationError {
    Curve(IpaCurvePointError),
    VariableCountMismatch { polynomial_variables: usize, basis_variables: usize },
    GeneratorCountMismatch { expected: usize, actual: usize },
    SerializationFailed,
    DeserializationFailed,
}

/// A commitment point; unlike a generator it may be the identity.
#[derive(Debug, PartialEq, Eq)]
pub struct IpaCurveCommitment {
    point: GroupElement,
}

impl View for IpaCurveCommitment {
    type V = Seq<u8>;

    closed spec fn view(&self) -> Seq<u8> {
        self.point@
    }
}

impl Clone for IpaCurveCommitment {
    fn clone(&self) -> (r: IpaCurveCommitment)
        ensures
            r@ == self@,
    {
        IpaCurveCommitment { point: self.point.clone() }
    }
}

impl IpaCurveCommitment {
    pub fn from_projective(point: GroupElement) -> (r: Result<IpaCurveCommitment, IpaCommitmentEquationError>)
        ensures
            r matches Ok(commitment) && commitment@ == point@,
    {
        Ok(IpaCurveCommitment { point })
    }

    /// Reads a compressed commitment, validating curve and subgroup membership.
    pub fn from_compressed_bytes(bytes: &[u8]) -> (r: Result<IpaCurveCommitment, IpaCommitmentEquationError>)
        ensures
            match g1_decode(bytes@) {
                None => r == Err::<IpaCurveCommitment, IpaCommitmentEquationError>(
                    IpaCommitmentEquationError::DeserializationFailed,
                ),
                Some(encoding) => r matches Ok(commitment) && commitment@ == encoding,
            },
    {
        match GroupElement::from_compressed_bytes(bytes) {
            None => Err(IpaCommitmentEquationError::DeserializationFailed),
            Some(point) => Ok(IpaCurveCommitment { point }),
        }
    }

    pub fn affine(&self) -> (r: GroupElement)
        ensures
            r@ == self@,
    {
        self.point.clone()
    }

    pub fn to_compressed_bytes(&self) -> (r: Result<Vec<u8>, IpaCommitmentEquationError>)
        ensures
            r matches Ok(bytes) && bytes@ == self@ && bytes@.len() == 48,
    {
        Ok(self.point.to_bytes())
    }

    pub fn to_opaque_commitment(&self, variables: usize) -> (r: Result<IpaCommitment, IpaCommitmentEquationError>)
        ensures
            r matches Ok(commitment) && commitment.variables == variables && commitment.commitment_bytes@ == self@
                && commitment.commitment_bytes@.len() == 48,
    {
        Ok(IpaCommitment { variables, commitment_bytes: self.point.to_bytes() })
    }
}

/// The dimension checks of the commitment equation.
pub open spec fn commitment_inputs_check(basis: IpaCurveGeneratorBasis, polynomial: Multilinear) -> Result<
    (),
    IpaCommitmentEquationError,
> {
    if polynomial.num_variables() != basis.variables {
        Err(
            IpaCommitmentEquationError::VariableCountMismatch {
                polynomial_variables: polynomial.num_variables() as usize,
                basis_variables: basis.variables,
            },
        )
    } else {
        match basis.check() {
            Err(error) => Err(IpaCommitmentEquationError::Curve(error)),
            Ok(()) => if polynomial@.len() != basis.polynomial_view().len() {
                Err(
                    IpaCommitmentEquationError::GeneratorCountMismatch {
                        expected: polynomial@.len() as usize,
                        actual: basis.polynomial_view().len() as usize,
                    },
                )
            } else {
                Ok(())
            },
        }
    }
}

/// `<a, G> + rH`.
pub open spec fn commitment_point(basis: IpaCurveGeneratorBasis, table: Seq<nat>, blinding: nat) -> Seq<u8> {
    g1_add(lincomb(basis.polynomial_view(), table), g1_mul(basis.blinding_generator@, blinding))
}

/// Checks that the commitment equation has compatible dimensions.
pub fn validate_ipa_commitment_inputs(basis: &IpaCurveGeneratorBasis, polynomial: &Multilinear) -> (r: Result<
    (),
    IpaCommitmentEquationError,
>)
    ensures
        r == commitment_inputs_check(*basis, *polynomial),
{
    if polynomial.variables() != basis.variables {
        return Err(
            IpaCommitmentEquationError::VariableCountMismatch {
                polynomial_variables: polynomial.variables(),
                basis_variables: basis.variables,
            },
        );
    }
    match basis.validate() {
        Err(error) => {
            return Err(IpaCommitmentEquationError::Curve(error));
        },
        Ok(()) => {},
    }
    let expected = polynomial.evaluations().len();
    let actual = basis.polynomial_generators.len();
    if expected != actual {
        return Err(IpaCommitmentEquationError::GeneratorCountMismatch { expected, actual });
    }
    Ok(())
}

/// Computes the commitment equation `C = <a, G> + rH` for the evaluation
/// table `a`, the polynomial generators `G`, the blinding scalar `r` and the
/// blinding generator `H`.
pub fn commit_ipa_polynomial(basis: &IpaCurveGeneratorBasis, polynomial: &Multilinear, blinding: Scalar) -> (r: Result<
    IpaCurveCommitment,
    IpaCommitmentEquationError,
>)
    ensures
        match commitment_inputs_check(*basis, *polynomial) {
            Err(error) => r == Err::<IpaCurveCommitment, IpaCommitmentEquationError>(error),
            Ok(()) => r matches Ok(commitment) && commitment@ == commitment_point(*basis, polynomial@, blinding@),
        },
{
    match validate_ipa_commitment_inputs(basis, polynomial) {
        Err(error) => {
            return Err(error);
        },
        Ok(()) => {},
    }
    let generators = points_of(basis.polynomial_generators.as_slice());
    let evaluations = polynomial.evaluations();
    let accumulator = crate::curve::linear_combination(evaluations, generators.as_slice());
    let blinding_term = basis.blinding_generator.affine().mul(&blinding);
    IpaCurveCommitment::from_projective(accumulator.add(&blinding_term))
}

/// The group elements of a sequence of generator points.
pub fn points_of(points: &[crate::ipa_curve::IpaCurvePoint]) -> (r: Vec<GroupElement>)
    ensures
        crate::curve::elements_view(r@) == crate::ipa_curve::points_view(points@),
{
    let mut out: Vec<GroupElement> = Vec::new();
    let mut i: usize = 0;
    while i < points.len()
        invariant
            i <= points@.len(),
            crate::curve::elements_view(out@) == crate::ipa_curve::points_view(points@.take(i as int)),
        decreases points@.len() - i,
    {
        let ghost previous = out@;
        out.push(points[i].affine());
        proof {
            assert(crate::curve::elements_view(out@) =~= crate::curve::elements_view(previous).push(points@[i as int]@));
            assert(crate::ipa_curve::points_view(points@.take(i + 1)) =~= crate::ipa_curve::points_view(
                points@.take(i as int),
            ).push(points@[i as int]@));
        }
        i = i + 1;
    }
    assert(points@.take(i as int) =~= points@);
    out
}

/// Recomputes the commitment equation and compares it with `commitment`.
pub fn check_ipa_commitment_equation(
    commitment: &IpaCurveCommitment,
    basis: &IpaCurveGeneratorBasis,
    polynomial: &Multilinear,
    blinding: Scalar,
) -> (r: Result<bool, IpaCommitmentEquationError>)
    ensures
        match commitment_inputs_check(*basis, *polynomial) {
            Err(error) => r == Err::<bool, IpaCommitmentEquationError>(error),
            Ok(()) => r == Ok::<bool, IpaCommitmentEquationError>(
                commitment@ == commitment_point(*basis, polynomial@, blinding@),
            ),
        },
{
    match commit_ipa_polynomial(basis, polynomial, blinding) {
        Err(error) => Err(error),
        Ok(recomputed) => Ok(recomputed.point.equals(&commitment.point)),
    }
}

#[derive(Clone, Copy, Debug, PartialEq, Eq)]
pub enum IpaProverCommitError {
    Shape(PcsShapeError),
    Curve(IpaCurvePointError),
    Commitment(IpaCommitmentEquationError),
}

/// Curve-aware prover key: a variable bound and the generator basis.
#[derive(Clone, Debug, PartialEq, Eq)]
pub struct IpaCurveProverKey {
    pub supported_variables: usize,
    pub generator_basis: IpaCurveGeneratorBasis,
}

impl IpaCurveProverKey {
    pub fn new(supported_variables: usize, generator_basis: IpaCurveGeneratorBasis) -> (r: Result<
        IpaCurveProverKey,
        IpaProverCommitError,
    >)
        ensures
            generator_basis.variables > supported_variables ==> r == Err::<IpaCurveProverKey, IpaProverCommitError>(
                IpaProverCommitError::Shape(
                    PcsShapeError::UnsupportedVariableCount {
                        requested: generator_basis.variables,
                        supported: supported_variables,
                    },
                ),
            ),
            generator_basis.variables <= supported_variables ==> match generator_basis.check() {
                Err(error) => r == Err::<IpaCurveProverKey, IpaProverCommitError>(IpaProverCommitError::Curve(error)),
                Ok(()) => r matches Ok(key) && key.supported_variables == supported_variables
                    && key.generator_basis == generator_basis,
            },
    {
        match validate_supported_variables(supported_variables, generator_basis.variables) {
            Err(error) => {
                return Err(IpaProverCommitError::Shape(error));
            },
            Ok(()) => {},
        }
        match generator_basis.validate() {
            Err(error) => {
                return Err(IpaProverCommitError::Curve(error));
            },
            Ok(()) => {},
        }
        Ok(IpaCurveProverKey { supported_variables, generator_basis })
    }

    pub fn variables(&self) -> (r: usize)
        ensures
            r == self.generator_basis.variables,
    {
        self.generator_basis.variables
    }
}

/// The prover's commitment: the curve point and its protocol-facing bytes.
#[derive(Clone, Debug, PartialEq, Eq)]
pub struct IpaProverCommitment {
    pub curve_commitment: IpaCurveCommitment,
    pub opaque_commitment: IpaCommitment,
}

/// Commits a polynomial with an explicit blinding scalar.
pub fn commit_with_ipa_prover_key(prover_key: &IpaCurveProverKey, polynomial: &Multilinear, blinding: Scalar) -> (r: Result<
    IpaProverCommitment,
    IpaProverCommitError,
>)
    ensures
        polynomial.num_variables() > prover_key.supported_variables ==> r == Err::<
            IpaProverCommitment,
            IpaProverCommitError,
        >(
            IpaProverCommitError::Shape(
                PcsShapeError::UnsupportedVariableCount {
                    requested: polynomial.num_variables() as usize,
                    supported: prover_key.supported_variables,
                },
            ),
        ),
        polynomial.num_variables() <= prover_key.supported_variables ==> match commitment_inputs_check(
            prover_key.generator_basis,
            *polynomial,
        ) {
            Err(error) => r == Err::<IpaProverCommitment, IpaProverCommitError>(IpaProverCommitError::Commitment(error)),
            Ok(()) => r matches Ok(commitment) && commitment.curve_commitment@ == commitment_point(
                prover_key.generator_basis,
                polynomial@,
                blinding@,
            ) && commitment.opaque_commitment.variables == polynomial.num_variables()
                && commitment.opaque_commitment.commitment_bytes@ == commitment.curve_commitment@,
        },
{
    match validate_supported_variables(prover_key.supported_variables, polynomial.variables()) {
        Err(error) => {
            return Err(IpaProverCommitError::Shape(error));
        },
        Ok(()) => {},
    }
    let curve_commitment = match commit_ipa_polynomial(&prover_key.generator_basis, polynomial, blinding) {
        Err(error) => {
            return Err(IpaProverCommitError::Commitment(error));
        },
        Ok(commitment) => commitment,
    };
    let opaque_commitment = match curve_commitment.to_opaque_commitment(polynomial.variables()) {
        Err(error) => {
            return Err(IpaProverCommitError::Commitment(error));
        },
        Ok(commitment) => commitment,
    };
    Ok(IpaProverCommitment { curve_commitment, opaque_commitment })
}

} // verus!
