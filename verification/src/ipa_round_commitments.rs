//! The `L` and `R` commitments of one IPA reduction round, and the folding
//! of the generator basis at the round challenge.
use vstd::prelude::*;
use crate::curve::{elements_view, g1_add, g1_identity_bytes, g1_mul, lincomb, linear_combination, GroupElement};
use crate::field::{field_inverse, scalars_view, Scalar};
use crate::ipa_commitment::{points_of, IpaCommitmentEquationError, IpaCurveCommitment};
use crate::ipa_curve::{points_view, IpaCurveGeneratorBasis, IpaCurvePoint, IpaCurvePointError};
use crate::ipa_evaluation::{inner_product, scalar_inner_product};
use crate::ipa_reduction::{input_length_check, validate_ipa_reduction_input_length, IpaReductionRound, IpaReductionRoundError};
use crate::ipa_transcript::{IpaTranscriptError, IpaTranscriptRound};

verus! {

/// The first half of a sequence.
pub open spec fn low_half<A>(values: Seq<A>) -> Seq<A> {
    values.take((values.len() / 2) as int)
}

/// The second half of a sequence.
pub open spec fn high_half<A>(values: Seq<A>) -> Seq<A> {
    values.skip((values.len() / 2) as int)
}

#[derive(Clone, Copy, Debug, PartialEq, Eq)]
pub enum IpaRoundCommitmentError {
    Curve(IpaCurvePointError),
    Commitment(IpaCommitmentEquationError),
    Transcript(IpaTranscriptError),
    Reduction(IpaReductionRoundError),
    LengthMismatch { left: usize, right: usize },
    GeneratorCountMismatch { label: &'static str, expected: usize, actual: usize },
}

/// One round's `L` and `R` commitments with their cross terms.
#[derive(Clone, Debug, PartialEq, Eq)]
pub struct IpaRoundCommitments {
    pub round_index: usize,
    pub left_commitment: IpaCurveCommitment,
    pub right_commitment: IpaCurveCommitment,
    pub left_cross_term: Scalar,
    pub right_cross_term: Scalar,
    pub input_length: usize,
}

impl IpaRoundCommitments {
    pub fn left_commitment_bytes(&self) -> (r: Result<Vec<u8>, IpaRoundCommitmentError>)
        ensures
            r matches Ok(bytes) && bytes@ == self.left_commitment@ && bytes@.len() == 48,
    {
        match self.left_commitment.to_compressed_bytes() {
            Ok(bytes) => Ok(bytes),
            Err(error) => Err(IpaRoundCommitmentError::Commitment(error)),
        }
    }

    pub fn right_commitment_bytes(&self) -> (r: Result<Vec<u8>, IpaRoundCommitmentError>)
        ensures
            r matches Ok(bytes) && bytes@ == self.right_commitment@ && bytes@.len() == 48,
    {
        match self.right_commitment.to_compressed_bytes() {
            Ok(bytes) => Ok(bytes),
            Err(error) => Err(IpaRoundCommitmentError::Commitment(error)),
        }
    }

    /// The round message carrying both commitments' encodings.
    pub fn to_transcript_round(&self) -> (r: Result<IpaTranscriptRound, IpaRoundCommitmentError>)
        ensures
            r matches Ok(round) && round.round_index == self.round_index
                && round.left_commitment_bytes@ == self.left_commitment@
                && round.right_commitment_bytes@ == self.right_commitment@
                && round.left_commitment_bytes@.len() == 48 && round.right_commitment_bytes@.len() == 48,
    {
        let left = match self.left_commitment_bytes() {
            Err(error) => {
                return Err(error);
            },
            Ok(bytes) => bytes,
        };
        let right = match self.right_commitment_bytes() {
            Err(error) => {
                return Err(error);
            },
            Ok(bytes) => bytes,
        };
        match IpaTranscriptRound::new(self.round_index, left, right) {
            Err(error) => Err(IpaRoundCommitmentError::Transcript(error)),
            Ok(round) => Ok(round),
        }
    }

    /// The checked reduction round for the challenge drawn after this round.
    pub fn to_reduction_round(&self, challenge: Scalar) -> (r: Result<IpaReductionRound, IpaRoundCommitmentError>)
        ensures
            input_length_check(self.input_length) matches Err(error) ==> r == Err::<
                IpaReductionRound,
                IpaRoundCommitmentError,
            >(IpaRoundCommitmentError::Reduction(error)),
            input_length_check(self.input_length) is Ok && challenge@ == 0 ==> r == Err::<
                IpaReductionRound,
                IpaRoundCommitmentError,
            >(IpaRoundCommitmentError::Reduction(IpaReductionRoundError::ZeroChallenge)),
            input_length_check(self.input_length) is Ok && challenge@ != 0 ==> (r matches Ok(round)
                && round.challenge == challenge && round.input_length == self.input_length
                && round.transcript_round.round_index == self.round_index),
    {
        let left = match self.left_commitment_bytes() {
            Err(error) => {
                return Err(error);
            },
            Ok(bytes) => bytes,
        };
        let right = match self.right_commitment_bytes() {
            Err(error) => {
                return Err(error);
            },
            Ok(bytes) => bytes,
        };
        match IpaReductionRound::new(self.round_index, left, right, challenge, self.input_length) {
            Err(error) => Err(IpaRoundCommitmentError::Reduction(error)),
            Ok(round) => Ok(round),
        }
    }
}

/// The input checks of a round.
pub open spec fn round_inputs_check(
    variables: usize,
    polynomial: Seq<Seq<u8>>,
    evaluation: Seq<Seq<u8>>,
    blinding: Seq<u8>,
    a: Seq<nat>,
    b: Seq<nat>,
) -> Result<(), IpaRoundCommitmentError> {
    match input_length_check(a.len() as usize) {
        Err(error) => Err(IpaRoundCommitmentError::Reduction(error)),
        Ok(()) => if a.len() != b.len() {
            Err(IpaRoundCommitmentError::LengthMismatch { left: a.len() as usize, right: b.len() as usize })
        } else {
            match crate::ipa_curve::curve_basis_check(variables, polynomial, evaluation, blinding) {
                Err(error) => Err(IpaRoundCommitmentError::Curve(error)),
                Ok(()) => if polynomial.len() != a.len() {
                    Err(
                        IpaRoundCommitmentError::GeneratorCountMismatch {
                            label: "polynomial",
                            expected: a.len() as usize,
                            actual: polynomial.len() as usize,
                        },
                    )
                } else if evaluation.len() != b.len() {
                    Err(
                        IpaRoundCommitmentError::GeneratorCountMismatch {
                            label: "evaluation",
                            expected: b.len() as usize,
                            actual: evaluation.len() as usize,
                        },
                    )
                } else {
                    Ok(())
                },
            }
        },
    }
}

/// `L = <a_L, G_R> + <b_R, H_L> + <a_L, b_R>·U`.
pub open spec fn left_round_commitment(
    polynomial: Seq<Seq<u8>>,
    evaluation: Seq<Seq<u8>>,
    a: Seq<nat>,
    b: Seq<nat>,
    u: Seq<u8>,
) -> Seq<u8> {
    g1_add(
        g1_add(
            lincomb(high_half(polynomial), low_half(a)),
            lincomb(low_half(evaluation), high_half(b)),
        ),
        g1_mul(u, inner_product(low_half(a), high_half(b))),
    )
}

/// `R = <a_R, G_L> + <b_L, H_R> + <a_R, b_L>·U`.
pub open spec fn right_round_commitment(
    polynomial: Seq<Seq<u8>>,
    evaluation: Seq<Seq<u8>>,
    a: Seq<nat>,
    b: Seq<nat>,
    u: Seq<u8>,
) -> Seq<u8> {
    g1_add(
        g1_add(
            lincomb(low_half(polynomial), high_half(a)),
            lincomb(high_half(evaluation), low_half(b)),
        ),
        g1_mul(u, inner_product(high_half(a), low_half(b))),
    )
}

fn validate_round_commitment_inputs(basis: &IpaCurveGeneratorBasis, a: &[Scalar], b: &[Scalar]) -> (r: Result<
    (),
    IpaRoundCommitmentError,
>)
    ensures
        r == round_inputs_check(
            basis.variables,
            basis.polynomial_view(),
            basis.evaluation_view(),
            basis.blinding_generator@,
            scalars_view(a@),
            scalars_view(b@),
        ),
{
    match validate_ipa_reduction_input_length(a.len()) {
        Err(error) => {
            return Err(IpaRoundCommitmentError::Reduction(error));
        },
        Ok(()) => {},
    }
    if a.len() != b.len() {
        return Err(IpaRoundCommitmentError::LengthMismatch { left: a.len(), right: b.len() });
    }
    match basis.validate() {
        Err(error) => {
            return Err(IpaRoundCommitmentError::Curve(error));
        },
        Ok(()) => {},
    }
    if basis.polynomial_generators.len() != a.len() {
        return Err(
            IpaRoundCommitmentError::GeneratorCountMismatch {
                label: "polynomial",
                expected: a.len(),
                actual: basis.polynomial_generators.len(),
            },
        );
    }
    if basis.evaluation_generators.len() != b.len() {
        return Err(
            IpaRoundCommitmentError::GeneratorCountMismatch {
                label: "evaluation",
                expected: b.len(),
                actual: basis.evaluation_generators.len(),
            },
        );
    }
    Ok(())
}

/// Computes one round's `L` and `R` commitments.
pub fn compute_ipa_round_commitments(
    round_index: usize,
    basis: &IpaCurveGeneratorBasis,
    polynomial_vector: &[Scalar],
    evaluation_vector: &[Scalar],
    inner_product_generator: &IpaCurvePoint,
) -> (r: Result<IpaRoundCommitments, IpaRoundCommitmentError>)
    ensures
        match round_inputs_check(
            basis.variables,
            basis.polynomial_view(),
            basis.evaluation_view(),
            basis.blinding_generator@,
            scalars_view(polynomial_vector@),
            scalars_view(evaluation_vector@),
        ) {
            Err(error) => r == Err::<IpaRoundCommitments, IpaRoundCommitmentError>(error),
            Ok(()) => r matches Ok(commitments) && commitments.round_index == round_index
                && commitments.input_length == polynomial_vector@.len()
                && commitments.left_commitment@ == left_round_commitment(
                basis.polynomial_view(),
                basis.evaluation_view(),
                scalars_view(polynomial_vector@),
                scalars_view(evaluation_vector@),
                inner_product_generator@,
            ) && commitments.right_commitment@ == right_round_commitment(
                basis.polynomial_view(),
                basis.evaluation_view(),
                scalars_view(polynomial_vector@),
                scalars_view(evaluation_vector@),
                inner_product_generator@,
            ) && commitments.left_cross_term@ == inner_product(
                low_half(scalars_view(polynomial_vector@)),
                high_half(scalars_view(evaluation_vector@)),
            ) && commitments.right_cross_term@ == inner_product(
                high_half(scalars_view(polynomial_vector@)),
                low_half(scalars_view(evaluation_vector@)),
            ),
        },
{
    match validate_round_commitment_inputs(basis, polynomial_vector, evaluation_vector) {
        Err(error) => {
            return Err(error);
        },
        Ok(()) => {},
    }
    let ghost a = scalars_view(polynomial_vector@);
    let ghost b = scalars_view(evaluation_vector@);
    let half = polynomial_vector.len() / 2;
    let (a_left, a_right) = polynomial_vector.split_at(half);
    let (b_left, b_right) = evaluation_vector.split_at(half);
    let polynomial_points = points_of(basis.polynomial_generators.as_slice());
    let evaluation_points = points_of(basis.evaluation_generators.as_slice());
    let (g_left, g_right) = polynomial_points.as_slice().split_at(half);
    let (h_left, h_right) = evaluation_points.as_slice().split_at(half);
    proof {
        assert(scalars_view(a_left@) =~= low_half(a));
        assert(scalars_view(a_right@) =~= high_half(a));
        assert(scalars_view(b_left@) =~= low_half(b));
        assert(scalars_view(b_right@) =~= high_half(b));
        assert(elements_view(g_left@) =~= low_half(basis.polynomial_view()));
        assert(elements_view(g_right@) =~= high_half(basis.polynomial_view()));
        assert(elements_view(h_left@) =~= low_half(basis.evaluation_view()));
        assert(elements_view(h_right@) =~= high_half(basis.evaluation_view()));
    }
    let left_cross_term = scalar_inner_product(a_left, b_right);
    let right_cross_term = scalar_inner_product(a_right, b_left);
    let generator = inner_product_generator.affine();
    let left_group = linear_combination(a_left, g_right).add(&linear_combination(b_right, h_left)).add(
        &generator.mul(&left_cross_term),
    );
    let right_group = linear_combination(a_right, g_left).add(&linear_combination(b_left, h_right)).add(
        &generator.mul(&right_cross_term),
    );
    let left_commitment = match IpaCurveCommitment::from_projective(left_group) {
        Err(error) => {
            return Err(IpaRoundCommitmentError::Commitment(error));
        },
        Ok(commitment) => commitment,
    };
    let right_commitment = match IpaCurveCommitment::from_projective(right_group) {
        Err(error) => {
            return Err(IpaRoundCommitmentError::Commitment(error));
        },
        Ok(commitment) => commitment,
    };
    Ok(
        IpaRoundCommitments {
            round_index,
            left_commitment,
            right_commitment,
            left_cross_term,
            right_cross_term,
            input_length: polynomial_vector.len(),
        },
    )
}

#[derive(Clone, Copy, Debug, PartialEq, Eq)]
pub enum IpaGeneratorFoldingError {
    Curve(IpaCurvePointError),
    Reduction(IpaReductionRoundError),
    LengthMismatch { left: usize, right: usize },
    ZeroChallenge,
    VariableUnderflow,
}

/// `x·P_L + y·P_R`, point by point, over the halves of `points`.
pub open spec fn fold_point_halves(points: Seq<Seq<u8>>, x: nat, y: nat) -> Seq<Seq<u8>> {
    Seq::new(
        points.len() / 2,
        |i: int| g1_add(g1_mul(points[i], x), g1_mul(points[i + points.len() / 2], y)),
    )
}

/// The outcome of folding generators with factors `x` on the low half and
/// `y` on the high half: the first folded generator that is the identity is
/// refused.
pub open spec fn fold_generators_outcome(challenge: nat, points: Seq<Seq<u8>>, x: nat, y: nat) -> Result<
    Seq<Seq<u8>>,
    IpaGeneratorFoldingError,
> {
    if challenge == 0 {
        Err(IpaGeneratorFoldingError::ZeroChallenge)
    } else {
        match input_length_check(points.len() as usize) {
            Err(error) => Err(IpaGeneratorFoldingError::Reduction(error)),
            Ok(()) => if fold_point_halves(points, x, y).contains(g1_identity_bytes()) {
                Err(IpaGeneratorFoldingError::Curve(IpaCurvePointError::IdentityPoint))
            } else {
                Ok(fold_point_halves(points, x, y))
            },
        }
    }
}

/// A folding result with its points taken by encoding.
pub open spec fn folded_points_result(r: Result<Vec<IpaCurvePoint>, IpaGeneratorFoldingError>) -> Result<
    Seq<Seq<u8>>,
    IpaGeneratorFoldingError,
> {
    match r {
        Ok(points) => Ok(points_view(points@)),
        Err(error) => Err(error),
    }
}

/// The outcome of folding a basis given by its parts: the folded generator
/// encodings, or the first check that fails.
pub open spec fn fold_basis_outcome(
    variables: usize,
    polynomial: Seq<Seq<u8>>,
    evaluation: Seq<Seq<u8>>,
    blinding: Seq<u8>,
    challenge: nat,
) -> Result<(Seq<Seq<u8>>, Seq<Seq<u8>>), IpaGeneratorFoldingError> {
    if variables == 0 {
        Err(IpaGeneratorFoldingError::VariableUnderflow)
    } else {
        match crate::ipa_curve::curve_basis_check(variables, polynomial, evaluation, blinding) {
            Err(error) => Err(IpaGeneratorFoldingError::Curve(error)),
            Ok(()) => match fold_generators_outcome(challenge, polynomial, field_inverse(challenge), challenge) {
                Err(error) => Err(error),
                Ok(folded_polynomial) => match fold_generators_outcome(
                    challenge,
                    evaluation,
                    challenge,
                    field_inverse(challenge),
                ) {
                    Err(error) => Err(error),
                    Ok(folded_evaluation) => match crate::ipa_curve::curve_basis_check(
                        (variables - 1) as usize,
                        folded_polynomial,
                        folded_evaluation,
                        blinding,
                    ) {
                        Err(error) => Err(IpaGeneratorFoldingError::Curve(error)),
                        Ok(()) => Ok((folded_polynomial, folded_evaluation)),
                    },
                },
            },
        }
    }
}

fn fold_generators(generators: &[IpaCurvePoint], x: &Scalar, y: &Scalar) -> (r: Result<
    Vec<IpaCurvePoint>,
    IpaGeneratorFoldingError,
>)
    requires
        generators@.len() >= 2,
        generators@.len() % 2 == 0,
    ensures
        match r {
            Ok(points) => points_view(points@) == fold_point_halves(points_view(generators@), x@, y@)
                && !fold_point_halves(points_view(generators@), x@, y@).contains(g1_identity_bytes()),
            Err(error) => error == IpaGeneratorFoldingError::Curve(IpaCurvePointError::IdentityPoint)
                && fold_point_halves(points_view(generators@), x@, y@).contains(g1_identity_bytes()),
        },
{
    let ghost all = points_view(generators@);
    let ghost folded = fold_point_halves(all, x@, y@);
    let half = generators.len() / 2;
    let mut out: Vec<IpaCurvePoint> = Vec::new();
    let mut i: usize = 0;
    while i < half
        invariant
            i <= half,
            half == generators@.len() / 2,
            generators@.len() >= 2,
            all == points_view(generators@),
            folded == fold_point_halves(all, x@, y@),
            points_view(out@) == folded.take(i as int),
            forall|k: int| 0 <= k < i ==> folded[k] != g1_identity_bytes(),
        decreases half - i,
    {
        let low = generators[i].affine().mul(x);
        let high = generators[i + half].affine().mul(y);
        let point = match IpaCurvePoint::from_projective(low.add(&high)) {
            Err(error) => {
                assert(folded[i as int] == g1_identity_bytes());
                assert(folded.contains(g1_identity_bytes()));
                return Err(IpaGeneratorFoldingError::Curve(error));
            },
            Ok(point) => point,
        };
        let ghost previous = out@;
        out.push(point);
        proof {
            assert(points_view(out@) =~= points_view(previous).push(folded[i as int]));
            assert(folded.take(i + 1) =~= folded.take(i as int).push(folded[i as int]));
        }
        i = i + 1;
    }
    assert(folded.take(i as int) =~= folded);
    assert(!folded.contains(g1_identity_bytes())) by {
        if folded.contains(g1_identity_bytes()) {
            let k = choose|k: int| 0 <= k < folded.len() && folded[k] == g1_identity_bytes();
            assert(folded[k] != g1_identity_bytes());
        }
    }
    Ok(out)
}

/// Folds polynomial generators: `G' = x⁻¹·G_L + x·G_R`.
pub fn fold_ipa_polynomial_generators(generators: &[IpaCurvePoint], challenge: Scalar) -> (r: Result<
    Vec<IpaCurvePoint>,
    IpaGeneratorFoldingError,
>)
    ensures
        folded_points_result(r) == fold_generators_outcome(
            challenge@,
            points_view(generators@),
            field_inverse(challenge@),
            challenge@,
        ),
{
    let inverse = match challenge.inverse() {
        None => {
            return Err(IpaGeneratorFoldingError::ZeroChallenge);
        },
        Some(inverse) => inverse,
    };
    match validate_ipa_reduction_input_length(generators.len()) {
        Err(error) => {
            return Err(IpaGeneratorFoldingError::Reduction(error));
        },
        Ok(()) => {},
    }
    fold_generators(generators, &inverse, &challenge)
}

/// Folds evaluation generators: `H' = x·H_L + x⁻¹·H_R`.
pub fn fold_ipa_evaluation_generators(generators: &[IpaCurvePoint], challenge: Scalar) -> (r: Result<
    Vec<IpaCurvePoint>,
    IpaGeneratorFoldingError,
>)
    ensures
        folded_points_result(r) == fold_generators_outcome(
            challenge@,
            points_view(generators@),
            challenge@,
            field_inverse(challenge@),
        ),
{
    let inverse = match challenge.inverse() {
        None => {
            return Err(IpaGeneratorFoldingError::ZeroChallenge);
        },
        Some(inverse) => inverse,
    };
    match validate_ipa_reduction_input_length(generators.len()) {
        Err(error) => {
            return Err(IpaGeneratorFoldingError::Reduction(error));
        },
        Ok(()) => {},
    }
    fold_generators(generators, &challenge, &inverse)
}

/// Folds the whole basis by one round; the blinding generator is carried
/// forward unchanged.
pub fn fold_ipa_generator_basis(basis: &IpaCurveGeneratorBasis, challenge: Scalar) -> (r: Result<
    IpaCurveGeneratorBasis,
    IpaGeneratorFoldingError,
>)
    ensures
        match fold_basis_outcome(
            basis.variables,
            basis.polynomial_view(),
            basis.evaluation_view(),
            basis.blinding_generator@,
            challenge@,
        ) {
            Err(error) => r == Err::<IpaCurveGeneratorBasis, IpaGeneratorFoldingError>(error),
            Ok((polynomial, evaluation)) => r matches Ok(folded) && folded.variables == basis.variables - 1
                && folded.polynomial_view() == polynomial && folded.evaluation_view() == evaluation
                && folded.blinding_generator@ == basis.blinding_generator@,
        },
{
    if basis.variables == 0 {
        return Err(IpaGeneratorFoldingError::VariableUnderflow);
    }
    match basis.validate() {
        Err(error) => {
            return Err(IpaGeneratorFoldingError::Curve(error));
        },
        Ok(()) => {},
    }
    let polynomial_generators = match fold_ipa_polynomial_generators(basis.polynomial_generators.as_slice(), challenge) {
        Err(error) => {
            return Err(error);
        },
        Ok(points) => points,
    };
    let evaluation_generators = match fold_ipa_evaluation_generators(basis.evaluation_generators.as_slice(), challenge) {
        Err(error) => {
            return Err(error);
        },
        Ok(points) => points,
    };
    match IpaCurveGeneratorBasis::new(
        basis.variables - 1,
        polynomial_generators,
        evaluation_generators,
        basis.blinding_generator.clone(),
    ) {
        Err(error) => Err(IpaGeneratorFoldingError::Curve(error)),
        Ok(folded) => Ok(folded),
    }
}

} // verus!
