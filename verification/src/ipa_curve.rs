//! Typed IPA generator points and bases over G1.
use vstd::prelude::*;
use crate::curve::{g1_decode, g1_identity_bytes, GroupElement};
use crate::ipa_generators::{
    basis_check, bind_ipa_generator_basis, expected_ipa_generator_count, generator_basis_entries,
    generator_count, IpaGeneratorBasis, IpaGeneratorBasisError,
};
use crate::arith::pow2;
use crate::transcript::{all_framable, byte_strings, ProofTranscript};
use crate::bytes::contains_bytes;

verus! {

#[derive(Clone, Copy, Debug, PartialEq, Eq)]
pub enum IpaCurvePointError {
    SerializationFailed,
    DeserializationFailed,
    IdentityPoint,
    DuplicatePoint { label: &'static str, index: usize },
    InvalidGeneratorCount { label: &'static str, expected: usize, actual: usize },
    InvalidOpaqueBasis(IpaGeneratorBasisError),
}

/// A generator point: a group element other than the identity.
#[derive(Debug, PartialEq, Eq)]
pub struct IpaCurvePoint {
    point: GroupElement,
}

impl View for IpaCurvePoint {
    type V = Seq<u8>;

    closed spec fn view(&self) -> Seq<u8> {
        self.point@
    }
}

impl Clone for IpaCurvePoint {
    fn clone(&self) -> (r: IpaCurvePoint)
        ensures
            r@ == self@,
    {
        proof {
            use_type_invariant(self);
        }
        IpaCurvePoint { point: self.point.clone() }
    }
}

/// The encodings of a sequence of generator points.
pub open spec fn points_view(points: Seq<IpaCurvePoint>) -> Seq<Seq<u8>> {
    points.map_values(|point: IpaCurvePoint| point@)
}

impl IpaCurvePoint {
    #[verifier::type_invariant]
    spec fn not_identity(self) -> bool {
        self.point@ != g1_identity_bytes()
    }

    /// A generator point from a group element; the identity is refused.
    pub fn from_projective(point: GroupElement) -> (r: Result<IpaCurvePoint, IpaCurvePointError>)
        ensures
            point@ == g1_identity_bytes() ==> r == Err::<IpaCurvePoint, IpaCurvePointError>(
                IpaCurvePointError::IdentityPoint,
            ),
            point@ != g1_identity_bytes() ==> (r matches Ok(generator) && generator@ == point@),
    {
        IpaCurvePoint::from_affine(point)
    }

    /// A generator point from a group element; the identity is refused.
    pub fn from_affine(affine: GroupElement) -> (r: Result<IpaCurvePoint, IpaCurvePointError>)
        ensures
            affine@ == g1_identity_bytes() ==> r == Err::<IpaCurvePoint, IpaCurvePointError>(
                IpaCurvePointError::IdentityPoint,
            ),
            affine@ != g1_identity_bytes() ==> (r matches Ok(generator) && generator@ == affine@),
    {
        if affine.is_identity() {
            return Err(IpaCurvePointError::IdentityPoint);
        }
        Ok(IpaCurvePoint { point: affine })
    }

    /// Reads a compressed generator point, validating curve and subgroup
    /// membership; the identity is refused.
    pub fn from_compressed_bytes(bytes: &[u8]) -> (r: Result<IpaCurvePoint, IpaCurvePointError>)
        ensures
            match g1_decode(bytes@) {
                None => r == Err::<IpaCurvePoint, IpaCurvePointError>(IpaCurvePointError::DeserializationFailed),
                Some(encoding) => if encoding == g1_identity_bytes() {
                    r == Err::<IpaCurvePoint, IpaCurvePointError>(IpaCurvePointError::IdentityPoint)
                } else {
                    r matches Ok(generator) && generator@ == encoding
                },
            },
    {
        match GroupElement::from_compressed_bytes(bytes) {
            None => Err(IpaCurvePointError::DeserializationFailed),
            Some(point) => IpaCurvePoint::from_affine(point),
        }
    }

    /// The group element.
    pub fn affine(&self) -> (r: GroupElement)
        ensures
            r@ == self@,
    {
        self.point.clone()
    }

    /// The compressed encoding.
    pub fn to_compressed_bytes(&self) -> (r: Result<Vec<u8>, IpaCurvePointError>)
        ensures
            r matches Ok(bytes) && bytes@ == self@ && bytes@.len() == 48 && crate::curve::is_point_encoding(bytes@)
                && bytes@ != g1_identity_bytes(),
    {
        proof {
            use_type_invariant(self);
        }
        Ok(self.point.to_bytes())
    }
}

/// The first generator of a collection whose encoding occurred before it,
/// among `seen` and the earlier generators of the collection.
pub open spec fn duplicate_check(label: &'static str, points: Seq<Seq<u8>>, seen: Seq<Seq<u8>>, count: nat) -> Result<
    (),
    IpaCurvePointError,
>
    decreases count,
{
    if count == 0 {
        Ok(())
    } else {
        match duplicate_check(label, points, seen, (count - 1) as nat) {
            Err(error) => Err(error),
            Ok(()) => if (seen + points.take(count - 1)).contains(points[count - 1]) {
                Err(IpaCurvePointError::DuplicatePoint { label, index: (count - 1) as usize })
            } else {
                Ok(())
            },
        }
    }
}

/// The outcome of validating a typed generator basis.
pub open spec fn curve_basis_check(variables: usize, polynomial: Seq<Seq<u8>>, evaluation: Seq<Seq<u8>>, blinding: Seq<u8>) -> Result<
    (),
    IpaCurvePointError,
> {
    match generator_count(variables) {
        Err(error) => Err(IpaCurvePointError::InvalidOpaqueBasis(error)),
        Ok(expected) => if polynomial.len() != expected {
            Err(IpaCurvePointError::InvalidGeneratorCount { label: "polynomial", expected, actual: polynomial.len() as usize })
        } else if evaluation.len() != expected {
            Err(IpaCurvePointError::InvalidGeneratorCount { label: "evaluation", expected, actual: evaluation.len() as usize })
        } else {
            match duplicate_check("polynomial", polynomial, seq![], polynomial.len()) {
                Err(error) => Err(error),
                Ok(()) => match duplicate_check("evaluation", evaluation, polynomial, evaluation.len()) {
                    Err(error) => Err(error),
                    Ok(()) => if (polynomial + evaluation).contains(blinding) {
                        Err(IpaCurvePointError::DuplicatePoint { label: "blinding", index: 0 })
                    } else {
                        Ok(())
                    },
                },
            }
        },
    }
}

/// Copies of generator points.
pub fn clone_points(points: &[IpaCurvePoint]) -> (r: Vec<IpaCurvePoint>)
    ensures
        points_view(r@) == points_view(points@),
{
    let mut out: Vec<IpaCurvePoint> = Vec::new();
    let mut i: usize = 0;
    while i < points.len()
        invariant
            i <= points@.len(),
            points_view(out@) == points_view(points@.take(i as int)),
        decreases points@.len() - i,
    {
        let ghost previous = out@;
        out.push(points[i].clone());
        proof {
            assert(points_view(out@) =~= points_view(previous).push(points@[i as int]@));
            assert(points_view(points@.take(i + 1)) =~= points_view(points@.take(i as int)).push(points@[i as int]@));
        }
        i = i + 1;
    }
    assert(points@.take(i as int) =~= points@);
    out
}

/// Typed IPA generator basis over G1.
#[derive(Debug, PartialEq, Eq)]
pub struct IpaCurveGeneratorBasis {
    pub variables: usize,
    pub polynomial_generators: Vec<IpaCurvePoint>,
    pub evaluation_generators: Vec<IpaCurvePoint>,
    pub blinding_generator: IpaCurvePoint,
}

/// Once a duplicate is found, checking more of the collection reports it.
pub proof fn lemma_duplicate_check_stays_rejected(
    label: &'static str,
    points: Seq<Seq<u8>>,
    seen: Seq<Seq<u8>>,
    rejected: nat,
    count: nat,
)
    requires
        rejected <= count,
        duplicate_check(label, points, seen, rejected) is Err,
    ensures
        duplicate_check(label, points, seen, count) == duplicate_check(label, points, seen, rejected),
    decreases count,
{
    if rejected < count {
        lemma_duplicate_check_stays_rejected(label, points, seen, rejected, (count - 1) as nat);
    }
}

fn insert_generator_bytes(label: &'static str, generators: &[IpaCurvePoint], seen: &mut Vec<Vec<u8>>) -> (r: Result<
    (),
    IpaCurvePointError,
>)
    ensures
        r == duplicate_check(label, points_view(generators@), byte_strings(old(seen)@), generators@.len()),
        r is Ok ==> byte_strings(final(seen)@) == byte_strings(old(seen)@) + points_view(generators@),
{
    let ghost points = points_view(generators@);
    let ghost before = byte_strings(seen@);
    let mut index: usize = 0;
    while index < generators.len()
        invariant
            index <= generators@.len(),
            points == points_view(generators@),
            before == byte_strings(old(seen)@),
            byte_strings(seen@) == before + points.take(index as int),
            duplicate_check(label, points, before, index as nat) == Ok::<(), IpaCurvePointError>(()),
        decreases generators@.len() - index,
    {
        let bytes = generators[index].point.to_bytes();
        assert(points[index as int] == bytes@);
        if contains_bytes(seen, bytes.as_slice()) {
            proof {
                lemma_duplicate_check_stays_rejected(label, points, before, (index + 1) as nat, points.len());
            }
            return Err(IpaCurvePointError::DuplicatePoint { label, index });
        }
        let ghost previous = seen@;
        seen.push(bytes);
        proof {
            assert(byte_strings(seen@) =~= byte_strings(previous).push(points[index as int]));
            assert(points.take(index + 1) =~= points.take(index as int).push(points[index as int]));
            assert(byte_strings(seen@) =~= before + points.take(index + 1));
        }
        index = index + 1;
    }
    assert(points.take(index as int) =~= points);
    Ok(())
}

impl Clone for IpaCurveGeneratorBasis {
    fn clone(&self) -> (r: IpaCurveGeneratorBasis)
        ensures
            r.variables == self.variables,
            r.polynomial_view() == self.polynomial_view(),
            r.evaluation_view() == self.evaluation_view(),
            r.blinding_generator@ == self.blinding_generator@,
    {
        IpaCurveGeneratorBasis {
            variables: self.variables,
            polynomial_generators: clone_points(self.polynomial_generators.as_slice()),
            evaluation_generators: clone_points(self.evaluation_generators.as_slice()),
            blinding_generator: self.blinding_generator.clone(),
        }
    }
}

impl IpaCurveGeneratorBasis {
    pub open spec fn polynomial_view(&self) -> Seq<Seq<u8>> {
        points_view(self.polynomial_generators@)
    }

    pub open spec fn evaluation_view(&self) -> Seq<Seq<u8>> {
        points_view(self.evaluation_generators@)
    }

    pub open spec fn check(&self) -> Result<(), IpaCurvePointError> {
        curve_basis_check(self.variables, self.polynomial_view(), self.evaluation_view(), self.blinding_generator@)
    }

    pub fn new(
        variables: usize,
        polynomial_generators: Vec<IpaCurvePoint>,
        evaluation_generators: Vec<IpaCurvePoint>,
        blinding_generator: IpaCurvePoint,
    ) -> (r: Result<IpaCurveGeneratorBasis, IpaCurvePointError>)
        ensures
            match curve_basis_check(
                variables,
                points_view(polynomial_generators@),
                points_view(evaluation_generators@),
                blinding_generator@,
            ) {
                Err(error) => r == Err::<IpaCurveGeneratorBasis, IpaCurvePointError>(error),
                Ok(()) => r matches Ok(basis) && basis.variables == variables
                    && basis.polynomial_view() == points_view(polynomial_generators@)
                    && basis.evaluation_view() == points_view(evaluation_generators@)
                    && basis.blinding_generator@ == blinding_generator@,
            },
    {
        let basis = IpaCurveGeneratorBasis { variables, polynomial_generators, evaluation_generators, blinding_generator };
        match basis.validate() {
            Err(error) => Err(error),
            Ok(()) => Ok(basis),
        }
    }

    pub fn validate(&self) -> (r: Result<(), IpaCurvePointError>)
        ensures
            r == self.check(),
    {
        let expected = match expected_ipa_generator_count(self.variables) {
            Err(error) => {
                return Err(IpaCurvePointError::InvalidOpaqueBasis(error));
            },
            Ok(expected) => expected,
        };
        if self.polynomial_generators.len() != expected {
            return Err(
                IpaCurvePointError::InvalidGeneratorCount {
                    label: "polynomial",
                    expected,
                    actual: self.polynomial_generators.len(),
                },
            );
        }
        if self.evaluation_generators.len() != expected {
            return Err(
                IpaCurvePointError::InvalidGeneratorCount {
                    label: "evaluation",
                    expected,
                    actual: self.evaluation_generators.len(),
                },
            );
        }
        let mut seen: Vec<Vec<u8>> = Vec::new();
        assert(byte_strings(seen@) =~= seq![]);
        match insert_generator_bytes("polynomial", self.polynomial_generators.as_slice(), &mut seen) {
            Err(error) => {
                return Err(error);
            },
            Ok(()) => {},
        }
        assert(byte_strings(seen@) =~= self.polynomial_view());
        match insert_generator_bytes("evaluation", self.evaluation_generators.as_slice(), &mut seen) {
            Err(error) => {
                return Err(error);
            },
            Ok(()) => {},
        }
        let blinding = self.blinding_generator.point.to_bytes();
        if contains_bytes(&seen, blinding.as_slice()) {
            return Err(IpaCurvePointError::DuplicatePoint { label: "blinding", index: 0 });
        }
        Ok(())
    }

    /// The basis as generator encodings, checked both as a typed basis and as
    /// an encoded one.
    pub fn to_opaque_basis(&self) -> (r: Result<IpaGeneratorBasis, IpaCurvePointError>)
        ensures
            match self.check() {
                Err(error) => r == Err::<IpaGeneratorBasis, IpaCurvePointError>(error),
                Ok(()) => match basis_check(
                    self.variables,
                    self.polynomial_view(),
                    self.evaluation_view(),
                    self.blinding_generator@,
                ) {
                    Err(error) => r == Err::<IpaGeneratorBasis, IpaCurvePointError>(
                        IpaCurvePointError::InvalidOpaqueBasis(error),
                    ),
                    Ok(()) => r matches Ok(basis) && basis.variables == self.variables
                        && basis.polynomial_view() == self.polynomial_view()
                        && basis.evaluation_view() == self.evaluation_view()
                        && basis.blinding_generator@ == self.blinding_generator@
                        && all_framable(basis.polynomial_view()) && all_framable(basis.evaluation_view())
                        && basis.blinding_generator@.len() == 48,
                },
            },
    {
        match self.validate() {
            Err(error) => {
                return Err(error);
            },
            Ok(()) => {},
        }
        let polynomial_generators = encode_points(self.polynomial_generators.as_slice());
        let evaluation_generators = encode_points(self.evaluation_generators.as_slice());
        let blinding_generator = self.blinding_generator.point.to_bytes();
        match IpaGeneratorBasis::new(self.variables, polynomial_generators, evaluation_generators, blinding_generator) {
            Err(error) => Err(IpaCurvePointError::InvalidOpaqueBasis(error)),
            Ok(basis) => Ok(basis),
        }
    }
}

/// The 48-byte encodings of generator points.
pub fn encode_points(points: &[IpaCurvePoint]) -> (r: Vec<Vec<u8>>)
    ensures
        byte_strings(r@) == points_view(points@),
        all_framable(byte_strings(r@)),
{
    let mut out: Vec<Vec<u8>> = Vec::new();
    let mut i: usize = 0;
    while i < points.len()
        invariant
            i <= points@.len(),
            byte_strings(out@) == points_view(points@.take(i as int)),
            forall|k: int| 0 <= k < out@.len() ==> (#[trigger] out@[k])@.len() == 48,
        decreases points@.len() - i,
    {
        let bytes = points[i].point.to_bytes();
        let ghost previous = out@;
        out.push(bytes);
        proof {
            assert(byte_strings(out@) =~= byte_strings(previous).push(points@[i as int]@));
            assert(points_view(points@.take(i + 1)) =~= points_view(points@.take(i as int)).push(points@[i as int]@));
        }
        i = i + 1;
    }
    assert(points@.take(i as int) =~= points@);
    assert forall|k: int| 0 <= k < byte_strings(out@).len() implies (#[trigger] byte_strings(out@)[k]).len() <= u32::MAX by {
        assert(byte_strings(out@)[k] == out@[k]@);
    }
    out
}

/// Binds a typed generator basis, through its encodings, into the transcript.
pub fn bind_ipa_curve_generator_basis<T: ProofTranscript>(transcript: &mut T, basis: &IpaCurveGeneratorBasis) -> (r: Result<
    (),
    IpaCurvePointError,
>)
    ensures
        r is Err ==> final(transcript).entries() == old(transcript).entries(),
        r is Ok <==> basis.check() is Ok && basis_check(
            basis.variables,
            basis.polynomial_view(),
            basis.evaluation_view(),
            basis.blinding_generator@,
        ) is Ok,
        basis.check() matches Err(error) ==> r == Err::<(), IpaCurvePointError>(error),
        basis.check() is Ok ==> (basis_check(
            basis.variables,
            basis.polynomial_view(),
            basis.evaluation_view(),
            basis.blinding_generator@,
        ) matches Err(error) ==> r == Err::<(), IpaCurvePointError>(IpaCurvePointError::InvalidOpaqueBasis(error))),
        r is Ok ==> final(transcript).entries() == old(transcript).entries() + generator_basis_entries(
            basis.variables,
            pow2(basis.variables as nat) as usize,
            basis.polynomial_view(),
            basis.evaluation_view(),
            basis.blinding_generator@,
        ),
{
    let opaque = match basis.to_opaque_basis() {
        Err(error) => {
            return Err(error);
        },
        Ok(opaque) => opaque,
    };
    match bind_ipa_generator_basis(transcript, &opaque) {
        Err(error) => Err(IpaCurvePointError::InvalidOpaqueBasis(error)),
        Ok(()) => Ok(()),
    }
}

} // verus!
