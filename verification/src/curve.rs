//! Elements of the BLS12-381 G1 group, held as canonical compressed encodings.
//!
//! Group arithmetic is done by arkworks; a value of this module always holds
//! the 48-byte compressed encoding that arkworks gives its point, so equality
//! of points is equality of encodings.
use vstd::prelude::*;
use ark_ec::{AffineRepr, CurveGroup};
use ark_ff::BigInt;
use ark_serialize::{CanonicalDeserialize, CanonicalSerialize, Compress, Validate};
use crate::bytes::bytes_equal;
use crate::field::Scalar;

verus! {

/// The canonical compressed encoding of the point that arkworks reads, with
/// compression and validation, from the front of `bytes`; `None` when it
/// rejects them.
pub uninterp spec fn g1_decode(bytes: Seq<u8>) -> Option<Seq<u8>>;

/// The encoding of the sum of the points encoded by `a` and `b`.
pub uninterp spec fn g1_add(a: Seq<u8>, b: Seq<u8>) -> Seq<u8>;

/// The encoding of `scalar` times the point encoded by `point`.
pub uninterp spec fn g1_mul(point: Seq<u8>, scalar: nat) -> Seq<u8>;

/// The compressed encoding of the identity: the compression and infinity
/// flags over an all-zero x-coordinate.
pub open spec fn g1_identity_bytes() -> Seq<u8> {
    seq![0xc0u8].add(Seq::new(47, |i: int| 0u8))
}

/// A 48-byte string that is its own canonical encoding of a point.
pub open spec fn is_point_encoding(bytes: Seq<u8>) -> bool {
    g1_decode(bytes) == Some(bytes) && bytes.len() == 48
}

/// `G1Affine::deserialize_with_mode(bytes, Compress::Yes, Validate::Yes)`,
/// reported as the point's compressed re-encoding.
#[verifier::external_body]
fn ark_g1_decode(bytes: &[u8]) -> (r: Option<Vec<u8>>)
    ensures
        match r {
            Some(encoding) => g1_decode(bytes@) == Some(encoding@) && is_point_encoding(encoding@),
            None => g1_decode(bytes@) is None,
        },
{
    match ark_bls12_381::G1Affine::deserialize_with_mode(bytes, Compress::Yes, Validate::Yes) {
        Ok(point) => {
            let mut out = Vec::new();
            point.serialize_with_mode(&mut out, Compress::Yes).unwrap();
            Some(out)
        },
        Err(_) => None,
    }
}

/// The compressed encoding of `G1Affine::zero()`.
#[verifier::external_body]
fn ark_g1_identity() -> (r: Vec<u8>)
    ensures
        r@ == g1_identity_bytes(),
        is_point_encoding(r@),
{
    let mut out = Vec::new();
    ark_bls12_381::G1Affine::zero().serialize_with_mode(&mut out, Compress::Yes).unwrap();
    out
}

/// Group addition of two encoded points.
#[verifier::external_body]
fn ark_g1_add(a: &[u8], b: &[u8]) -> (r: Vec<u8>)
    requires
        is_point_encoding(a@),
        is_point_encoding(b@),
    ensures
        r@ == g1_add(a@, b@),
        is_point_encoding(r@),
{
    let left = ark_bls12_381::G1Affine::deserialize_with_mode(a, Compress::Yes, Validate::No).unwrap();
    let right = ark_bls12_381::G1Affine::deserialize_with_mode(b, Compress::Yes, Validate::No).unwrap();
    let mut out = Vec::new();
    (left.into_group() + right.into_group()).into_affine().serialize_with_mode(&mut out, Compress::Yes).unwrap();
    out
}

/// Scalar multiplication of an encoded point.
#[verifier::external_body]
fn ark_g1_mul(point: &[u8], scalar: &Scalar) -> (r: Vec<u8>)
    requires
        is_point_encoding(point@),
    ensures
        r@ == g1_mul(point@, scalar@),
        is_point_encoding(r@),
{
    let base = ark_bls12_381::G1Affine::deserialize_with_mode(point, Compress::Yes, Validate::No).unwrap();
    let (l0, l1, l2, l3) = scalar.limbs();
    let factor = ark_bls12_381::Fr::new(BigInt::new([l0, l1, l2, l3]));
    let mut out = Vec::new();
    (base.into_group() * factor).into_affine().serialize_with_mode(&mut out, Compress::Yes).unwrap();
    out
}

/// A point of G1, held as its canonical compressed encoding.
#[derive(Debug, PartialEq, Eq)]
pub struct GroupElement {
    encoding: Vec<u8>,
}

impl Clone for GroupElement {
    fn clone(&self) -> (r: GroupElement)
        ensures
            r@ == self@,
    {
        proof {
            use_type_invariant(self);
        }
        let encoding = self.encoding.clone();
        assert(encoding@ == self.encoding@);
        GroupElement { encoding }
    }
}

impl View for GroupElement {
    type V = Seq<u8>;

    closed spec fn view(&self) -> Seq<u8> {
        self.encoding@
    }
}

/// The encodings of a sequence of group elements.
pub open spec fn elements_view(points: Seq<GroupElement>) -> Seq<Seq<u8>> {
    points.map_values(|point: GroupElement| point@)
}

/// `Σ scalars[i]·points[i]`, accumulated from the identity in order.
pub open spec fn lincomb(points: Seq<Seq<u8>>, scalars: Seq<nat>) -> Seq<u8>
    decreases points.len(),
{
    if points.len() == 0 || scalars.len() == 0 {
        g1_identity_bytes()
    } else {
        g1_add(
            lincomb(points.drop_last(), scalars.take(points.len() - 1)),
            g1_mul(points.last(), scalars[points.len() - 1]),
        )
    }
}

impl GroupElement {
    #[verifier::type_invariant]
    spec fn canonical(self) -> bool {
        is_point_encoding(self.encoding@)
    }

    /// The identity element.
    pub fn identity() -> (r: GroupElement)
        ensures
            r@ == g1_identity_bytes(),
    {
        GroupElement { encoding: ark_g1_identity() }
    }

    /// Reads a compressed point, validating that it is on the curve and in
    /// the prime-order subgroup.
    pub fn from_compressed_bytes(bytes: &[u8]) -> (r: Option<GroupElement>)
        ensures
            match g1_decode(bytes@) {
                Some(encoding) => r matches Some(point) && point@ == encoding,
                None => r is None,
            },
    {
        match ark_g1_decode(bytes) {
            Some(encoding) => Some(GroupElement { encoding }),
            None => None,
        }
    }

    /// The 48-byte compressed encoding.
    pub fn to_bytes(&self) -> (r: Vec<u8>)
        ensures
            r@ == self@,
            r@.len() == 48,
            is_point_encoding(r@),
    {
        proof {
            use_type_invariant(self);
        }
        let r = self.encoding.clone();
        assert(r@ == self.encoding@);
        r
    }

    pub fn add(&self, other: &GroupElement) -> (r: GroupElement)
        ensures
            r@ == g1_add(self@, other@),
    {
        proof {
            use_type_invariant(self);
            use_type_invariant(other);
        }
        GroupElement { encoding: ark_g1_add(self.encoding.as_slice(), other.encoding.as_slice()) }
    }

    pub fn mul(&self, scalar: &Scalar) -> (r: GroupElement)
        ensures
            r@ == g1_mul(self@, scalar@),
    {
        proof {
            use_type_invariant(self);
        }
        GroupElement { encoding: ark_g1_mul(self.encoding.as_slice(), scalar) }
    }

    pub fn equals(&self, other: &GroupElement) -> (r: bool)
        ensures
            r == (self@ == other@),
    {
        bytes_equal(self.encoding.as_slice(), other.encoding.as_slice())
    }

    pub fn is_identity(&self) -> (r: bool)
        ensures
            r == (self@ == g1_identity_bytes()),
    {
        let identity = GroupElement::identity();
        self.equals(&identity)
    }
}

/// `Σ scalars[i]·points[i]` over equally long sequences.
pub fn linear_combination(scalars: &[Scalar], points: &[GroupElement]) -> (r: GroupElement)
    requires
        scalars@.len() == points@.len(),
    ensures
        r@ == lincomb(elements_view(points@), crate::field::scalars_view(scalars@)),
{
    let ghost all_points = elements_view(points@);
    let ghost all_scalars = crate::field::scalars_view(scalars@);
    let mut accumulator = GroupElement::identity();
    let mut i: usize = 0;
    while i < points.len()
        invariant
            i <= points@.len(),
            scalars@.len() == points@.len(),
            all_points == elements_view(points@),
            all_scalars == crate::field::scalars_view(scalars@),
            accumulator@ == lincomb(all_points.take(i as int), all_scalars.take(i as int)),
        decreases points@.len() - i,
    {
        let term = points[i].mul(&scalars[i]);
        accumulator = accumulator.add(&term);
        proof {
            let next_points = all_points.take(i + 1);
            let next_scalars = all_scalars.take(i + 1);
            assert(next_points.drop_last() =~= all_points.take(i as int));
            assert(next_scalars.take(i as int) =~= all_scalars.take(i as int));
            assert(next_points.last() == points@[i as int]@);
        }
        i = i + 1;
    }
    assert(all_points.take(i as int) =~= all_points);
    assert(all_scalars.take(i as int) =~= all_scalars);
    accumulator
}

} // verus!
