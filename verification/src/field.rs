//! Elements of the BLS12-381 scalar field, held as canonical little-endian limbs.
use vstd::prelude::*;
use ark_ff::{BigInt, Field, PrimeField};
use crate::bytes::{lemma_nat_le_bytes_split, lemma_u64_le_bytes, nat_le_bytes, pow256};

verus! {

/// The prime order `r` of the BLS12-381 scalar field.
pub open spec fn modulus() -> nat {
    52435875175126190479447740508185965837690552500527637822603658699938581184513nat
}

pub open spec fn limb_base() -> nat {
    18446744073709551616nat
}

/// The integer held by four little-endian 64-bit limbs.
pub open spec fn limbs_value(l0: u64, l1: u64, l2: u64, l3: u64) -> nat {
    l0 as nat + limb_base() * (l1 as nat + limb_base() * (l2 as nat + limb_base() * l3 as nat))
}

/// Field addition on canonical representatives.
pub open spec fn fadd(a: nat, b: nat) -> nat {
    (a + b) % modulus()
}

/// Field multiplication on canonical representatives.
pub open spec fn fmul(a: nat, b: nat) -> nat {
    (a * b) % modulus()
}

/// Field subtraction on canonical representatives.
pub open spec fn fsub(a: nat, b: nat) -> nat {
    ((a - b) % (modulus() as int)) as nat
}

/// Field negation on canonical representatives.
pub open spec fn fneg(a: nat) -> nat {
    ((0 - a) % (modulus() as int)) as nat
}

/// The multiplicative inverse of a nonzero field element.
pub open spec fn field_inverse(a: nat) -> nat {
    choose|b: nat| b < modulus() && fmul(a, b) == 1
}

/// The field elements a sequence of scalars denotes.
pub open spec fn scalars_view(values: Seq<Scalar>) -> Seq<nat> {
    values.map_values(|value: Scalar| value@)
}

/// The field sum of a sequence, added from the front.
pub open spec fn field_sum(values: Seq<nat>) -> nat
    decreases values.len(),
{
    if values.len() == 0 {
        0
    } else {
        fadd(field_sum(values.drop_last()), values.last())
    }
}

/// The canonical 32-byte little-endian encoding of a field element.
pub open spec fn scalar_bytes(v: nat) -> Seq<u8> {
    nat_le_bytes(v, 32)
}

/// The integer denoted by little-endian bytes.
pub open spec fn le_nat(bytes: Seq<u8>) -> nat
    decreases bytes.len(),
{
    if bytes.len() == 0 {
        0
    } else {
        bytes[0] as nat + 256 * le_nat(bytes.drop_first())
    }
}

/// The eight little-endian bytes of a 64-bit word.
pub open spec fn u64_le_bytes(x: u64) -> Seq<u8> {
    Seq::new(8, |i: int| ((x >> ((8 * i) as u64)) & 0xff) as u8)
}

/// An element of the BLS12-381 scalar field `F_r`.
///
/// The limbs always hold the canonical representative, an integer below `r`.
#[derive(Clone, Copy, Debug, PartialEq, Eq, Structural)]
pub struct Scalar {
    l0: u64,
    l1: u64,
    l2: u64,
    l3: u64,
}

impl View for Scalar {
    type V = nat;

    open spec fn view(&self) -> nat {
        self.value() % modulus()
    }
}

/// Adds two field elements with arkworks' `Fr` addition.
#[verifier::external_body]
fn ark_fr_add(a: &Scalar, b: &Scalar) -> (r: Scalar)
    ensures
        r@ == fadd(a@, b@),
        r.value() == r@,
{
    let result = ark_bls12_381::Fr::new(BigInt::new([a.l0, a.l1, a.l2, a.l3])) + ark_bls12_381::Fr::new(BigInt::new([b.l0, b.l1, b.l2, b.l3]));
    let limbs = result.into_bigint().0;
    Scalar { l0: limbs[0], l1: limbs[1], l2: limbs[2], l3: limbs[3] }
}

/// Subtracts two field elements with arkworks' `Fr` subtraction.
#[verifier::external_body]
fn ark_fr_sub(a: &Scalar, b: &Scalar) -> (r: Scalar)
    ensures
        r@ == fsub(a@, b@),
        r.value() == r@,
{
    let result = ark_bls12_381::Fr::new(BigInt::new([a.l0, a.l1, a.l2, a.l3])) - ark_bls12_381::Fr::new(BigInt::new([b.l0, b.l1, b.l2, b.l3]));
    let limbs = result.into_bigint().0;
    Scalar { l0: limbs[0], l1: limbs[1], l2: limbs[2], l3: limbs[3] }
}

/// Multiplies two field elements with arkworks' `Fr` multiplication.
#[verifier::external_body]
fn ark_fr_mul(a: &Scalar, b: &Scalar) -> (r: Scalar)
    ensures
        r@ == fmul(a@, b@),
        r.value() == r@,
{
    let result = ark_bls12_381::Fr::new(BigInt::new([a.l0, a.l1, a.l2, a.l3])) * ark_bls12_381::Fr::new(BigInt::new([b.l0, b.l1, b.l2, b.l3]));
    let limbs = result.into_bigint().0;
    Scalar { l0: limbs[0], l1: limbs[1], l2: limbs[2], l3: limbs[3] }
}

/// Negates a field element with arkworks' `Fr` negation.
#[verifier::external_body]
fn ark_fr_neg(a: &Scalar) -> (r: Scalar)
    ensures
        r@ == fneg(a@),
        r.value() == r@,
{
    let result = -ark_bls12_381::Fr::new(BigInt::new([a.l0, a.l1, a.l2, a.l3]));
    let limbs = result.into_bigint().0;
    Scalar { l0: limbs[0], l1: limbs[1], l2: limbs[2], l3: limbs[3] }
}

/// Inverts a field element with arkworks' `Field::inverse`, which returns `None`
/// exactly for zero.
#[verifier::external_body]
fn ark_fr_inverse(a: &Scalar) -> (r: Option<Scalar>)
    ensures
        r is None <==> a@ == 0,
        r matches Some(inverse) ==> fmul(a@, inverse@) == 1 && inverse.value() == inverse@,
{
    match ark_bls12_381::Fr::new(BigInt::new([a.l0, a.l1, a.l2, a.l3])).inverse() {
        Some(result) => {
            let limbs = result.into_bigint().0;
            Some(Scalar { l0: limbs[0], l1: limbs[1], l2: limbs[2], l3: limbs[3] })
        },
        None => None,
    }
}

/// Reduces little-endian bytes modulo `r` with arkworks'
/// `PrimeField::from_le_bytes_mod_order`.
#[verifier::external_body]
fn ark_fr_from_le_bytes_mod_order(bytes: &[u8]) -> (r: Scalar)
    ensures
        r@ == le_nat(bytes@) % modulus(),
        r.value() == r@,
{
    let result = ark_bls12_381::Fr::from_le_bytes_mod_order(bytes);
    let limbs = result.into_bigint().0;
    Scalar { l0: limbs[0], l1: limbs[1], l2: limbs[2], l3: limbs[3] }
}

impl Scalar {
    #[verifier::type_invariant]
    spec fn canonical(self) -> bool {
        self.value() < modulus()
    }

    /// The integer held by the limbs.
    pub closed spec fn value(self) -> nat {
        limbs_value(self.l0, self.l1, self.l2, self.l3)
    }

    /// The 32 little-endian bytes of the canonical representative.
    pub closed spec fn le_bytes(self) -> Seq<u8> {
        u64_le_bytes(self.l0) + u64_le_bytes(self.l1) + u64_le_bytes(self.l2) + u64_le_bytes(
            self.l3,
        )
    }

    proof fn lemma_le_bytes(self)
        requires
            self.value() < modulus(),
        ensures
            self.le_bytes() == scalar_bytes(self@),
    {
        let base = limb_base();
        assert(pow256(8) == base) by {
            reveal_with_fuel(pow256, 9);
        }
        lemma_u64_le_bytes(self.l0);
        lemma_u64_le_bytes(self.l1);
        lemma_u64_le_bytes(self.l2);
        lemma_u64_le_bytes(self.l3);
        let r2 = self.l2 as nat + base * self.l3 as nat;
        let r1 = self.l1 as nat + base * r2;
        lemma_nat_le_bytes_split(self.l2 as nat, self.l3 as nat, 8, 8);
        lemma_nat_le_bytes_split(self.l1 as nat, r2, 8, 16);
        lemma_nat_le_bytes_split(self.l0 as nat, r1, 8, 24);
        vstd::arithmetic::div_mod::lemma_small_mod(self.value(), modulus());
        assert(self.le_bytes() =~= nat_le_bytes(self.value(), 32));
    }

    pub fn zero() -> (r: Scalar)
        ensures
            r@ == 0,
    {
        Scalar { l0: 0, l1: 0, l2: 0, l3: 0 }
    }

    pub fn one() -> (r: Scalar)
        ensures
            r@ == 1,
    {
        Scalar { l0: 1, l1: 0, l2: 0, l3: 0 }
    }

    /// The field element `value mod r`; every `u64` is already below `r`.
    pub fn from_u64(value: u64) -> (r: Scalar)
        ensures
            r@ == value as nat,
    {
        Scalar { l0: value, l1: 0, l2: 0, l3: 0 }
    }

    pub fn add(&self, other: &Scalar) -> (r: Scalar)
        ensures
            r@ == fadd(self@, other@),
    {
        ark_fr_add(self, other)
    }

    pub fn sub(&self, other: &Scalar) -> (r: Scalar)
        ensures
            r@ == fsub(self@, other@),
    {
        ark_fr_sub(self, other)
    }

    pub fn mul(&self, other: &Scalar) -> (r: Scalar)
        ensures
            r@ == fmul(self@, other@),
    {
        ark_fr_mul(self, other)
    }

    pub fn neg(&self) -> (r: Scalar)
        ensures
            r@ == fneg(self@),
    {
        ark_fr_neg(self)
    }

    /// The multiplicative inverse, or `None` for zero.
    pub fn inverse(&self) -> (r: Option<Scalar>)
        ensures
            r is None <==> self@ == 0,
            r matches Some(inverse) ==> fmul(self@, inverse@) == 1 && inverse@ == field_inverse(self@),
    {
        let r = ark_fr_inverse(self);
        proof {
            if let Some(inverse) = r {
                assert(inverse@ < modulus() && fmul(self@, inverse@) == 1);
                let chosen = field_inverse(self@);
                crate::field_laws::lemma_inverse_unique(self@, inverse@, chosen);
            }
        }
        r
    }

    /// Reads little-endian bytes of any length and reduces them modulo `r`.
    pub fn from_le_bytes_mod_order(bytes: &[u8]) -> (r: Scalar)
        ensures
            r@ == le_nat(bytes@) % modulus(),
    {
        ark_fr_from_le_bytes_mod_order(bytes)
    }

    /// Field equality.
    pub fn equals(&self, other: &Scalar) -> (r: bool)
        ensures
            r == (self@ == other@),
            r == (*self == *other),
    {
        proof {
            use_type_invariant(self);
            use_type_invariant(other);
            lemma_limbs_injective(self.l0, self.l1, self.l2, self.l3, other.l0, other.l1, other.l2, other.l3);
        }
        self.l0 == other.l0 && self.l1 == other.l1 && self.l2 == other.l2 && self.l3 == other.l3
    }

    /// The 32 little-endian bytes of the canonical representative.
    pub fn to_le_bytes(&self) -> (r: Vec<u8>)
        ensures
            r@ == self.le_bytes(),
            r@ == scalar_bytes(self@),
            r@.len() == 32,
    {
        let mut out: Vec<u8> = Vec::new();
        push_u64_le(&mut out, self.l0);
        push_u64_le(&mut out, self.l1);
        push_u64_le(&mut out, self.l2);
        push_u64_le(&mut out, self.l3);
        proof {
            assert(out@ =~= self.le_bytes());
            use_type_invariant(self);
            self.lemma_le_bytes();
        }
        out
    }

    /// The four little-endian limbs of the canonical representative.
    pub(crate) fn limbs(&self) -> (r: (u64, u64, u64, u64))
        ensures
            limbs_value(r.0, r.1, r.2, r.3) == self@,
    {
        proof {
            use_type_invariant(self);
            vstd::arithmetic::div_mod::lemma_small_mod(self.value(), modulus());
        }
        (self.l0, self.l1, self.l2, self.l3)
    }

    pub fn is_zero(&self) -> (r: bool)
        ensures
            r == (self@ == 0),
    {
        let zero = Scalar::zero();
        self.equals(&zero)
    }
}

/// The bit length of the modulus, as arkworks' `PrimeField::MODULUS_BIT_SIZE`
/// for `Fr` reports it: the modulus lies between `2^254` and `2^255`.
#[verifier::external_body]
fn ark_fr_modulus_bit_size() -> (r: u64)
    ensures
        r == 255,
{
    ark_bls12_381::Fr::MODULUS_BIT_SIZE as u64
}

/// The bit length of the scalar field's modulus; the binary formats record it.
pub fn modulus_bit_size() -> (r: u64)
    ensures
        r == 255,
{
    ark_fr_modulus_bit_size()
}

/// A fresh vector holding the same scalars.
pub fn copy_scalars(values: &[Scalar]) -> (r: Vec<Scalar>)
    ensures
        r@ == values@,
{
    let mut out: Vec<Scalar> = Vec::new();
    let mut i: usize = 0;
    while i < values.len()
        invariant
            i <= values@.len(),
            out@ == values@.take(i as int),
        decreases values@.len() - i,
    {
        out.push(values[i]);
        i = i + 1;
        assert(out@ =~= values@.take(i as int));
    }
    assert(values@.take(i as int) =~= values@);
    out
}

/// Appends the eight little-endian bytes of a word.
pub fn push_u64_le(out: &mut Vec<u8>, value: u64)
    ensures
        final(out)@ == old(out)@ + u64_le_bytes(value),
{
    let mut i: u64 = 0;
    while i < 8
        invariant
            i <= 8,
            out@.len() == old(out)@.len() + i,
            forall|k: int| 0 <= k < old(out)@.len() ==> out@[k] == old(out)@[k],
            forall|k: int| 0 <= k < i ==> out@[old(out)@.len() + k] == u64_le_bytes(value)[k],
        decreases 8 - i,
    {
        let byte = ((value >> (8 * i)) & 0xff) as u8;
        out.push(byte);
        i = i + 1;
    }
    assert(out@ =~= old(out)@ + u64_le_bytes(value));
}

/// Distinct limb vectors hold distinct integers.
pub proof fn lemma_limbs_injective(a0: u64, a1: u64, a2: u64, a3: u64, b0: u64, b1: u64, b2: u64, b3: u64)
    ensures
        limbs_value(a0, a1, a2, a3) == limbs_value(b0, b1, b2, b3) <==> (a0 == b0 && a1 == b1 && a2 == b2 && a3 == b3),
{
    let base = limb_base();
    let ra = a1 as nat + base * (a2 as nat + base * a3 as nat);
    let rb = b1 as nat + base * (b2 as nat + base * b3 as nat);
    if limbs_value(a0, a1, a2, a3) == limbs_value(b0, b1, b2, b3) {
        lemma_base_digit(a0 as nat, ra, b0 as nat, rb);
        let sa = a2 as nat + base * a3 as nat;
        let sb = b2 as nat + base * b3 as nat;
        lemma_base_digit(a1 as nat, sa, b1 as nat, sb);
        lemma_base_digit(a2 as nat, a3 as nat, b2 as nat, b3 as nat);
    }
}

/// A base-2^64 digit and the remaining quotient are determined by the number.
proof fn lemma_base_digit(d1: nat, q1: nat, d2: nat, q2: nat)
    requires
        d1 < limb_base(),
        d2 < limb_base(),
        d1 + limb_base() * q1 == d2 + limb_base() * q2,
    ensures
        d1 == d2,
        q1 == q2,
{
    let b = limb_base() as int;
    vstd::arithmetic::div_mod::lemma_fundamental_div_mod_converse(
        (d1 + limb_base() * q1) as int,
        b,
        q1 as int,
        d1 as int,
    );
    vstd::arithmetic::div_mod::lemma_fundamental_div_mod_converse(
        (d2 + limb_base() * q2) as int,
        b,
        q2 as int,
        d2 as int,
    );
}

} // verus!
