//! Ring laws of the field operations on canonical representatives.
use vstd::prelude::*;
use vstd::arithmetic::div_mod::{
    lemma_add_mod_noop, lemma_mod_bound, lemma_mod_twice, lemma_mul_mod_noop_general,
    lemma_small_mod,
};
use crate::field::{fadd, field_sum, fmul, fsub, modulus};

verus! {

/// The reductions of integers can stand for the integers in a product.
pub proof fn lemma_mul_mod_both(a: int, b: int)
    ensures
        ((a % modulus() as int) * (b % modulus() as int)) % modulus() as int == (a * b) % modulus() as int,
{
    lemma_mul_mod_noop_general(a, b, modulus() as int);
}

/// The reductions of integers can stand for the integers in a sum.
pub proof fn lemma_add_mod_both(a: int, b: int)
    ensures
        ((a % modulus() as int) + (b % modulus() as int)) % modulus() as int == (a + b) % modulus() as int,
{
    lemma_add_mod_noop(a, b, modulus() as int);
}

/// A canonical representative is its own reduction.
pub proof fn lemma_canonical(a: nat)
    requires
        a < modulus(),
    ensures
        a % modulus() == a,
        (a as int) % (modulus() as int) == a as int,
{
    lemma_small_mod(a, modulus());
}

/// Every field operation yields a canonical representative.
pub proof fn lemma_ops_canonical(a: nat, b: nat)
    ensures
        fadd(a, b) < modulus(),
        fmul(a, b) < modulus(),
        fsub(a, b) < modulus(),
{
    lemma_mod_bound(a - b, modulus() as int);
}

pub proof fn lemma_field_sum_canonical(values: Seq<nat>)
    ensures
        field_sum(values) < modulus(),
    decreases values.len(),
{
    if values.len() > 0 {
        lemma_ops_canonical(field_sum(values.drop_last()), values.last());
    }
}

/// `(1 - r) + r = 1`.
pub proof fn lemma_complement_sum(r: nat)
    requires
        r < modulus(),
    ensures
        fadd(fsub(1, r), r) == 1,
{
    let p = modulus() as int;
    lemma_canonical(r);
    lemma_add_mod_both(1 - r, r as int);
    lemma_small_mod(1, modulus());
}

/// Multiplication distributes over addition on both factors' reductions:
/// `x·u + y·u = (x + y)·u`.
pub proof fn lemma_distribute_right(x: nat, y: nat, u: nat)
    requires
        x < modulus(),
        y < modulus(),
        u < modulus(),
    ensures
        fadd(fmul(x, u), fmul(y, u)) == fmul(fadd(x, y), u),
{
    let p = modulus() as int;
    lemma_add_mod_both((x * u) as int, (y * u) as int);
    lemma_canonical(u);
    lemma_mul_mod_both((x + y) as int, u as int);
    assert(x * u + y * u == (x + y) * u) by (nonlinear_arith);
}

/// Reordering four summands: `(a + b) + (c + d) = (a + c) + (b + d)`.
pub proof fn lemma_add_swap(a: nat, b: nat, c: nat, d: nat)
    requires
        a < modulus(),
        b < modulus(),
        c < modulus(),
        d < modulus(),
    ensures
        fadd(fadd(a, b), fadd(c, d)) == fadd(fadd(a, c), fadd(b, d)),
{
    lemma_add_mod_both((a + b) as int, (c + d) as int);
    lemma_add_mod_both((a + c) as int, (b + d) as int);
}

/// `a + (b + c) = (a + b) + c`.
pub proof fn lemma_add_assoc(a: nat, b: nat, c: nat)
    requires
        a < modulus(),
        b < modulus(),
        c < modulus(),
    ensures
        fadd(a, fadd(b, c)) == fadd(fadd(a, b), c),
{
    lemma_canonical(a);
    lemma_canonical(c);
    lemma_add_mod_both(a as int, (b + c) as int);
    lemma_add_mod_both((a + b) as int, c as int);
}

/// `E·(1 - r) + O·r = E + r·(O - E)`: a line through `(0, E)` and `(1, O)`.
pub proof fn lemma_line(e: nat, o: nat, r: nat)
    requires
        e < modulus(),
        o < modulus(),
        r < modulus(),
    ensures
        fadd(fmul(e, fsub(1, r)), fmul(o, r)) == fadd(e, fmul(r, fsub(o, e))),
{
    let p = modulus() as int;
    lemma_canonical(e);
    lemma_canonical(o);
    lemma_canonical(r);
    lemma_mul_mod_both(e as int, 1 - r);
    lemma_add_mod_both(e * (1 - r), (o * r) as int);
    lemma_mul_mod_both(r as int, o - e);
    lemma_add_mod_both(e as int, r * (o - e));
    assert(e * (1 - r) + o * r == e + r * (o - e)) by (nonlinear_arith);
}

/// A field element has at most one inverse.
pub proof fn lemma_inverse_unique(value: nat, a: nat, b: nat)
    requires
        a < modulus(),
        b < modulus(),
        fmul(value, a) == 1,
        fmul(value, b) == 1,
    ensures
        a == b,
{
    let p = modulus() as int;
    vstd::arithmetic::div_mod::lemma_mul_mod_noop_right(a as int, (value * b) as int, p);
    vstd::arithmetic::div_mod::lemma_mul_mod_noop_left((value * a) as int, b as int, p);
    assert(a * (value * b) == (value * a) * b) by (nonlinear_arith);
    lemma_canonical(a);
    lemma_canonical(b);
}

/// Multiplying by two factors in either order: `(x·a)·b = (x·b)·a`.
pub proof fn lemma_mul_swap(x: nat, a: nat, b: nat)
    ensures
        fmul(fmul(x, a), b) == fmul(fmul(x, b), a),
{
    let p = modulus() as int;
    assert((x * a) * b == (x * b) * a) by (nonlinear_arith);
    vstd::arithmetic::div_mod::lemma_mul_mod_noop_left((x * a) as int, b as int, p);
    vstd::arithmetic::div_mod::lemma_mul_mod_noop_left((x * b) as int, a as int, p);
}

/// Adding two summands in either order: `(x + a) + b = (x + b) + a`.
pub proof fn lemma_add_swap_last(x: nat, a: nat, b: nat)
    ensures
        fadd(fadd(x, a), b) == fadd(fadd(x, b), a),
{
    let p = modulus() as int;
    vstd::arithmetic::div_mod::lemma_add_mod_noop_right(b as int, (x + a) as int, p);
    vstd::arithmetic::div_mod::lemma_add_mod_noop_right(a as int, (x + b) as int, p);
}

} // verus!
