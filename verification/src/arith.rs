//! Small facts about powers of two used for table sizes.
use vstd::prelude::*;

verus! {

/// `2^k`.
pub open spec fn pow2(k: nat) -> nat
    decreases k,
{
    if k == 0 {
        1
    } else {
        2 * pow2((k - 1) as nat)
    }
}

/// The exponent `k` with `n == 2^k`, if there is one.
pub open spec fn exact_log2(n: nat) -> Option<nat>
    decreases n,
{
    if n == 1 {
        Some(0)
    } else if n == 0 || n % 2 == 1 {
        None
    } else {
        match exact_log2(n / 2) {
            Some(k) => Some(k + 1),
            None => None,
        }
    }
}

pub proof fn lemma_pow2_positive(k: nat)
    ensures
        pow2(k) >= 1,
    decreases k,
{
    if k > 0 {
        lemma_pow2_positive((k - 1) as nat);
    }
}

pub proof fn lemma_pow2_monotone(j: nat, k: nat)
    requires
        j <= k,
    ensures
        pow2(j) <= pow2(k),
    decreases k,
{
    if j < k {
        lemma_pow2_monotone(j, (k - 1) as nat);
    }
}

/// `exact_log2` inverts `pow2`.
pub proof fn lemma_exact_log2_pow2(k: nat)
    ensures
        exact_log2(pow2(k)) == Some(k),
    decreases k,
{
    if k > 0 {
        lemma_exact_log2_pow2((k - 1) as nat);
        lemma_pow2_positive((k - 1) as nat);
        assert(pow2(k) / 2 == pow2((k - 1) as nat));
    }
}

/// Whenever `exact_log2` finds an exponent, the number is that power of two.
pub proof fn lemma_exact_log2_sound(n: nat)
    ensures
        exact_log2(n) matches Some(k) ==> n == pow2(k),
    decreases n,
{
    if n != 1 && n != 0 && n % 2 == 0 {
        lemma_exact_log2_sound(n / 2);
    }
}

pub proof fn lemma_pow2_64()
    ensures
        pow2(64) == 18446744073709551616nat,
{
    reveal_with_fuel(pow2, 65);
}

/// A power of two below `2^64` has an exponent below 64.
pub proof fn lemma_pow2_bound(k: nat)
    requires
        pow2(k) <= u64::MAX,
    ensures
        k < 64,
{
    if k >= 64 {
        lemma_pow2_monotone(64, k);
        lemma_pow2_64();
    }
}

/// The exponent of `n` when `n` is a nonzero power of two.
pub fn checked_log2(n: usize) -> (r: Option<usize>)
    ensures
        r matches Some(k) ==> exact_log2(n as nat) == Some(k as nat) && n as nat == pow2(k as nat),
        r is None ==> exact_log2(n as nat) is None,
{
    let mut m: usize = n;
    let mut k: usize = 0;
    assert(pow2(0) == 1);
    while m != 1
        invariant
            k < 64,
            m <= n,
            m >= 1 || n == 0,
            n == 0 ==> m == 0,
            match exact_log2(m as nat) {
                Some(j) => exact_log2(n as nat) == Some((j + k) as nat),
                None => exact_log2(n as nat) is None,
            },
            n as nat == m as nat * pow2(k as nat),
        decreases m,
    {
        if m == 0 || m % 2 == 1 {
            return None;
        }
        proof {
            lemma_pow2_positive(k as nat);
            assert(m as nat * pow2(k as nat) == (m / 2) as nat * pow2((k + 1) as nat)) by (nonlinear_arith)
                requires m % 2 == 0, pow2((k + 1) as nat) == 2 * pow2(k as nat);
            assert(n as nat >= pow2((k + 1) as nat)) by (nonlinear_arith)
                requires n as nat == (m / 2) as nat * pow2((k + 1) as nat), m / 2 >= 1;
            if k + 1 >= 64 {
                lemma_pow2_monotone(64, (k + 1) as nat);
                lemma_pow2_64();
            }
        }
        m = m / 2;
        k = k + 1;
    }
    Some(k)
}

} // verus!
