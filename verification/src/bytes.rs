//! Little-endian byte encodings of integers.
use vstd::prelude::*;
use vstd::arithmetic::div_mod::{lemma_fundamental_div_mod, lemma_fundamental_div_mod_converse};
use crate::field::{le_nat, u64_le_bytes};

verus! {

/// `256^n`.
pub open spec fn pow256(n: nat) -> nat
    decreases n,
{
    if n == 0 {
        1
    } else {
        256 * pow256((n - 1) as nat)
    }
}

/// The `n` low-order little-endian bytes of `v`.
pub open spec fn nat_le_bytes(v: nat, n: nat) -> Seq<u8>
    decreases n,
{
    if n == 0 {
        seq![]
    } else {
        seq![(v % 256) as u8] + nat_le_bytes(v / 256, (n - 1) as nat)
    }
}

pub proof fn lemma_pow256_positive(n: nat)
    ensures
        pow256(n) >= 1,
    decreases n,
{
    if n > 0 {
        lemma_pow256_positive((n - 1) as nat);
    }
}

pub proof fn lemma_nat_le_bytes_len(v: nat, n: nat)
    ensures
        nat_le_bytes(v, n).len() == n,
    decreases n,
{
    if n > 0 {
        lemma_nat_le_bytes_len(v / 256, (n - 1) as nat);
    }
}

/// The encoding of `a + 256^k·b` with `a < 256^k` is the encoding of `a`
/// followed by that of `b`.
pub proof fn lemma_nat_le_bytes_split(a: nat, b: nat, k: nat, m: nat)
    requires
        a < pow256(k),
    ensures
        nat_le_bytes(a + pow256(k) * b, k + m) == nat_le_bytes(a, k) + nat_le_bytes(b, m),
    decreases k,
{
    if k == 0 {
        assert(a == 0);
        assert(nat_le_bytes(a, k) =~= seq![]);
        assert(nat_le_bytes(b, m) =~= seq![] + nat_le_bytes(b, m));
    } else {
        let v = a + pow256(k) * b;
        let rest = pow256((k - 1) as nat) * b;
        assert(pow256(k) * b == 256 * rest) by (nonlinear_arith)
            requires pow256(k) == 256 * pow256((k - 1) as nat), rest == pow256((k - 1) as nat) * b;
        lemma_fundamental_div_mod(a as int, 256);
        let q = a / 256;
        let r = a % 256;
        assert(v == r + 256 * (q + rest));
        lemma_fundamental_div_mod_converse(v as int, 256, (q + rest) as int, r as int);
        assert(q < pow256((k - 1) as nat)) by (nonlinear_arith)
            requires a < 256 * pow256((k - 1) as nat), a == 256 * q + r, r >= 0;
        lemma_nat_le_bytes_split(q, b, (k - 1) as nat, m);
        assert(nat_le_bytes(v, k + m) == seq![(r) as u8] + nat_le_bytes(q + rest, (k - 1 + m) as nat));
        assert(nat_le_bytes(a, k) == seq![(r) as u8] + nat_le_bytes(q, (k - 1) as nat));
        assert(nat_le_bytes(v, k + m) =~= nat_le_bytes(a, k) + nat_le_bytes(b, m));
    }
}

/// Decoding an encoding gives back the number, when it fits.
pub proof fn lemma_le_nat_of_nat_le_bytes(v: nat, n: nat)
    requires
        v < pow256(n),
    ensures
        le_nat(nat_le_bytes(v, n)) == v,
    decreases n,
{
    if n == 0 {
        assert(nat_le_bytes(v, n).len() == 0);
    } else {
        lemma_fundamental_div_mod(v as int, 256);
        assert(v / 256 < pow256((n - 1) as nat)) by (nonlinear_arith)
            requires v < 256 * pow256((n - 1) as nat), v == 256 * (v / 256) + v % 256, v % 256 >= 0;
        lemma_le_nat_of_nat_le_bytes(v / 256, (n - 1) as nat);
        let bytes = nat_le_bytes(v, n);
        assert(bytes.drop_first() =~= nat_le_bytes(v / 256, (n - 1) as nat));
    }
}

/// The number a byte string denotes is below `256^len`.
pub proof fn lemma_le_nat_bound(bytes: Seq<u8>)
    ensures
        le_nat(bytes) < pow256(bytes.len()),
    decreases bytes.len(),
{
    if bytes.len() > 0 {
        lemma_le_nat_bound(bytes.drop_first());
        assert(le_nat(bytes) < pow256(bytes.len())) by (nonlinear_arith)
            requires
                le_nat(bytes) == bytes[0] as nat + 256 * le_nat(bytes.drop_first()),
                le_nat(bytes.drop_first()) < pow256((bytes.len() - 1) as nat),
                pow256(bytes.len()) == 256 * pow256((bytes.len() - 1) as nat),
                bytes[0] < 256;
    }
}

/// Encoding the number a byte string denotes gives back the bytes.
pub proof fn lemma_nat_le_bytes_of_le_nat(bytes: Seq<u8>)
    ensures
        nat_le_bytes(le_nat(bytes), bytes.len()) == bytes,
    decreases bytes.len(),
{
    if bytes.len() > 0 {
        let rest = bytes.drop_first();
        lemma_nat_le_bytes_of_le_nat(rest);
        let v = le_nat(bytes);
        lemma_fundamental_div_mod_converse(v as int, 256, le_nat(rest) as int, bytes[0] as int);
        assert(nat_le_bytes(v, bytes.len()) =~= bytes);
    }
}

/// The eight bytes `u64_le_bytes` extracts with shifts are the little-endian
/// encoding of the word.
pub proof fn lemma_u64_le_bytes(x: u64)
    ensures
        u64_le_bytes(x) == nat_le_bytes(x as nat, 8),
{
    let b = u64_le_bytes(x);
    reveal_with_fuel(nat_le_bytes, 9);
    assert(((x >> 0u64) & 0xff) == x % 256) by (bit_vector);
    assert(((x >> 8u64) & 0xff) == (x / 256) % 256) by (bit_vector);
    assert(((x >> 16u64) & 0xff) == ((x / 256) / 256) % 256) by (bit_vector);
    assert(((x >> 24u64) & 0xff) == (((x / 256) / 256) / 256) % 256) by (bit_vector);
    assert(((x >> 32u64) & 0xff) == ((((x / 256) / 256) / 256) / 256) % 256) by (bit_vector);
    assert(((x >> 40u64) & 0xff) == (((((x / 256) / 256) / 256) / 256) / 256) % 256) by (bit_vector);
    assert(((x >> 48u64) & 0xff) == ((((((x / 256) / 256) / 256) / 256) / 256) / 256) % 256)
        by (bit_vector);
    assert(((x >> 56u64) & 0xff) == (((((((x / 256) / 256) / 256) / 256) / 256) / 256) / 256) % 256)
        by (bit_vector);
    assert(b =~= nat_le_bytes(x as nat, 8));
}

/// Every byte is zero.
pub open spec fn is_all_zero(bytes: Seq<u8>) -> bool {
    forall|i: int| 0 <= i < bytes.len() ==> bytes[i] == 0
}

/// Byte-wise equality of two byte strings.
pub fn bytes_equal(a: &[u8], b: &[u8]) -> (r: bool)
    ensures
        r == (a@ == b@),
{
    if a.len() != b.len() {
        return false;
    }
    let mut i: usize = 0;
    while i < a.len()
        invariant
            i <= a@.len(),
            a@.len() == b@.len(),
            forall|k: int| 0 <= k < i ==> a@[k] == b@[k],
        decreases a@.len() - i,
    {
        if a[i] != b[i] {
            return false;
        }
        i = i + 1;
    }
    assert(a@ =~= b@);
    true
}

/// Whether every byte is zero.
pub fn all_zero(bytes: &[u8]) -> (r: bool)
    ensures
        r == is_all_zero(bytes@),
{
    let mut i: usize = 0;
    while i < bytes.len()
        invariant
            i <= bytes@.len(),
            forall|k: int| 0 <= k < i ==> bytes@[k] == 0,
        decreases bytes@.len() - i,
    {
        if bytes[i] != 0 {
            return false;
        }
        i = i + 1;
    }
    true
}

/// Whether `needle` is one of the byte strings of `haystack`.
pub fn contains_bytes(haystack: &Vec<Vec<u8>>, needle: &[u8]) -> (r: bool)
    ensures
        r == haystack@.map_values(|value: Vec<u8>| value@).contains(needle@),
{
    let ghost strings = haystack@.map_values(|value: Vec<u8>| value@);
    let mut i: usize = 0;
    while i < haystack.len()
        invariant
            i <= haystack@.len(),
            strings == haystack@.map_values(|value: Vec<u8>| value@),
            forall|k: int| 0 <= k < i ==> strings[k] != needle@,
        decreases haystack@.len() - i,
    {
        if bytes_equal(haystack[i].as_slice(), needle) {
            assert(strings[i as int] == needle@);
            return true;
        }
        i = i + 1;
    }
    false
}

/// A fresh vector holding the same bytes.
pub fn copy_bytes(bytes: &[u8]) -> (r: Vec<u8>)
    ensures
        r@ == bytes@,
{
    let mut out: Vec<u8> = Vec::new();
    let mut i: usize = 0;
    while i < bytes.len()
        invariant
            i <= bytes@.len(),
            out@ == bytes@.take(i as int),
        decreases bytes@.len() - i,
    {
        out.push(bytes[i]);
        i = i + 1;
        assert(out@ =~= bytes@.take(i as int));
    }
    assert(bytes@.take(i as int) =~= bytes@);
    out
}

} // verus!
