//! Byte-level reading and writing shared by the binary formats: little-endian
//! `u64` words, canonical 32-byte field elements, and length-prefixed byte
//! strings.
use vstd::prelude::*;
use crate::bytes::{copy_bytes, lemma_le_nat_bound, lemma_le_nat_of_nat_le_bytes, lemma_nat_le_bytes_of_le_nat, lemma_u64_le_bytes, nat_le_bytes, pow256};
use crate::field::{le_nat, modulus, push_u64_le, scalar_bytes, u64_le_bytes, Scalar};

verus! {

/// A read that ran past the end of the input, or whose end overflowed.
#[derive(Clone, Copy, Debug, PartialEq, Eq, Structural)]
pub enum ReadError {
    Truncated,
    LengthOverflow,
}

/// A field element read that failed: a short input, or bytes that are not
/// the canonical encoding of a field element.
#[derive(Clone, Copy, Debug, PartialEq, Eq, Structural)]
pub enum FieldReadError {
    Read(ReadError),
    NonCanonical,
}

/// A byte string preceded by its length as a little-endian `u64`.
pub open spec fn framed(bytes: Seq<u8>) -> Seq<u8> {
    u64_le_bytes(bytes.len() as u64) + bytes
}

/// The outcome of reading `len` bytes at `cursor`.
pub open spec fn read_check(input_len: nat, cursor: nat, len: nat) -> Result<(), ReadError> {
    if cursor + len > usize::MAX {
        Err(ReadError::LengthOverflow)
    } else if cursor + len > input_len {
        Err(ReadError::Truncated)
    } else {
        Ok(())
    }
}

/// Reads `len` bytes at `cursor`; returns them and the cursor after them.
pub fn read_exact(input: &[u8], cursor: usize, len: usize) -> (r: Result<(Vec<u8>, usize), ReadError>)
    ensures
        match read_check(input@.len(), cursor as nat, len as nat) {
            Err(error) => r == Err::<(Vec<u8>, usize), ReadError>(error),
            Ok(()) => r matches Ok((bytes, next)) && next == cursor + len && bytes@ == input@.subrange(
                cursor as int,
                cursor + len,
            ),
        },
{
    let end = match cursor.checked_add(len) {
        None => {
            return Err(ReadError::LengthOverflow);
        },
        Some(end) => end,
    };
    if end > input.len() {
        return Err(ReadError::Truncated);
    }
    let (_before, rest) = input.split_at(cursor);
    let (bytes, _after) = rest.split_at(len);
    let out = copy_bytes(bytes);
    assert(out@ =~= input@.subrange(cursor as int, cursor + len));
    Ok((out, end))
}

/// The little-endian value of eight bytes.
fn u64_from_le(bytes: &[u8]) -> (r: u64)
    requires
        bytes@.len() == 8,
    ensures
        u64_le_bytes(r) == bytes@,
{
    let mut value: u64 = 0;
    let mut i: usize = 8;
    proof {
        crate::bytes::lemma_le_nat_bound(bytes@.skip(8));
    }
    while i > 0
        invariant
            i <= 8,
            bytes@.len() == 8,
            value as nat == le_nat(bytes@.skip(i as int)),
            le_nat(bytes@.skip(i as int)) < pow256((8 - i) as nat),
        decreases i,
    {
        i = i - 1;
        proof {
            assert(bytes@.skip(i as int).drop_first() =~= bytes@.skip(i + 1));
            assert(pow256((8 - i) as nat) == 256 * pow256((8 - i - 1) as nat));
            assert(pow256(8) == 0x1_0000_0000_0000_0000) by {
                reveal_with_fuel(pow256, 9);
            }
            crate::arith::lemma_pow2_positive(0);
            lemma_pow256_monotone((8 - i) as nat, 8);
            assert(value as nat * 256 + bytes@[i as int] < pow256((8 - i) as nat)) by (nonlinear_arith)
                requires
                    (value as nat) < pow256((8 - i - 1) as nat),
                    pow256((8 - i) as nat) == 256 * pow256((8 - i - 1) as nat),
                    bytes@[i as int] < 256,
            ;
        }
        value = value * 256 + bytes[i] as u64;
    }
    proof {
        assert(bytes@.skip(0) =~= bytes@);
        lemma_u64_le_bytes(value);
        lemma_nat_le_bytes_of_le_nat(bytes@);
    }
    value
}

/// `256^j ≤ 256^k` for `j ≤ k`.
pub proof fn lemma_pow256_monotone(j: nat, k: nat)
    requires
        j <= k,
    ensures
        pow256(j) <= pow256(k),
    decreases k,
{
    if j < k {
        lemma_pow256_monotone(j, (k - 1) as nat);
        crate::bytes::lemma_pow256_positive((k - 1) as nat);
    }
}

/// Reads a little-endian `u64` at `cursor`.
pub fn read_u64(input: &[u8], cursor: usize) -> (r: Result<(u64, usize), ReadError>)
    ensures
        match read_check(input@.len(), cursor as nat, 8) {
            Err(error) => r == Err::<(u64, usize), ReadError>(error),
            Ok(()) => r matches Ok((value, next)) && next == cursor + 8 && u64_le_bytes(value) == input@.subrange(
                cursor as int,
                cursor + 8,
            ),
        },
{
    match read_exact(input, cursor, 8) {
        Err(error) => Err(error),
        Ok((bytes, next)) => Ok((u64_from_le(bytes.as_slice()), next)),
    }
}

/// The canonical check of a field element's 32 bytes.
pub open spec fn field_check(input: Seq<u8>, cursor: nat) -> Result<(), FieldReadError> {
    match read_check(input.len(), cursor, 32) {
        Err(error) => Err(FieldReadError::Read(error)),
        Ok(()) => if le_nat(input.subrange(cursor as int, (cursor + 32) as int)) >= modulus() {
            Err(FieldReadError::NonCanonical)
        } else {
            Ok(())
        },
    }
}

/// Reads a canonical 32-byte little-endian field element at `cursor`.
pub fn read_scalar(input: &[u8], cursor: usize) -> (r: Result<(Scalar, usize), FieldReadError>)
    ensures
        match field_check(input@, cursor as nat) {
            Err(error) => r == Err::<(Scalar, usize), FieldReadError>(error),
            Ok(()) => r matches Ok((value, next)) && next == cursor + 32 && scalar_bytes(value@) == input@.subrange(
                cursor as int,
                cursor + 32,
            ) && value@ == le_nat(input@.subrange(cursor as int, cursor + 32)),
        },
{
    let (bytes, next) = match read_exact(input, cursor, 32) {
        Err(error) => {
            return Err(FieldReadError::Read(error));
        },
        Ok(read) => read,
    };
    let value = Scalar::from_le_bytes_mod_order(bytes.as_slice());
    let canonical = value.to_le_bytes();
    proof {
        lemma_le_nat_bound(bytes@);
        if le_nat(bytes@) < modulus() {
            vstd::arithmetic::div_mod::lemma_small_mod(le_nat(bytes@), modulus());
            lemma_nat_le_bytes_of_le_nat(bytes@);
        } else {
            vstd::arithmetic::div_mod::lemma_mod_bound(le_nat(bytes@) as int, modulus() as int);
            crate::field_laws::lemma_canonical(value@);
            assert(pow256(32) > modulus()) by {
                reveal_with_fuel(pow256, 33);
            }
            lemma_le_nat_of_nat_le_bytes(value@, 32);
            if canonical@ == bytes@ {
                assert(le_nat(bytes@) == value@);
            }
        }
    }
    if !crate::bytes::bytes_equal(canonical.as_slice(), bytes.as_slice()) {
        return Err(FieldReadError::NonCanonical);
    }
    Ok((value, next))
}

/// The value of the little-endian word stored at `at`.
pub open spec fn word_at(input: Seq<u8>, at: int) -> nat {
    le_nat(input.subrange(at, at + 8))
}

/// The little-endian word of `u64_le_bytes(v)` is `v`.
pub proof fn lemma_word_value(v: u64)
    ensures
        le_nat(u64_le_bytes(v)) == v,
{
    lemma_u64_le_bytes(v);
    assert(pow256(8) == 0x1_0000_0000_0000_0000) by {
        reveal_with_fuel(pow256, 9);
    }
    lemma_le_nat_of_nat_le_bytes(v as nat, 8);
}

/// Reading a length-prefixed byte string at `cursor`: the bytes and the
/// cursor after them, or the first failure.
pub open spec fn framed_read(input: Seq<u8>, cursor: nat) -> Result<(Seq<u8>, nat), ReadError> {
    match read_check(input.len(), cursor, 8) {
        Err(error) => Err(error),
        Ok(()) => {
            let length = word_at(input, cursor as int);
            if length > usize::MAX {
                Err(ReadError::LengthOverflow)
            } else {
                match read_check(input.len(), cursor + 8, length) {
                    Err(error) => Err(error),
                    Ok(()) => Ok((input.subrange((cursor + 8) as int, (cursor + 8 + length) as int), cursor + 8 + length)),
                }
            }
        },
    }
}

/// Reading a framed byte string gives it back.
pub proof fn lemma_framed_read(input: Seq<u8>, cursor: nat, bytes: Seq<u8>)
    requires
        cursor + 8 + bytes.len() <= input.len(),
        input.len() <= usize::MAX,
        input.subrange(cursor as int, (cursor + 8 + bytes.len()) as int) == framed(bytes),
    ensures
        framed_read(input, cursor) == Ok::<(Seq<u8>, nat), ReadError>((bytes, cursor + 8 + bytes.len())),
{
    let whole = input.subrange(cursor as int, (cursor + 8 + bytes.len()) as int);
    assert(input.subrange(cursor as int, (cursor + 8) as int) =~= whole.subrange(0, 8));
    assert(whole.subrange(0, 8) =~= u64_le_bytes(bytes.len() as u64));
    lemma_word_value(bytes.len() as u64);
    assert(word_at(input, cursor as int) == bytes.len());
    assert(read_check(input.len(), cursor, 8) == Ok::<(), ReadError>(()));
    assert(read_check(input.len(), cursor + 8, bytes.len()) == Ok::<(), ReadError>(()));
    assert(input.subrange((cursor + 8) as int, (cursor + 8 + bytes.len()) as int) =~= whole.subrange(
        8,
        8 + bytes.len() as int,
    ));
    assert(whole.subrange(8, 8 + bytes.len() as int) =~= bytes);
}

/// Reads a length-prefixed byte string at `cursor`.
pub fn read_framed(input: &[u8], cursor: usize) -> (r: Result<(Vec<u8>, usize), ReadError>)
    ensures
        r matches Ok((bytes, next)) ==> cursor <= next <= input@.len() && input@.subrange(cursor as int, next as int)
            == framed(bytes@) && bytes@.len() <= u64::MAX,
        match framed_read(input@, cursor as nat) {
            Err(error) => r == Err::<(Vec<u8>, usize), ReadError>(error),
            Ok((bytes, next)) => r matches Ok((read, after)) && read@ == bytes && after == next,
        },
{
    let (length, after_length) = match read_u64(input, cursor) {
        Err(error) => {
            return Err(error);
        },
        Ok(read) => read,
    };
    proof {
        lemma_word_value(length);
    }
    if length > usize::MAX as u64 {
        return Err(ReadError::LengthOverflow);
    }
    let (bytes, next) = match read_exact(input, after_length, length as usize) {
        Err(error) => {
            return Err(error);
        },
        Ok(read) => read,
    };
    proof {
        assert(input@.subrange(cursor as int, next as int) =~= input@.subrange(cursor as int, cursor + 8)
            + input@.subrange(cursor + 8, next as int));
    }
    Ok((bytes, next))
}

/// Appends a canonical 32-byte field element.
pub fn write_scalar(out: &mut Vec<u8>, value: &Scalar)
    ensures
        final(out)@ == old(out)@ + scalar_bytes(value@),
{
    let bytes = value.to_le_bytes();
    append_bytes(out, bytes.as_slice());
}

/// Appends bytes.
pub fn append_bytes(out: &mut Vec<u8>, bytes: &[u8])
    ensures
        final(out)@ == old(out)@ + bytes@,
{
    let mut i: usize = 0;
    while i < bytes.len()
        invariant
            i <= bytes@.len(),
            out@ == old(out)@ + bytes@.take(i as int),
        decreases bytes@.len() - i,
    {
        out.push(bytes[i]);
        i = i + 1;
        assert(out@ =~= old(out)@ + bytes@.take(i as int));
    }
    assert(bytes@.take(i as int) =~= bytes@);
}

/// Appends a length-prefixed byte string.
pub fn write_framed(out: &mut Vec<u8>, bytes: &[u8])
    ensures
        final(out)@ == old(out)@ + framed(bytes@),
{
    push_u64_le(out, bytes.len() as u64);
    append_bytes(out, bytes);
    assert(final(out)@ =~= old(out)@ + framed(bytes@));
}

} // verus!
