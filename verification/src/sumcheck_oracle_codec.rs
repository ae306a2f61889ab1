//! Binary encoding of transparent-oracle Sumcheck proofs.
//!
//! Layout: the magic `SL-ORACLE-SUM1`, the field's bit size, the committed
//! variable count and table length as little-endian `u64` words, the table
//! as canonical 32-byte field elements, the inner Sumcheck proof as a
//! length-prefixed byte string, and the opened value.
use vstd::prelude::*;
use crate::bytes::{bytes_equal, lemma_le_nat_bound, nat_le_bytes};
use crate::codec::{field_check, read_check, read_exact, read_scalar, read_u64, write_scalar, FieldReadError, ReadError};
use crate::field::{le_nat, modulus, modulus_bit_size, push_u64_le, scalar_bytes, scalars_view, u64_le_bytes, Scalar};
use crate::oracle::{TransparentCommitment, TransparentOpening, TransparentOracle};
use crate::sumcheck::messages_view;
use crate::codec::{lemma_word_value, word_at};
use crate::sumcheck_codec::{
    decode_proof, decode_sumcheck_bytes, encode_proof, fields_bytes, lemma_fields_bytes_at, lemma_scalar_bytes_read,
    lemma_sumcheck_codec_roundtrip, sumcheck_proof_encoding, SumcheckCodecError,
};
use crate::sumcheck_oracle::OracleProof;

verus! {

#[derive(Clone, Copy, Debug, PartialEq, Eq, Structural)]
pub enum OracleProofCodecError {
    InvalidMagic,
    Truncated,
    TrailingBytes,
    InvalidFieldElement,
    LengthOverflow,
    InnerSumcheck(SumcheckCodecError),
}

/// The bytes of `SL-ORACLE-SUM1`.
pub open spec fn oracle_magic() -> Seq<u8> {
    seq![83u8, 76, 45, 79, 82, 65, 67, 76, 69, 45, 83, 85, 77, 49]
}

/// The encoding of a transparent-oracle proof.
pub open spec fn oracle_proof_encoding(
    variables: usize,
    evaluations: Seq<nat>,
    messages: Seq<(nat, nat)>,
    final_evaluation: nat,
    opened: nat,
) -> Seq<u8> {
    let inner = sumcheck_proof_encoding(messages, final_evaluation);
    oracle_magic() + u64_le_bytes(255) + u64_le_bytes(variables as u64) + u64_le_bytes(evaluations.len() as u64)
        + fields_bytes(evaluations) + u64_le_bytes(inner.len() as u64) + inner + scalar_bytes(opened)
}

/// Reading `count` consecutive canonical field elements from `cursor`.
pub open spec fn read_canonical_fields(input: Seq<u8>, cursor: nat, count: nat) -> Result<Seq<nat>, FieldReadError>
    decreases count,
{
    if count == 0 {
        Ok(seq![])
    } else {
        match read_canonical_fields(input, cursor, (count - 1) as nat) {
            Err(error) => Err(error),
            Ok(values) => {
                let at = (cursor + 32 * (count - 1)) as nat;
                match field_check(input, at) {
                    Err(error) => Err(error),
                    Ok(()) => Ok(values.push(le_nat(input.subrange(at as int, (at + 32) as int)))),
                }
            },
        }
    }
}

pub open spec fn oracle_read_error(error: ReadError) -> OracleProofCodecError {
    match error {
        ReadError::Truncated => OracleProofCodecError::Truncated,
        ReadError::LengthOverflow => OracleProofCodecError::LengthOverflow,
    }
}

pub open spec fn oracle_field_error(error: FieldReadError) -> OracleProofCodecError {
    match error {
        FieldReadError::Read(error) => oracle_read_error(error),
        FieldReadError::NonCanonical => OracleProofCodecError::InvalidFieldElement,
    }
}

/// What decoding gives: the committed variable count and table, the inner
/// proof's messages and final evaluation, and the opened value.
pub type OracleProofParts = (usize, Seq<nat>, Seq<(nat, nat)>, nat, nat);

/// What decoding `input` gives, or the first error met reading it front to
/// back.
pub open spec fn decode_oracle_bytes(input: Seq<u8>) -> Result<OracleProofParts, OracleProofCodecError> {
    if let Err(error) = read_check(input.len(), 0, 14) {
        Err(oracle_read_error(error))
    } else if input.take(14) != oracle_magic() {
        Err(OracleProofCodecError::InvalidMagic)
    } else if let Err(error) = read_check(input.len(), 14, 8) {
        Err(oracle_read_error(error))
    } else if word_at(input, 14) != 255 {
        Err(OracleProofCodecError::InvalidFieldElement)
    } else if let Err(error) = read_check(input.len(), 22, 8) {
        Err(oracle_read_error(error))
    } else if word_at(input, 22) > usize::MAX {
        Err(OracleProofCodecError::LengthOverflow)
    } else if let Err(error) = read_check(input.len(), 30, 8) {
        Err(oracle_read_error(error))
    } else if word_at(input, 30) > usize::MAX {
        Err(OracleProofCodecError::LengthOverflow)
    } else {
        decode_oracle_body(input, word_at(input, 22) as usize, word_at(input, 30))
    }
}

/// Decoding from the table on.
pub open spec fn decode_oracle_body(input: Seq<u8>, variables: usize, length: nat) -> Result<
    OracleProofParts,
    OracleProofCodecError,
> {
    match read_canonical_fields(input, 38, length) {
        Err(error) => Err(oracle_field_error(error)),
        Ok(evaluations) => decode_oracle_tail(input, variables, evaluations, 38 + 32 * length),
    }
}

/// Decoding from the inner proof on, which starts at `cursor`.
pub open spec fn decode_oracle_tail(input: Seq<u8>, variables: usize, evaluations: Seq<nat>, cursor: nat) -> Result<
    OracleProofParts,
    OracleProofCodecError,
> {
    if let Err(error) = read_check(input.len(), cursor, 8) {
        Err(oracle_read_error(error))
    } else if word_at(input, cursor as int) > usize::MAX {
        Err(OracleProofCodecError::LengthOverflow)
    } else {
        let inner_len = word_at(input, cursor as int);
        let start = cursor + 8;
        if let Err(error) = read_check(input.len(), start, inner_len) {
            Err(oracle_read_error(error))
        } else {
            match decode_sumcheck_bytes(input.subrange(start as int, (start + inner_len) as int)) {
                Err(error) => Err(OracleProofCodecError::InnerSumcheck(error)),
                Ok((messages, final_evaluation)) => {
                    let at = start + inner_len;
                    if let Err(error) = field_check(input, at) {
                        Err(oracle_field_error(error))
                    } else if at + 32 != input.len() {
                        Err(OracleProofCodecError::TrailingBytes)
                    } else {
                        Ok(
                            (
                                variables,
                                evaluations,
                                messages,
                                final_evaluation,
                                le_nat(input.subrange(at as int, (at + 32) as int)),
                            ),
                        )
                    }
                },
            }
        }
    }
}

/// Once a field read fails, reading more fields fails the same way.
pub proof fn lemma_canonical_fields_stays_failed(input: Seq<u8>, cursor: nat, failed: nat, count: nat)
    requires
        failed <= count,
        read_canonical_fields(input, cursor, failed) is Err,
    ensures
        read_canonical_fields(input, cursor, count) == read_canonical_fields(input, cursor, failed),
    decreases count,
{
    if failed < count {
        lemma_canonical_fields_stays_failed(input, cursor, failed, (count - 1) as nat);
    }
}

fn oracle_magic_bytes() -> (r: Vec<u8>)
    ensures
        r@ == oracle_magic(),
{
    let magic = vec![83u8, 76, 45, 79, 82, 65, 67, 76, 69, 45, 83, 85, 77, 49];
    assert(magic@ =~= oracle_magic());
    magic
}

fn map_read_error(error: ReadError) -> (r: OracleProofCodecError)
    ensures
        r == oracle_read_error(error),
{
    match error {
        ReadError::Truncated => OracleProofCodecError::Truncated,
        ReadError::LengthOverflow => OracleProofCodecError::LengthOverflow,
    }
}

fn map_field_error(error: FieldReadError) -> (r: OracleProofCodecError)
    ensures
        r == oracle_field_error(error),
{
    match error {
        FieldReadError::Read(error) => map_read_error(error),
        FieldReadError::NonCanonical => OracleProofCodecError::InvalidFieldElement,
    }
}

/// Encodes a transparent-oracle Sumcheck proof.
pub fn encode_transparent_oracle_proof(proof: &OracleProof<TransparentOracle>) -> (r: Result<
    Vec<u8>,
    OracleProofCodecError,
>)
    ensures
        r matches Ok(bytes) && bytes@ == oracle_proof_encoding(
            proof.commitment.variables,
            scalars_view(proof.commitment.evaluations@),
            messages_view(proof.sumcheck_proof.round_polynomials@),
            proof.sumcheck_proof.final_evaluation@,
            proof.final_opening.value@,
        ),
{
    let inner = match encode_proof(&proof.sumcheck_proof) {
        Ok(bytes) => bytes,
        Err(error) => {
            return Err(OracleProofCodecError::InnerSumcheck(error));
        },
    };
    let evaluations = &proof.commitment.evaluations;
    let ghost values = scalars_view(evaluations@);
    let mut out = oracle_magic_bytes();
    push_u64_le(&mut out, modulus_bit_size());
    push_u64_le(&mut out, proof.commitment.variables as u64);
    push_u64_le(&mut out, evaluations.len() as u64);
    let ghost header = out@;
    let mut i: usize = 0;
    assert(values.take(0) =~= seq![]);
    while i < evaluations.len()
        invariant
            i <= evaluations@.len(),
            values == scalars_view(evaluations@),
            out@ == header + fields_bytes(values.take(i as int)),
        decreases evaluations@.len() - i,
    {
        write_scalar(&mut out, &evaluations[i]);
        proof {
            assert(values.take(i + 1).drop_last() =~= values.take(i as int));
            assert(out@ =~= header + fields_bytes(values.take(i + 1)));
        }
        i = i + 1;
    }
    assert(values.take(i as int) =~= values);
    push_u64_le(&mut out, inner.len() as u64);
    crate::codec::append_bytes(&mut out, inner.as_slice());
    write_scalar(&mut out, &proof.final_opening.value);
    assert(out@ =~= oracle_proof_encoding(
        proof.commitment.variables,
        values,
        messages_view(proof.sumcheck_proof.round_polynomials@),
        proof.sumcheck_proof.final_evaluation@,
        proof.final_opening.value@,
    ));
    Ok(out)
}

/// Reads `count` canonical field elements from `cursor`.
fn read_canonical_scalars(input: &[u8], cursor: usize, count: usize) -> (r: Result<(Vec<Scalar>, usize), FieldReadError>)
    ensures
        match read_canonical_fields(input@, cursor as nat, count as nat) {
            Err(error) => r == Err::<(Vec<Scalar>, usize), FieldReadError>(error),
            Ok(values) => r matches Ok((scalars, next)) && scalars_view(scalars@) == values && next == cursor + 32
                * count,
        },
{
    let mut scalars: Vec<Scalar> = Vec::new();
    let mut at = cursor;
    let mut i: usize = 0;
    assert(scalars_view(scalars@) =~= seq![]);
    while i < count
        invariant
            i <= count,
            at == cursor + 32 * i,
            read_canonical_fields(input@, cursor as nat, i as nat) == Ok::<Seq<nat>, FieldReadError>(
                scalars_view(scalars@),
            ),
        decreases count - i,
    {
        let (value, next) = match read_scalar(input, at) {
            Err(error) => {
                proof {
                    lemma_canonical_fields_stays_failed(input@, cursor as nat, (i + 1) as nat, count as nat);
                }
                return Err(error);
            },
            Ok(read) => read,
        };
        let ghost before = scalars_view(scalars@);
        assert(read_canonical_fields(input@, cursor as nat, (i + 1) as nat) == Ok::<Seq<nat>, FieldReadError>(
            before.push(value@),
        ));
        scalars.push(value);
        at = next;
        i = i + 1;
        assert(scalars_view(scalars@) =~= before.push(value@));
    }
    Ok((scalars, at))
}

/// Decodes a transparent-oracle Sumcheck proof.
#[verifier::rlimit(40)]
pub fn decode_transparent_oracle_proof(input: &[u8]) -> (r: Result<
    OracleProof<TransparentOracle>,
    OracleProofCodecError,
>)
    ensures
        match decode_oracle_bytes(input@) {
            Ok((variables, evaluations, messages, final_evaluation, opened)) => r matches Ok(proof)
                && proof.commitment.variables == variables && scalars_view(proof.commitment.evaluations@)
                == evaluations && messages_view(proof.sumcheck_proof.round_polynomials@) == messages
                && proof.sumcheck_proof.final_evaluation@ == final_evaluation && proof.final_opening.value@
                == opened,
            Err(error) => r == Err::<OracleProof<TransparentOracle>, OracleProofCodecError>(error),
        },
{
    let (magic, cursor) = match read_exact(input, 0, 14) {
        Err(error) => {
            return Err(map_read_error(error));
        },
        Ok(read) => read,
    };
    let expected = oracle_magic_bytes();
    assert(input@.subrange(0, 14) =~= input@.take(14));
    if !bytes_equal(magic.as_slice(), expected.as_slice()) {
        return Err(OracleProofCodecError::InvalidMagic);
    }
    let (bits, cursor) = match read_u64(input, cursor) {
        Err(error) => {
            return Err(map_read_error(error));
        },
        Ok(read) => read,
    };
    proof {
        lemma_word_value(bits);
    }
    if bits != modulus_bit_size() {
        return Err(OracleProofCodecError::InvalidFieldElement);
    }
    let (variables_word, cursor) = match read_u64(input, cursor) {
        Err(error) => {
            return Err(map_read_error(error));
        },
        Ok(read) => read,
    };
    proof {
        lemma_word_value(variables_word);
    }
    if variables_word > usize::MAX as u64 {
        return Err(OracleProofCodecError::LengthOverflow);
    }
    let variables = variables_word as usize;
    let (length_word, cursor) = match read_u64(input, cursor) {
        Err(error) => {
            return Err(map_read_error(error));
        },
        Ok(read) => read,
    };
    proof {
        lemma_word_value(length_word);
    }
    if length_word > usize::MAX as u64 {
        return Err(OracleProofCodecError::LengthOverflow);
    }
    let length = length_word as usize;
    assert(decode_oracle_bytes(input@) == decode_oracle_body(input@, variables, length as nat));
    let (evaluations, cursor) = match read_canonical_scalars(input, cursor, length) {
        Err(error) => {
            return Err(map_field_error(error));
        },
        Ok(read) => read,
    };
    let (inner_word, cursor) = match read_u64(input, cursor) {
        Err(error) => {
            return Err(map_read_error(error));
        },
        Ok(read) => read,
    };
    proof {
        lemma_word_value(inner_word);
    }
    if inner_word > usize::MAX as u64 {
        return Err(OracleProofCodecError::LengthOverflow);
    }
    let (inner, cursor) = match read_exact(input, cursor, inner_word as usize) {
        Err(error) => {
            return Err(map_read_error(error));
        },
        Ok(read) => read,
    };
    let sumcheck_proof = match decode_proof(inner.as_slice()) {
        Err(error) => {
            return Err(OracleProofCodecError::InnerSumcheck(error));
        },
        Ok(proof) => proof,
    };
    let (value, cursor) = match read_scalar(input, cursor) {
        Err(error) => {
            return Err(map_field_error(error));
        },
        Ok(read) => read,
    };
    if cursor != input.len() {
        return Err(OracleProofCodecError::TrailingBytes);
    }
    Ok(
        OracleProof {
            commitment: TransparentCommitment { variables, evaluations },
            sumcheck_proof,
            final_opening: TransparentOpening { value },
        },
    )
}

/// Reading the fields of an encoding that starts at `cursor` gives the
/// values back, as long as each read ends within `usize`.
pub proof fn lemma_read_encoded_canonical(input: Seq<u8>, cursor: nat, values: Seq<nat>, count: nat)
    requires
        count <= values.len(),
        forall|i: int| 0 <= i < values.len() ==> values[i] < modulus(),
        cursor + fields_bytes(values).len() <= input.len(),
        input.len() <= usize::MAX,
        input.subrange(cursor as int, (cursor + fields_bytes(values).len()) as int) == fields_bytes(values),
    ensures
        read_canonical_fields(input, cursor, count) == Ok::<Seq<nat>, FieldReadError>(values.take(count as int)),
    decreases count,
{
    lemma_fields_bytes_at(values, count - 1);
    if count > 0 {
        lemma_read_encoded_canonical(input, cursor, values, (count - 1) as nat);
        let k = count - 1;
        let at = cursor + 32 * k;
        assert(input.subrange(at, at + 32) =~= fields_bytes(values).subrange(32 * k, 32 * k + 32));
        lemma_scalar_bytes_read(values[k]);
        assert(values.take(count as int) =~= values.take(k).push(values[k]));
    } else {
        assert(values.take(0) =~= seq![]);
    }
}

/// Decoding the encoding of a transparent-oracle proof whose values are
/// canonical gives the proof back.
pub proof fn lemma_oracle_codec_roundtrip(
    variables: usize,
    evaluations: Seq<nat>,
    messages: Seq<(nat, nat)>,
    final_evaluation: nat,
    opened: nat,
)
    requires
        forall|i: int| 0 <= i < evaluations.len() ==> evaluations[i] < modulus(),
        forall|i: int| 0 <= i < messages.len() ==> messages[i].0 < modulus() && messages[i].1 < modulus(),
        final_evaluation < modulus(),
        opened < modulus(),
        oracle_proof_encoding(variables, evaluations, messages, final_evaluation, opened).len() <= usize::MAX,
    ensures
        decode_oracle_bytes(oracle_proof_encoding(variables, evaluations, messages, final_evaluation, opened))
            == Ok::<OracleProofParts, OracleProofCodecError>(
            (variables, evaluations, messages, final_evaluation, opened),
        ),
{
    let encoding = oracle_proof_encoding(variables, evaluations, messages, final_evaluation, opened);
    let m = evaluations.len();
    lemma_fields_bytes_at(evaluations, 0);
    lemma_scalar_bytes_read(opened);
    lemma_oracle_header_roundtrip(encoding, variables, evaluations, messages, final_evaluation, opened);
    lemma_oracle_tail_roundtrip(encoding, variables, evaluations, messages, final_evaluation, opened);
    assert(decode_oracle_bytes(encoding) == decode_oracle_body(encoding, variables, m));
}

#[verifier::rlimit(40)]
proof fn lemma_oracle_header_roundtrip(
    encoding: Seq<u8>,
    variables: usize,
    evaluations: Seq<nat>,
    messages: Seq<(nat, nat)>,
    final_evaluation: nat,
    opened: nat,
)
    requires
        forall|i: int| 0 <= i < evaluations.len() ==> evaluations[i] < modulus(),
        encoding == oracle_proof_encoding(variables, evaluations, messages, final_evaluation, opened),
        encoding.len() <= usize::MAX,
        fields_bytes(evaluations).len() == 32 * evaluations.len(),
        scalar_bytes(opened).len() == 32,
    ensures
        decode_oracle_bytes(encoding) == decode_oracle_body(encoding, variables, evaluations.len()),
        read_canonical_fields(encoding, 38, evaluations.len()) == Ok::<Seq<nat>, FieldReadError>(evaluations),
{
    let m = evaluations.len();
    assert(oracle_magic().len() == 14);
    assert(encoding.take(14) =~= oracle_magic());
    assert(encoding.subrange(14, 22) =~= u64_le_bytes(255));
    assert(encoding.subrange(22, 30) =~= u64_le_bytes(variables as u64));
    assert(encoding.subrange(30, 38) =~= u64_le_bytes(m as u64));
    lemma_word_value(255);
    lemma_word_value(variables as u64);
    lemma_word_value(m as u64);
    assert(encoding.subrange(38, (38 + fields_bytes(evaluations).len()) as int) =~= fields_bytes(evaluations));
    lemma_read_encoded_canonical(encoding, 38, evaluations, m);
    assert(evaluations.take(m as int) =~= evaluations);
}

#[verifier::rlimit(50)]
proof fn lemma_oracle_tail_roundtrip(
    encoding: Seq<u8>,
    variables: usize,
    evaluations: Seq<nat>,
    messages: Seq<(nat, nat)>,
    final_evaluation: nat,
    opened: nat,
)
    requires
        forall|i: int| 0 <= i < messages.len() ==> messages[i].0 < modulus() && messages[i].1 < modulus(),
        final_evaluation < modulus(),
        opened < modulus(),
        encoding == oracle_proof_encoding(variables, evaluations, messages, final_evaluation, opened),
        encoding.len() <= usize::MAX,
        fields_bytes(evaluations).len() == 32 * evaluations.len(),
        scalar_bytes(opened).len() == 32,
        le_nat(scalar_bytes(opened)) == opened,
    ensures
        decode_oracle_tail(encoding, variables, evaluations, 38 + 32 * evaluations.len()) == Ok::<
            OracleProofParts,
            OracleProofCodecError,
        >((variables, evaluations, messages, final_evaluation, opened)),
{
    let inner = sumcheck_proof_encoding(messages, final_evaluation);
    let cursor = 38 + 32 * evaluations.len();
    let start = cursor + 8;
    assert(oracle_magic().len() == 14);
    assert(encoding.len() == start + inner.len() + 32);
    assert(encoding.subrange(cursor as int, (cursor + 8) as int) =~= u64_le_bytes(inner.len() as u64));
    lemma_word_value(inner.len() as u64);
    assert(encoding.subrange(start as int, (start + inner.len()) as int) =~= inner);
    lemma_sumcheck_codec_roundtrip(messages, final_evaluation);
    let at = start + inner.len();
    assert(encoding.subrange(at as int, (at + 32) as int) =~= scalar_bytes(opened));
    assert(scalar_bytes(opened) =~= nat_le_bytes(opened, 32));
    lemma_le_nat_bound(scalar_bytes(opened));
}

} // verus!
