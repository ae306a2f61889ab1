//! Binary encoding of Sumcheck proofs.
//!
//! Layout: the magic `SL-SUM1`, the field's bit size and the round count as
//! little-endian `u64` words, the two evaluations of every round and then the
//! final evaluation, each as 32 little-endian bytes. Only canonical field
//! elements, below the field order, are accepted.
use vstd::prelude::*;
use crate::bytes::{bytes_equal, lemma_le_nat_of_nat_le_bytes, lemma_nat_le_bytes_of_le_nat, lemma_u64_le_bytes, pow256};
use crate::codec::{
    lemma_word_value, read_check, read_exact, read_scalar, read_u64, word_at, write_scalar, FieldReadError, ReadError,
};
use crate::field::{le_nat, modulus, modulus_bit_size, push_u64_le, scalar_bytes, u64_le_bytes, Scalar};
use crate::sumcheck::{messages_view, Proof, RoundPolynomial};

verus! {

#[derive(Clone, Copy, Debug, PartialEq, Eq, Structural)]
pub enum SumcheckCodecError {
    InvalidMagic,
    Truncated,
    TrailingBytes,
    InvalidFieldElement,
    LengthOverflow,
}

/// The bytes of `SL-SUM1`.
pub open spec fn sumcheck_magic() -> Seq<u8> {
    seq![83u8, 76, 45, 83, 85, 77, 49]
}

/// The bit size of the scalar field modulus.
pub open spec fn field_bit_size() -> u64 {
    255
}

/// The concatenated 32-byte encodings of the values.
pub open spec fn fields_bytes(values: Seq<nat>) -> Seq<u8>
    decreases values.len(),
{
    if values.len() == 0 {
        seq![]
    } else {
        fields_bytes(values.drop_last()) + scalar_bytes(values.last())
    }
}

/// The round evaluations in order, then the final evaluation.
pub open spec fn proof_fields(messages: Seq<(nat, nat)>, final_evaluation: nat) -> Seq<nat> {
    Seq::new(2 * messages.len(), |i: int| if i % 2 == 0 { messages[i / 2].0 } else { messages[i / 2].1 }).push(
        final_evaluation,
    )
}

/// The encoding of a proof with the given round messages and final
/// evaluation.
pub open spec fn sumcheck_proof_encoding(messages: Seq<(nat, nat)>, final_evaluation: nat) -> Seq<u8> {
    sumcheck_magic() + u64_le_bytes(field_bit_size()) + u64_le_bytes(messages.len() as u64) + fields_bytes(
        proof_fields(messages, final_evaluation),
    )
}

/// Reading one canonical 32-byte field element at `at`.
pub open spec fn read_field_at(input: Seq<u8>, at: nat) -> Result<nat, SumcheckCodecError> {
    match read_check(input.len(), at, 32) {
        Err(error) => Err(read_error(error)),
        Ok(()) => if le_nat(input.subrange(at as int, (at + 32) as int)) >= modulus() {
            Err(SumcheckCodecError::InvalidFieldElement)
        } else {
            Ok(le_nat(input.subrange(at as int, (at + 32) as int)))
        },
    }
}

/// Reading `count` consecutive canonical 32-byte field elements from
/// `cursor`.
pub open spec fn read_fields(input: Seq<u8>, cursor: nat, count: nat) -> Result<Seq<nat>, SumcheckCodecError>
    decreases count,
{
    if count == 0 {
        Ok(seq![])
    } else {
        match read_fields(input, cursor, (count - 1) as nat) {
            Err(error) => Err(error),
            Ok(values) => match read_field_at(input, (cursor + 32 * (count - 1)) as nat) {
                Err(error) => Err(error),
                Ok(value) => Ok(values.push(value)),
            },
        }
    }
}

pub open spec fn read_error(error: ReadError) -> SumcheckCodecError {
    match error {
        ReadError::Truncated => SumcheckCodecError::Truncated,
        ReadError::LengthOverflow => SumcheckCodecError::LengthOverflow,
    }
}

/// What decoding `input` gives: the round messages and the final evaluation,
/// or the first error met reading it front to back.
pub open spec fn decode_sumcheck_bytes(input: Seq<u8>) -> Result<(Seq<(nat, nat)>, nat), SumcheckCodecError> {
    if let Err(error) = read_check(input.len(), 0, 7) {
        Err(read_error(error))
    } else if input.take(7) != sumcheck_magic() {
        Err(SumcheckCodecError::InvalidMagic)
    } else if let Err(error) = read_check(input.len(), 7, 8) {
        Err(read_error(error))
    } else if word_at(input, 7) != field_bit_size() {
        Err(SumcheckCodecError::InvalidFieldElement)
    } else if let Err(error) = read_check(input.len(), 15, 8) {
        Err(read_error(error))
    } else if word_at(input, 15) > usize::MAX {
        Err(SumcheckCodecError::LengthOverflow)
    } else {
        decode_sumcheck_body(input, word_at(input, 15))
    }
}

/// Decoding after the header: the fields of `rounds` round messages and the
/// final evaluation, and nothing after them.
pub open spec fn decode_sumcheck_body(input: Seq<u8>, rounds: nat) -> Result<(Seq<(nat, nat)>, nat), SumcheckCodecError> {
    match read_fields(input, 23, 2 * rounds + 1) {
        Err(error) => Err(error),
        Ok(values) => if 23 + 32 * (2 * rounds + 1) != input.len() {
            Err(SumcheckCodecError::TrailingBytes)
        } else {
            Ok((Seq::new(rounds, |i: int| (values[2 * i], values[2 * i + 1])), values[2 * rounds as int]))
        },
    }
}

/// Once a field read fails, reading more fields fails the same way.
pub proof fn lemma_read_fields_stays_failed(input: Seq<u8>, cursor: nat, failed: nat, count: nat)
    requires
        failed <= count,
        read_fields(input, cursor, failed) is Err,
    ensures
        read_fields(input, cursor, count) == read_fields(input, cursor, failed),
    decreases count,
{
    if failed < count {
        lemma_read_fields_stays_failed(input, cursor, failed, (count - 1) as nat);
    }
}

/// A successful read of `count` fields yields `count` values.
pub proof fn lemma_read_fields_len(input: Seq<u8>, cursor: nat, count: nat)
    ensures
        read_fields(input, cursor, count) matches Ok(values) ==> values.len() == count,
    decreases count,
{
    if count > 0 {
        lemma_read_fields_len(input, cursor, (count - 1) as nat);
    }
}

fn sumcheck_magic_bytes() -> (r: Vec<u8>)
    ensures
        r@ == sumcheck_magic(),
{
    let magic = vec![83u8, 76, 45, 83, 85, 77, 49];
    assert(magic@ =~= sumcheck_magic());
    magic
}

fn map_read_error(error: ReadError) -> (r: SumcheckCodecError)
    ensures
        r == read_error(error),
{
    match error {
        ReadError::Truncated => SumcheckCodecError::Truncated,
        ReadError::LengthOverflow => SumcheckCodecError::LengthOverflow,
    }
}

/// Reads a canonical 32-byte field element at `cursor`.
fn read_field(input: &[u8], cursor: usize) -> (r: Result<(Scalar, usize), SumcheckCodecError>)
    ensures
        match read_field_at(input@, cursor as nat) {
            Err(error) => r == Err::<(Scalar, usize), SumcheckCodecError>(error),
            Ok(value) => r matches Ok((scalar, next)) && next == cursor + 32 && scalar@ == value,
        },
{
    match read_scalar(input, cursor) {
        Err(FieldReadError::Read(error)) => Err(map_read_error(error)),
        Err(FieldReadError::NonCanonical) => Err(SumcheckCodecError::InvalidFieldElement),
        Ok(read) => Ok(read),
    }
}

/// Encodes a Sumcheck proof.
pub fn encode_proof(proof: &Proof) -> (r: Result<Vec<u8>, SumcheckCodecError>)
    ensures
        r matches Ok(bytes) && bytes@ == sumcheck_proof_encoding(
            messages_view(proof.round_polynomials@),
            proof.final_evaluation@,
        ),
{
    let ghost messages = messages_view(proof.round_polynomials@);
    let ghost fields = proof_fields(messages, proof.final_evaluation@);
    let mut out = sumcheck_magic_bytes();
    push_u64_le(&mut out, modulus_bit_size());
    push_u64_le(&mut out, proof.round_polynomials.len() as u64);
    let ghost header = out@;
    assert(fields.take(0) =~= seq![]);
    let mut i: usize = 0;
    while i < proof.round_polynomials.len()
        invariant
            i <= proof.round_polynomials@.len(),
            messages == messages_view(proof.round_polynomials@),
            fields == proof_fields(messages, proof.final_evaluation@),
            out@ == header + fields_bytes(fields.take(2 * i)),
        decreases proof.round_polynomials@.len() - i,
    {
        let round = &proof.round_polynomials[i];
        write_scalar(&mut out, &round.evaluation_at_zero);
        write_scalar(&mut out, &round.evaluation_at_one);
        proof {
            assert(messages[i as int] == round.values());
            assert(fields.take(2 * i + 1).drop_last() =~= fields.take(2 * i));
            assert(fields.take(2 * i + 2).drop_last() =~= fields.take(2 * i + 1));
            assert(fields[2 * i] == round.evaluation_at_zero@);
            assert(fields[2 * i + 1] == round.evaluation_at_one@);
            assert(fields_bytes(fields.take(2 * i + 1)) == fields_bytes(fields.take(2 * i)) + scalar_bytes(
                fields[2 * i],
            ));
            assert(fields_bytes(fields.take(2 * i + 2)) == fields_bytes(fields.take(2 * i + 1)) + scalar_bytes(
                fields[2 * i + 1],
            ));
            assert(out@ =~= header + fields_bytes(fields.take(2 * i + 2)));
        }
        i = i + 1;
    }
    write_scalar(&mut out, &proof.final_evaluation);
    proof {
        assert(fields.take(2 * i) =~= fields.drop_last());
        assert(out@ =~= header + fields_bytes(fields));
    }
    Ok(out)
}

/// Decodes a Sumcheck proof.
#[verifier::rlimit(40)]
pub fn decode_proof(input: &[u8]) -> (r: Result<Proof, SumcheckCodecError>)
    ensures
        match decode_sumcheck_bytes(input@) {
            Ok((messages, final_evaluation)) => r matches Ok(proof) && messages_view(proof.round_polynomials@)
                == messages && proof.final_evaluation@ == final_evaluation,
            Err(error) => r == Err::<Proof, SumcheckCodecError>(error),
        },
        r matches Ok(proof) ==> input@ == sumcheck_proof_encoding(
            messages_view(proof.round_polynomials@),
            proof.final_evaluation@,
        ),
{
    let (magic, cursor) = match read_exact(input, 0, 7) {
        Err(error) => {
            return Err(map_read_error(error));
        },
        Ok(read) => read,
    };
    let expected = sumcheck_magic_bytes();
    assert(input@.subrange(0, 7) =~= input@.take(7));
    if !bytes_equal(magic.as_slice(), expected.as_slice()) {
        return Err(SumcheckCodecError::InvalidMagic);
    }
    let (bits, cursor) = match read_u64(input, cursor) {
        Err(error) => {
            return Err(map_read_error(error));
        },
        Ok(read) => read,
    };
    proof {
        lemma_word_value(bits);
    }
    if bits != modulus_bit_size() {
        return Err(SumcheckCodecError::InvalidFieldElement);
    }
    let (rounds_word, cursor) = match read_u64(input, cursor) {
        Err(error) => {
            return Err(map_read_error(error));
        },
        Ok(read) => read,
    };
    proof {
        lemma_word_value(rounds_word);
    }
    if rounds_word > usize::MAX as u64 {
        return Err(SumcheckCodecError::LengthOverflow);
    }
    let rounds = rounds_word as usize;
    let ghost total = (2 * rounds + 1) as nat;
    assert(decode_sumcheck_bytes(input@) == decode_sumcheck_body(input@, rounds as nat));
    let mut round_polynomials: Vec<RoundPolynomial> = Vec::new();
    let mut cursor = cursor;
    let mut i: usize = 0;
    while i < rounds
        invariant
            i <= rounds,
            rounds == word_at(input@, 15),
            total == 2 * rounds + 1,
            cursor == 23 + 64 * i,
            cursor <= input@.len(),
            decode_sumcheck_bytes(input@) == decode_sumcheck_body(input@, rounds as nat),
            read_fields(input@, 23, 2 * i as nat) matches Ok(values) && values.len() == 2 * i && round_polynomials@.len() == i
                && forall|k: int|
                0 <= k < i ==> (#[trigger] messages_view(round_polynomials@)[k]) == (values[2 * k], values[2 * k + 1]),
        decreases rounds - i,
    {
        let ghost before = read_fields(input@, 23, 2 * i as nat);
        let (zero, next) = match read_field(input, cursor) {
            Err(error) => {
                proof {
                    assert(read_fields(input@, 23, (2 * i + 1) as nat) is Err);
                    lemma_read_fields_stays_failed(input@, 23, (2 * i + 1) as nat, total);
                }
                return Err(error);
            },
            Ok(read) => read,
        };
        let (one, next) = match read_field(input, next) {
            Err(error) => {
                proof {
                    assert(read_fields(input@, 23, (2 * i + 2) as nat) is Err);
                    lemma_read_fields_stays_failed(input@, 23, (2 * i + 2) as nat, total);
                }
                return Err(error);
            },
            Ok(read) => read,
        };
        let ghost old_values = before->Ok_0;
        let ghost old_rounds = round_polynomials@;
        proof {
            assert(read_fields(input@, 23, (2 * i + 1) as nat) == Ok::<Seq<nat>, SumcheckCodecError>(
                old_values.push(zero@),
            ));
            assert(read_fields(input@, 23, (2 * i + 2) as nat) == Ok::<Seq<nat>, SumcheckCodecError>(
                old_values.push(zero@).push(one@),
            ));
        }
        round_polynomials.push(RoundPolynomial { evaluation_at_zero: zero, evaluation_at_one: one });
        cursor = next;
        i = i + 1;
        proof {
            let values = old_values.push(zero@).push(one@);
            assert forall|k: int| 0 <= k < i implies (#[trigger] messages_view(round_polynomials@)[k]) == (
                values[2 * k],
                values[2 * k + 1],
            ) by {
                if k < i - 1 {
                    assert(round_polynomials@[k] == old_rounds[k]);
                    assert(messages_view(old_rounds)[k] == (old_values[2 * k], old_values[2 * k + 1]));
                }
            }
        }
    }
    let (final_evaluation, cursor) = match read_field(input, cursor) {
        Err(error) => {
            return Err(error);
        },
        Ok(read) => read,
    };
    if cursor != input.len() {
        return Err(SumcheckCodecError::TrailingBytes);
    }
    let proof = Proof { round_polynomials, final_evaluation };
    proof {
        let values = read_fields(input@, 23, total)->Ok_0;
        lemma_read_fields_len(input@, 23, total);
        assert(messages_view(proof.round_polynomials@) =~= Seq::new(
            rounds as nat,
            |k: int| (values[2 * k], values[2 * k + 1]),
        ));
        lemma_decoded_is_encoding(input@);
    }
    Ok(proof)
}

/// The encodings of field elements are 32 bytes each, the `k`-th at offset
/// `32·k`.
pub proof fn lemma_fields_bytes_at(values: Seq<nat>, k: int)
    ensures
        fields_bytes(values).len() == 32 * values.len(),
        0 <= k < values.len() ==> fields_bytes(values).subrange(32 * k, 32 * k + 32) == scalar_bytes(values[k]),
    decreases values.len(),
{
    if values.len() > 0 {
        let rest = values.drop_last();
        lemma_fields_bytes_at(rest, k);
        crate::bytes::lemma_nat_le_bytes_len(values.last(), 32);
        let whole = fields_bytes(values);
        if 0 <= k < values.len() {
            if k == values.len() - 1 {
                assert(whole.subrange(32 * k, 32 * k + 32) =~= scalar_bytes(values.last()));
            } else {
                assert(whole.subrange(32 * k, 32 * k + 32) =~= fields_bytes(rest).subrange(32 * k, 32 * k + 32));
                assert(rest[k] == values[k]);
            }
        }
    }
}

/// A canonical value is read back from its 32-byte encoding.
pub proof fn lemma_scalar_bytes_read(v: nat)
    requires
        v < modulus(),
    ensures
        le_nat(scalar_bytes(v)) % modulus() == v,
        le_nat(scalar_bytes(v)) == v,
        scalar_bytes(v).len() == 32,
{
    assert(pow256(32) > modulus()) by {
        reveal_with_fuel(pow256, 33);
    }
    lemma_le_nat_of_nat_le_bytes(v, 32);
    crate::bytes::lemma_nat_le_bytes_len(v, 32);
    vstd::arithmetic::div_mod::lemma_small_mod(v, modulus());
}

/// Reading the fields of an encoding that starts at `cursor` gives the
/// values back, as long as each read ends within `usize`.
pub proof fn lemma_read_encoded_fields(input: Seq<u8>, cursor: nat, values: Seq<nat>, count: nat)
    requires
        count <= values.len(),
        forall|i: int| 0 <= i < values.len() ==> values[i] < modulus(),
        cursor + fields_bytes(values).len() <= input.len(),
        input.len() <= usize::MAX,
        input.subrange(cursor as int, (cursor + fields_bytes(values).len()) as int) == fields_bytes(values),
    ensures
        read_fields(input, cursor, count) == Ok::<Seq<nat>, SumcheckCodecError>(values.take(count as int)),
    decreases count,
{
    lemma_fields_bytes_at(values, count - 1);
    if count > 0 {
        lemma_read_encoded_fields(input, cursor, values, (count - 1) as nat);
        let k = count - 1;
        let at = cursor + 32 * k;
        assert(input.subrange(at, at + 32) =~= fields_bytes(values).subrange(32 * k, 32 * k + 32));
        lemma_scalar_bytes_read(values[k]);
        assert(values.take(count as int) =~= values.take(k).push(values[k]));
    } else {
        assert(values.take(0) =~= seq![]);
    }
}

/// Decoding the encoding of a proof whose values are canonical gives the
/// proof back.
#[verifier::rlimit(30)]
pub proof fn lemma_sumcheck_codec_roundtrip(messages: Seq<(nat, nat)>, final_evaluation: nat)
    requires
        forall|i: int| 0 <= i < messages.len() ==> messages[i].0 < modulus() && messages[i].1 < modulus(),
        final_evaluation < modulus(),
        sumcheck_proof_encoding(messages, final_evaluation).len() <= usize::MAX,
    ensures
        decode_sumcheck_bytes(sumcheck_proof_encoding(messages, final_evaluation)) == Ok::<
            (Seq<(nat, nat)>, nat),
            SumcheckCodecError,
        >((messages, final_evaluation)),
{
    let fields = proof_fields(messages, final_evaluation);
    let encoding = sumcheck_proof_encoding(messages, final_evaluation);
    let n = messages.len();
    lemma_fields_bytes_at(fields, 0);
    assert(sumcheck_magic().len() == 7);
    assert(fields.len() == 2 * n + 1);
    assert(fields_bytes(fields).len() == 32 * (2 * n + 1));
    assert(encoding.len() == 23 + 32 * (2 * n + 1));
    assert(n <= usize::MAX);
    assert(encoding.take(7) =~= sumcheck_magic());
    assert(encoding.subrange(7, 15) =~= u64_le_bytes(255));
    assert(encoding.subrange(15, 23) =~= u64_le_bytes(n as u64));
    lemma_word_value(255);
    lemma_word_value(n as u64);
    assert(encoding.subrange(23, (23 + fields_bytes(fields).len()) as int) =~= fields_bytes(fields));
    lemma_read_encoded_fields(encoding, 23, fields, (2 * n + 1) as nat);
    assert(fields.take((2 * n + 1) as int) =~= fields);
    assert(Seq::new(n, |i: int| (fields[2 * i], fields[2 * i + 1])) =~= messages);
}

/// Fields read from `cursor` are the encodings of the values read.
proof fn lemma_read_fields_bytes(input: Seq<u8>, cursor: nat, count: nat)
    requires
        read_fields(input, cursor, count) is Ok,
        cursor <= input.len(),
    ensures
        cursor + 32 * count <= input.len(),
        input.subrange(cursor as int, (cursor + 32 * count) as int) == fields_bytes(
            read_fields(input, cursor, count)->Ok_0,
        ),
    decreases count,
{
    if count == 0 {
        assert(input.subrange(cursor as int, cursor as int) =~= seq![]);
    } else {
        let k = (count - 1) as nat;
        lemma_read_fields_bytes(input, cursor, k);
        let previous = read_fields(input, cursor, k)->Ok_0;
        let values = read_fields(input, cursor, count)->Ok_0;
        let at = cursor + 32 * k;
        let chunk = input.subrange(at as int, (at + 32) as int);
        lemma_nat_le_bytes_of_le_nat(chunk);
        assert(values.drop_last() =~= previous);
        assert(scalar_bytes(values.last()) == chunk);
        assert(input.subrange(cursor as int, (cursor + 32 * count) as int) =~= input.subrange(
            cursor as int,
            at as int,
        ) + chunk);
    }
}

/// An input that decodes is the encoding of what it decodes to, so decoding
/// and encoding again gives the same bytes.
pub proof fn lemma_decoded_is_encoding(input: Seq<u8>)
    requires
        decode_sumcheck_bytes(input) is Ok,
    ensures
        ({
            let (messages, final_evaluation) = decode_sumcheck_bytes(input)->Ok_0;
            input == sumcheck_proof_encoding(messages, final_evaluation)
        }),
{
    let rounds = word_at(input, 15);
    let count = (2 * rounds + 1) as nat;
    let values = read_fields(input, 23, count)->Ok_0;
    let (messages, final_evaluation) = decode_sumcheck_bytes(input)->Ok_0;
    lemma_read_fields_bytes(input, 23, count);
    lemma_read_fields_len(input, 23, count);
    assert(proof_fields(messages, final_evaluation) =~= values);
    lemma_nat_le_bytes_of_le_nat(input.subrange(7, 15));
    lemma_nat_le_bytes_of_le_nat(input.subrange(15, 23));
    lemma_u64_le_bytes(field_bit_size());
    lemma_u64_le_bytes(rounds as u64);
    assert(input.subrange(7, 15) == u64_le_bytes(field_bit_size()));
    assert(input.subrange(15, 23) == u64_le_bytes(messages.len() as u64));
    assert(input =~= input.take(7) + input.subrange(7, 15) + input.subrange(15, 23) + input.subrange(
        23,
        input.len() as int,
    ));
}

} // verus!
