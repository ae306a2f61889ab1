//! The binary format of an IPA opening proof.
use vstd::prelude::*;
use vstd::string::StringSliceAdditionalSpecFns;
use crate::bytes::bytes_equal;
use crate::codec::{
    append_bytes, field_check, framed, framed_read, lemma_framed_read, lemma_word_value, read_check, read_exact, read_framed,
    read_scalar, read_u64, word_at, write_framed, write_scalar, FieldReadError, ReadError,
};
use crate::field::{le_nat, modulus, modulus_bit_size, push_u64_le, scalar_bytes, u64_le_bytes, Scalar};
use crate::sumcheck_codec::lemma_scalar_bytes_read;
use crate::ipa_proof::{proof_shape_check, validate_ipa_opening_proof_shape, IpaOpeningProof, IpaProofShapeError};
use crate::ipa_transcript::{IpaRoundSide, IpaTranscriptError, IpaTranscriptRound};

verus! {

#[derive(Clone, Copy, Debug, PartialEq, Eq)]
pub enum IpaProofCodecError {
    InvalidMagic,
    Truncated,
    TrailingBytes,
    InvalidFieldElement,
    LengthOverflow,
    InvalidProofShape(IpaProofShapeError),
}

/// The largest variable count the format accepts.
pub open spec fn max_encoded_variables() -> usize {
    64
}

/// The format's leading magic bytes.
pub open spec fn proof_magic() -> Seq<u8> {
    "SL-IPA-PROOF1".spec_bytes()
}

/// The bit size of the field modulus, written after the magic.
pub open spec fn modulus_bits() -> u64 {
    255
}

/// The encoding of a sequence of round messages.
pub open spec fn rounds_encoding(rounds: Seq<IpaTranscriptRound>) -> Seq<u8>
    decreases rounds.len(),
{
    if rounds.len() == 0 {
        seq![]
    } else {
        let round = rounds.last();
        rounds_encoding(rounds.drop_last()) + u64_le_bytes(round.round_index as u64) + framed(
            round.left_commitment_bytes@,
        ) + framed(round.right_commitment_bytes@)
    }
}

/// The encoding up to and including the round count.
pub open spec fn proof_header(proof: IpaOpeningProof) -> Seq<u8> {
    proof_magic() + u64_le_bytes(modulus_bits()) + u64_le_bytes(proof.variables as u64) + scalar_bytes(
        proof.claimed_value@,
    ) + u64_le_bytes(proof.rounds@.len() as u64)
}

/// The canonical encoding of an IPA opening proof.
pub open spec fn proof_encoding(proof: IpaOpeningProof) -> Seq<u8> {
    proof_header(proof) + rounds_encoding(proof.rounds@) + scalar_bytes(proof.final_polynomial_scalar@) + scalar_bytes(
        proof.final_evaluation_basis_scalar@,
    ) + framed(proof.final_commitment_bytes@)
}

/// The first round, among the first `count`, with an empty commitment.
pub open spec fn rounds_check(rounds: Seq<IpaTranscriptRound>, count: nat) -> Result<(), IpaTranscriptError>
    decreases count,
{
    if count == 0 {
        Ok(())
    } else {
        match rounds_check(rounds, (count - 1) as nat) {
            Err(error) => Err(error),
            Ok(()) => {
                let round = rounds[count - 1];
                if round.left_commitment_bytes@.len() == 0 {
                    Err(IpaTranscriptError::EmptyRoundCommitment { round_index: round.round_index, side: IpaRoundSide::Left })
                } else if round.right_commitment_bytes@.len() == 0 {
                    Err(IpaTranscriptError::EmptyRoundCommitment { round_index: round.round_index, side: IpaRoundSide::Right })
                } else {
                    Ok(())
                }
            },
        }
    }
}

/// The checks a proof passes before it is encoded.
pub open spec fn encodable_check(proof: IpaOpeningProof) -> Result<(), IpaProofCodecError> {
    match proof_shape_check(proof.variables, proof.rounds@.len(), proof.final_commitment_bytes@.len()) {
        Err(error) => Err(IpaProofCodecError::InvalidProofShape(error)),
        Ok(()) => match rounds_check(proof.rounds@, proof.rounds@.len()) {
            Err(error) => Err(IpaProofCodecError::InvalidProofShape(IpaProofShapeError::Transcript(error))),
            Ok(()) => Ok(()),
        },
    }
}

/// Rounds whose commitments are all non-empty pass the check.
pub proof fn lemma_rounds_check_ok(rounds: Seq<IpaTranscriptRound>, count: nat)
    requires
        count <= rounds.len(),
        forall|k: int|
            0 <= k < count ==> (#[trigger] rounds[k]).left_commitment_bytes@.len() > 0
                && rounds[k].right_commitment_bytes@.len() > 0,
    ensures
        rounds_check(rounds, count) == Ok::<(), IpaTranscriptError>(()),
    decreases count,
{
    if count > 0 {
        lemma_rounds_check_ok(rounds, (count - 1) as nat);
    }
}

/// Rounds that pass the check have non-empty commitments.
pub proof fn lemma_rounds_check_nonempty(rounds: Seq<IpaTranscriptRound>, count: nat)
    requires
        count <= rounds.len(),
        rounds_check(rounds, count) is Ok,
    ensures
        forall|k: int|
            0 <= k < count ==> (#[trigger] rounds[k]).left_commitment_bytes@.len() > 0
                && rounds[k].right_commitment_bytes@.len() > 0,
    decreases count,
{
    if count > 0 {
        lemma_rounds_check_nonempty(rounds, (count - 1) as nat);
    }
}

/// Once a round fails, checking more rounds reports that failure.
pub proof fn lemma_rounds_check_stays_failed(rounds: Seq<IpaTranscriptRound>, failed: nat, count: nat)
    requires
        failed <= count,
        rounds_check(rounds, failed) is Err,
    ensures
        rounds_check(rounds, count) == rounds_check(rounds, failed),
    decreases count,
{
    if failed < count {
        lemma_rounds_check_stays_failed(rounds, failed, (count - 1) as nat);
    }
}

/// A round message as its index and its two commitment encodings.
pub open spec fn round_parts(round: IpaTranscriptRound) -> (usize, Seq<u8>, Seq<u8>) {
    (round.round_index, round.left_commitment_bytes@, round.right_commitment_bytes@)
}

/// The round messages of a proof as plain values.
pub open spec fn rounds_parts(rounds: Seq<IpaTranscriptRound>) -> Seq<(usize, Seq<u8>, Seq<u8>)> {
    rounds.map_values(|round: IpaTranscriptRound| round_parts(round))
}

/// An IPA opening proof as plain values.
pub struct ProofView {
    pub variables: usize,
    pub claimed_value: nat,
    pub rounds: Seq<(usize, Seq<u8>, Seq<u8>)>,
    pub final_polynomial_scalar: nat,
    pub final_evaluation_basis_scalar: nat,
    pub final_commitment: Seq<u8>,
}

pub open spec fn proof_view(proof: IpaOpeningProof) -> ProofView {
    ProofView {
        variables: proof.variables,
        claimed_value: proof.claimed_value@,
        rounds: rounds_parts(proof.rounds@),
        final_polynomial_scalar: proof.final_polynomial_scalar@,
        final_evaluation_basis_scalar: proof.final_evaluation_basis_scalar@,
        final_commitment: proof.final_commitment_bytes@,
    }
}

pub open spec fn proof_read_error(error: ReadError) -> IpaProofCodecError {
    match error {
        ReadError::Truncated => IpaProofCodecError::Truncated,
        ReadError::LengthOverflow => IpaProofCodecError::LengthOverflow,
    }
}

/// Reading a little-endian word at `cursor`.
pub open spec fn read_word_at(input: Seq<u8>, cursor: nat) -> Result<(nat, nat), IpaProofCodecError> {
    match read_check(input.len(), cursor, 8) {
        Err(error) => Err(proof_read_error(error)),
        Ok(()) => Ok((word_at(input, cursor as int), cursor + 8)),
    }
}

/// Reading a canonical field element at `cursor`.
pub open spec fn read_field_at(input: Seq<u8>, cursor: nat) -> Result<(nat, nat), IpaProofCodecError> {
    match field_check(input, cursor) {
        Err(FieldReadError::Read(error)) => Err(proof_read_error(error)),
        Err(FieldReadError::NonCanonical) => Err(IpaProofCodecError::InvalidFieldElement),
        Ok(()) => Ok((le_nat(input.subrange(cursor as int, (cursor + 32) as int)), cursor + 32)),
    }
}

/// Reading a length-prefixed byte string at `cursor`.
pub open spec fn read_frame_at(input: Seq<u8>, cursor: nat) -> Result<(Seq<u8>, nat), IpaProofCodecError> {
    match framed_read(input, cursor) {
        Err(error) => Err(proof_read_error(error)),
        Ok(read) => Ok(read),
    }
}

/// Reading one round message at `cursor`: its index and two non-empty
/// commitment encodings.
pub open spec fn read_round_at(input: Seq<u8>, cursor: nat) -> Result<((usize, Seq<u8>, Seq<u8>), nat), IpaProofCodecError> {
    match read_word_at(input, cursor) {
        Err(error) => Err(error),
        Ok((index, after_index)) => if index > usize::MAX {
            Err(IpaProofCodecError::LengthOverflow)
        } else {
            match read_frame_at(input, after_index) {
                Err(error) => Err(error),
                Ok((left, after_left)) => match read_frame_at(input, after_left) {
                    Err(error) => Err(error),
                    Ok((right, after_right)) => if left.len() == 0 {
                        Err(
                            IpaProofCodecError::InvalidProofShape(
                                IpaProofShapeError::Transcript(
                                    IpaTranscriptError::EmptyRoundCommitment {
                                        round_index: index as usize,
                                        side: IpaRoundSide::Left,
                                    },
                                ),
                            ),
                        )
                    } else if right.len() == 0 {
                        Err(
                            IpaProofCodecError::InvalidProofShape(
                                IpaProofShapeError::Transcript(
                                    IpaTranscriptError::EmptyRoundCommitment {
                                        round_index: index as usize,
                                        side: IpaRoundSide::Right,
                                    },
                                ),
                            ),
                        )
                    } else {
                        Ok(((index as usize, left, right), after_right))
                    },
                },
            }
        },
    }
}

/// Reading `count` round messages from `cursor`.
pub open spec fn read_rounds_at(input: Seq<u8>, cursor: nat, count: nat) -> Result<
    (Seq<(usize, Seq<u8>, Seq<u8>)>, nat),
    IpaProofCodecError,
>
    decreases count,
{
    if count == 0 {
        Ok((seq![], cursor))
    } else {
        match read_rounds_at(input, cursor, (count - 1) as nat) {
            Err(error) => Err(error),
            Ok((rounds, at)) => match read_round_at(input, at) {
                Err(error) => Err(error),
                Ok((round, next)) => Ok((rounds.push(round), next)),
            },
        }
    }
}

/// Once a round fails to read, reading more rounds reports that failure.
pub proof fn lemma_read_rounds_stays_failed(input: Seq<u8>, cursor: nat, failed: nat, count: nat)
    requires
        failed <= count,
        read_rounds_at(input, cursor, failed) is Err,
    ensures
        read_rounds_at(input, cursor, count) == read_rounds_at(input, cursor, failed),
    decreases count,
{
    if failed < count {
        lemma_read_rounds_stays_failed(input, cursor, failed, (count - 1) as nat);
    }
}

/// The tail of a proof after its round messages: the two final scalars and
/// the final commitment, with the input required to end there.
pub open spec fn read_tail_at(input: Seq<u8>, cursor: nat) -> Result<(nat, nat, Seq<u8>), IpaProofCodecError> {
    match read_field_at(input, cursor) {
        Err(error) => Err(error),
        Ok((polynomial, after_polynomial)) => match read_field_at(input, after_polynomial) {
            Err(error) => Err(error),
            Ok((evaluation, after_evaluation)) => match read_frame_at(input, after_evaluation) {
                Err(error) => Err(error),
                Ok((commitment, end)) => if end != input.len() {
                    Err(IpaProofCodecError::TrailingBytes)
                } else {
                    Ok((polynomial, evaluation, commitment))
                },
            },
        },
    }
}

/// Decoding the round messages and the tail of a proof whose header gave
/// `variables`, `claimed_value` and `count`.
pub open spec fn decode_body(input: Seq<u8>, variables: usize, claimed_value: nat, count: nat) -> Result<
    ProofView,
    IpaProofCodecError,
> {
    match read_rounds_at(input, 69, count) {
        Err(error) => Err(error),
        Ok((rounds, after_rounds)) => match read_tail_at(input, after_rounds) {
            Err(error) => Err(error),
            Ok((polynomial, evaluation, commitment)) => if commitment.len() == 0 {
                Err(IpaProofCodecError::InvalidProofShape(IpaProofShapeError::EmptyFinalCommitment))
            } else {
                Ok(
                    ProofView {
                        variables,
                        claimed_value,
                        rounds,
                        final_polynomial_scalar: polynomial,
                        final_evaluation_basis_scalar: evaluation,
                        final_commitment: commitment,
                    },
                )
            },
        },
    }
}

/// What decoding `input` as an IPA opening proof gives, or the first error
/// met reading it front to back.
pub open spec fn decode_proof_bytes(input: Seq<u8>) -> Result<ProofView, IpaProofCodecError> {
    if let Err(error) = read_check(input.len(), 0, 13) {
        Err(proof_read_error(error))
    } else if input.subrange(0, 13) != proof_magic() {
        Err(IpaProofCodecError::InvalidMagic)
    } else {
        match read_word_at(input, 13) {
            Err(error) => Err(error),
            Ok((bits, _)) => if bits != modulus_bits() {
                Err(IpaProofCodecError::InvalidFieldElement)
            } else {
                match read_word_at(input, 21) {
                    Err(error) => Err(error),
                    Ok((variables, _)) => if variables > max_encoded_variables() {
                        Err(IpaProofCodecError::LengthOverflow)
                    } else {
                        match read_field_at(input, 29) {
                            Err(error) => Err(error),
                            Ok((claimed_value, _)) => match read_word_at(input, 61) {
                                Err(error) => Err(error),
                                Ok((count, _)) => if count > max_encoded_variables() {
                                    Err(IpaProofCodecError::LengthOverflow)
                                } else if count != variables {
                                    Err(
                                        IpaProofCodecError::InvalidProofShape(
                                            IpaProofShapeError::Transcript(
                                                IpaTranscriptError::RoundCountMismatch {
                                                    expected: variables as usize,
                                                    actual: count as usize,
                                                },
                                            ),
                                        ),
                                    )
                                } else {
                                    decode_body(input, variables as usize, claimed_value, count)
                                },
                            },
                        }
                    },
                }
            },
        }
    }
}

/// Reading encoded round messages gives them back.
proof fn lemma_read_rounds_encoding(input: Seq<u8>, cursor: nat, rounds: Seq<IpaTranscriptRound>)
    requires
        forall|k: int|
            0 <= k < rounds.len() ==> (#[trigger] rounds[k]).left_commitment_bytes@.len() > 0
                && rounds[k].right_commitment_bytes@.len() > 0,
        cursor + rounds_encoding(rounds).len() <= input.len(),
        input.len() <= usize::MAX,
        input.subrange(cursor as int, (cursor + rounds_encoding(rounds).len()) as int) == rounds_encoding(rounds),
    ensures
        read_rounds_at(input, cursor, rounds.len()) == Ok::<(Seq<(usize, Seq<u8>, Seq<u8>)>, nat), IpaProofCodecError>(
            (rounds_parts(rounds), cursor + rounds_encoding(rounds).len()),
        ),
    decreases rounds.len(),
{
    if rounds.len() == 0 {
        assert(rounds_parts(rounds) =~= seq![]);
    } else {
        let previous = rounds.drop_last();
        let round = rounds.last();
        let encoding = rounds_encoding(rounds);
        let before = rounds_encoding(previous);
        let left = round.left_commitment_bytes@;
        let right = round.right_commitment_bytes@;
        let c = cursor as int;
        let b = before.len() as int;
        let l = left.len() as int;
        let r = right.len() as int;
        let at = c + b;
        assert(encoding == before + u64_le_bytes(round.round_index as u64) + framed(left) + framed(right));
        assert(input.subrange(c, at) =~= encoding.subrange(0, b));
        assert(encoding.subrange(0, b) =~= before);
        assert forall|k: int| 0 <= k < previous.len() implies (#[trigger] previous[k]).left_commitment_bytes@.len() > 0
            && previous[k].right_commitment_bytes@.len() > 0 by {
            assert(previous[k] == rounds[k]);
        }
        lemma_read_rounds_encoding(input, cursor, previous);
        assert(input.subrange(at, at + 8) =~= encoding.subrange(b, b + 8));
        assert(encoding.subrange(b, b + 8) =~= u64_le_bytes(round.round_index as u64));
        lemma_word_value(round.round_index as u64);
        assert(read_word_at(input, at as nat) == Ok::<(nat, nat), IpaProofCodecError>(
            (round.round_index as nat, (at + 8) as nat),
        ));
        let left_at = at + 8;
        assert(input.subrange(left_at, left_at + 8 + l) =~= encoding.subrange(b + 8, b + 16 + l));
        assert(encoding.subrange(b + 8, b + 16 + l) =~= framed(left));
        lemma_framed_read(input, left_at as nat, left);
        let right_at = left_at + 8 + l;
        assert(input.subrange(right_at, right_at + 8 + r) =~= encoding.subrange(b + 16 + l, b + 24 + l + r));
        assert(encoding.subrange(b + 16 + l, b + 24 + l + r) =~= framed(right));
        lemma_framed_read(input, right_at as nat, right);
        assert(read_round_at(input, at as nat) == Ok::<((usize, Seq<u8>, Seq<u8>), nat), IpaProofCodecError>(
            (round_parts(round), (right_at + 8 + r) as nat),
        ));
        assert(rounds_parts(rounds) =~= rounds_parts(previous).push(round_parts(round)));
    }
}

/// Decoding the encoding of an encodable proof over at most 64 variables
/// gives the proof back.
pub proof fn lemma_proof_codec_roundtrip(proof: IpaOpeningProof)
    requires
        encodable_check(proof) is Ok,
        proof.variables <= max_encoded_variables(),
        proof_encoding(proof).len() <= usize::MAX,
    ensures
        decode_proof_bytes(proof_encoding(proof)) == Ok::<ProofView, IpaProofCodecError>(proof_view(proof)),
{
    let input = proof_encoding(proof);
    let rounds = proof.rounds@;
    let body = rounds_encoding(rounds);
    reveal_strlit("SL-IPA-PROOF1");
    vstd::string::is_ascii_spec_bytes("SL-IPA-PROOF1");
    assert(proof_magic().len() == 13);
    crate::bytes::lemma_nat_le_bytes_len(proof.claimed_value@, 32);
    crate::bytes::lemma_nat_le_bytes_len(proof.final_polynomial_scalar@, 32);
    crate::bytes::lemma_nat_le_bytes_len(proof.final_evaluation_basis_scalar@, 32);
    let header = proof_header(proof);
    assert(header.len() == 69);
    assert(input.subrange(0, 13) =~= proof_magic());
    assert(input.subrange(13, 21) =~= u64_le_bytes(modulus_bits()));
    lemma_word_value(modulus_bits());
    assert(input.subrange(21, 29) =~= u64_le_bytes(proof.variables as u64));
    lemma_word_value(proof.variables as u64);
    assert(input.subrange(29, 61) =~= scalar_bytes(proof.claimed_value@));
    vstd::arithmetic::div_mod::lemma_mod_bound(proof.claimed_value.value() as int, modulus() as int);
    lemma_scalar_bytes_read(proof.claimed_value@);
    assert(read_field_at(input, 29) == Ok::<(nat, nat), IpaProofCodecError>((proof.claimed_value@, 61)));
    assert(input.subrange(61, 69) =~= u64_le_bytes(rounds.len() as u64));
    lemma_word_value(rounds.len() as u64);
    lemma_rounds_check_nonempty(rounds, rounds.len());
    let t = 69 + body.len() as int;
    assert(input.subrange(69, t) =~= body);
    lemma_read_rounds_encoding(input, 69, rounds);
    assert(input.subrange(t, t + 32) =~= scalar_bytes(proof.final_polynomial_scalar@));
    vstd::arithmetic::div_mod::lemma_mod_bound(proof.final_polynomial_scalar.value() as int, modulus() as int);
    lemma_scalar_bytes_read(proof.final_polynomial_scalar@);
    assert(input.subrange(t + 32, t + 64) =~= scalar_bytes(proof.final_evaluation_basis_scalar@));
    vstd::arithmetic::div_mod::lemma_mod_bound(proof.final_evaluation_basis_scalar.value() as int, modulus() as int);
    lemma_scalar_bytes_read(proof.final_evaluation_basis_scalar@);
    let commitment = proof.final_commitment_bytes@;
    assert(input.subrange(t + 64, t + 72 + commitment.len()) =~= framed(commitment));
    lemma_framed_read(input, (t + 64) as nat, commitment);
    assert(input.len() == t + 72 + commitment.len());
}

fn magic() -> (r: Vec<u8>)
    ensures
        r@ == proof_magic(),
{
    let text = "SL-IPA-PROOF1";
    crate::bytes::copy_bytes(text.as_bytes())
}

/// Encodes an IPA opening proof after checking its shape.
pub fn encode_ipa_opening_proof(proof: &IpaOpeningProof) -> (r: Result<Vec<u8>, IpaProofCodecError>)
    ensures
        match encodable_check(*proof) {
            Err(error) => r == Err::<Vec<u8>, IpaProofCodecError>(error),
            Ok(()) => r matches Ok(bytes) && bytes@ == proof_encoding(*proof),
        },
{
    match validate_ipa_opening_proof_shape(proof) {
        Err(error) => {
            return Err(IpaProofCodecError::InvalidProofShape(error));
        },
        Ok(()) => {},
    }
    let mut out = magic();
    push_u64_le(&mut out, modulus_bit_size());
    push_u64_le(&mut out, proof.variables as u64);
    write_scalar(&mut out, &proof.claimed_value);
    push_u64_le(&mut out, proof.rounds.len() as u64);
    assert(out@ =~= proof_header(*proof));
    let mut index: usize = 0;
    while index < proof.rounds.len()
        invariant
            index <= proof.rounds@.len(),
            out@ == proof_header(*proof) + rounds_encoding(proof.rounds@.take(index as int)),
            rounds_check(proof.rounds@, index as nat) == Ok::<(), IpaTranscriptError>(()),
            proof_shape_check(proof.variables, proof.rounds@.len(), proof.final_commitment_bytes@.len()) == Ok::<
                (),
                IpaProofShapeError,
            >(()),
        decreases proof.rounds@.len() - index,
    {
        let round = &proof.rounds[index];
        if round.left_commitment_bytes.len() == 0 {
            proof {
                assert(rounds_check(proof.rounds@, (index + 1) as nat) is Err);
                lemma_rounds_check_stays_failed(proof.rounds@, (index + 1) as nat, proof.rounds@.len());
            }
            return Err(
                IpaProofCodecError::InvalidProofShape(
                    IpaProofShapeError::Transcript(
                        IpaTranscriptError::EmptyRoundCommitment { round_index: round.round_index, side: IpaRoundSide::Left },
                    ),
                ),
            );
        }
        if round.right_commitment_bytes.len() == 0 {
            proof {
                assert(rounds_check(proof.rounds@, (index + 1) as nat) is Err);
                lemma_rounds_check_stays_failed(proof.rounds@, (index + 1) as nat, proof.rounds@.len());
            }
            return Err(
                IpaProofCodecError::InvalidProofShape(
                    IpaProofShapeError::Transcript(
                        IpaTranscriptError::EmptyRoundCommitment {
                            round_index: round.round_index,
                            side: IpaRoundSide::Right,
                        },
                    ),
                ),
            );
        }
        push_u64_le(&mut out, round.round_index as u64);
        write_framed(&mut out, round.left_commitment_bytes.as_slice());
        write_framed(&mut out, round.right_commitment_bytes.as_slice());
        proof {
            assert(proof.rounds@.take(index + 1).drop_last() =~= proof.rounds@.take(index as int));
        }
        index = index + 1;
        assert(out@ =~= proof_header(*proof) + rounds_encoding(proof.rounds@.take(index as int)));
    }
    assert(proof.rounds@.take(index as int) =~= proof.rounds@);
    write_scalar(&mut out, &proof.final_polynomial_scalar);
    write_scalar(&mut out, &proof.final_evaluation_basis_scalar);
    write_framed(&mut out, proof.final_commitment_bytes.as_slice());
    assert(out@ =~= proof_encoding(*proof));
    Ok(out)
}

fn read_error(error: ReadError) -> (r: IpaProofCodecError)
    ensures
        r == proof_read_error(error),
{
    match error {
        ReadError::Truncated => IpaProofCodecError::Truncated,
        ReadError::LengthOverflow => IpaProofCodecError::LengthOverflow,
    }
}

fn read_word(input: &[u8], cursor: usize) -> (r: Result<(u64, usize), IpaProofCodecError>)
    ensures
        match read_word_at(input@, cursor as nat) {
            Err(error) => r == Err::<(u64, usize), IpaProofCodecError>(error),
            Ok((value, next)) => r matches Ok((word, after)) && word == value && after == next
                && input@.subrange(cursor as int, cursor + 8) == u64_le_bytes(word),
        },
{
    match read_u64(input, cursor) {
        Err(error) => Err(read_error(error)),
        Ok((word, after)) => {
            proof {
                lemma_word_value(word);
            }
            Ok((word, after))
        },
    }
}

fn read_field(input: &[u8], cursor: usize) -> (r: Result<(Scalar, usize), IpaProofCodecError>)
    ensures
        match read_field_at(input@, cursor as nat) {
            Err(error) => r == Err::<(Scalar, usize), IpaProofCodecError>(error),
            Ok((value, next)) => r matches Ok((scalar, after)) && scalar@ == value && after == next
                && input@.subrange(cursor as int, cursor + 32) == scalar_bytes(scalar@),
        },
{
    match read_scalar(input, cursor) {
        Err(FieldReadError::Read(error)) => Err(read_error(error)),
        Err(FieldReadError::NonCanonical) => Err(IpaProofCodecError::InvalidFieldElement),
        Ok(read) => Ok(read),
    }
}

fn read_frame(input: &[u8], cursor: usize) -> (r: Result<(Vec<u8>, usize), IpaProofCodecError>)
    ensures
        match read_frame_at(input@, cursor as nat) {
            Err(error) => r == Err::<(Vec<u8>, usize), IpaProofCodecError>(error),
            Ok((bytes, next)) => r matches Ok((read, after)) && read@ == bytes && after == next && cursor <= after
                <= input@.len() && input@.subrange(cursor as int, after as int) == framed(read@),
        },
{
    match read_framed(input, cursor) {
        Err(error) => Err(read_error(error)),
        Ok(read) => Ok(read),
    }
}

fn read_round(input: &[u8], cursor: usize) -> (r: Result<(IpaTranscriptRound, usize), IpaProofCodecError>)
    ensures
        match read_round_at(input@, cursor as nat) {
            Err(error) => r == Err::<(IpaTranscriptRound, usize), IpaProofCodecError>(error),
            Ok((round, next)) => r matches Ok((value, after)) && round_parts(value) == round && after == next
                && cursor <= after <= input@.len() && input@.subrange(cursor as int, after as int) == u64_le_bytes(
                value.round_index as u64,
            ) + framed(value.left_commitment_bytes@) + framed(value.right_commitment_bytes@)
                && value.left_commitment_bytes@.len() > 0 && value.right_commitment_bytes@.len() > 0,
        },
{
    let (index_word, after_index) = match read_word(input, cursor) {
        Err(error) => {
            return Err(error);
        },
        Ok(read) => read,
    };
    if index_word > usize::MAX as u64 {
        return Err(IpaProofCodecError::LengthOverflow);
    }
    let (left, after_left) = match read_frame(input, after_index) {
        Err(error) => {
            return Err(error);
        },
        Ok(read) => read,
    };
    let (right, after_right) = match read_frame(input, after_left) {
        Err(error) => {
            return Err(error);
        },
        Ok(read) => read,
    };
    let round = match IpaTranscriptRound::new(index_word as usize, left, right) {
        Err(error) => {
            return Err(IpaProofCodecError::InvalidProofShape(IpaProofShapeError::Transcript(error)));
        },
        Ok(round) => round,
    };
    proof {
        assert(input@.subrange(cursor as int, after_right as int) =~= input@.subrange(cursor as int, after_index as int)
            + input@.subrange(after_index as int, after_left as int) + input@.subrange(
            after_left as int,
            after_right as int,
        ));
    }
    Ok((round, after_right))
}

/// Decodes an IPA opening proof. Only canonical encodings of well-shaped
/// proofs over at most 64 variables are accepted.
#[verifier::rlimit(40)]
pub fn decode_ipa_opening_proof(input: &[u8]) -> (r: Result<IpaOpeningProof, IpaProofCodecError>)
    ensures
        match decode_proof_bytes(input@) {
            Err(error) => r == Err::<IpaOpeningProof, IpaProofCodecError>(error),
            Ok(view) => r matches Ok(proof) && proof_view(proof) == view,
        },
        r matches Ok(proof) ==> input@ == proof_encoding(proof) && encodable_check(proof) is Ok && proof.variables
            <= max_encoded_variables(),
        input@.len() < proof_magic().len() ==> r == Err::<IpaOpeningProof, IpaProofCodecError>(
            IpaProofCodecError::Truncated,
        ),
        input@.len() >= proof_magic().len() && input@.subrange(0, proof_magic().len() as int) != proof_magic() ==> r
            == Err::<IpaOpeningProof, IpaProofCodecError>(IpaProofCodecError::InvalidMagic),
{
    proof {
        reveal_strlit("SL-IPA-PROOF1");
        vstd::string::is_ascii_spec_bytes("SL-IPA-PROOF1");
        assert(proof_magic().len() == 13);
    }
    let expected_magic = magic();
    let (found, cursor) = match read_exact(input, 0, expected_magic.len()) {
        Err(error) => {
            return Err(read_error(error));
        },
        Ok(read) => read,
    };
    if !bytes_equal(found.as_slice(), expected_magic.as_slice()) {
        return Err(IpaProofCodecError::InvalidMagic);
    }
    let (bits, cursor) = match read_word(input, cursor) {
        Err(error) => {
            return Err(error);
        },
        Ok(read) => read,
    };
    if bits != modulus_bit_size() {
        return Err(IpaProofCodecError::InvalidFieldElement);
    }
    let (variables_word, cursor) = match read_word(input, cursor) {
        Err(error) => {
            return Err(error);
        },
        Ok(read) => read,
    };
    if variables_word > 64 {
        return Err(IpaProofCodecError::LengthOverflow);
    }
    let variables = variables_word as usize;
    let (claimed_value, cursor) = match read_field(input, cursor) {
        Err(error) => {
            return Err(error);
        },
        Ok(read) => read,
    };
    let (round_word, cursor) = match read_word(input, cursor) {
        Err(error) => {
            return Err(error);
        },
        Ok(read) => read,
    };
    if round_word > 64 {
        return Err(IpaProofCodecError::LengthOverflow);
    }
    let round_count = round_word as usize;
    if round_count != variables {
        return Err(
            IpaProofCodecError::InvalidProofShape(
                IpaProofShapeError::Transcript(
                    IpaTranscriptError::RoundCountMismatch { expected: variables, actual: round_count },
                ),
            ),
        );
    }
    let ghost header = proof_magic() + u64_le_bytes(255) + u64_le_bytes(variables as u64) + scalar_bytes(
        claimed_value@,
    ) + u64_le_bytes(round_count as u64);
    proof {
        assert(input@.subrange(0, cursor as int) =~= header);
        assert(input@.subrange(0, proof_magic().len() as int) =~= found@);
    }
    let start = cursor;
    assert(decode_proof_bytes(input@) == decode_body(input@, variables, claimed_value@, round_count as nat));
    let mut rounds: Vec<IpaTranscriptRound> = Vec::new();
    let mut cursor = cursor;
    let mut index: usize = 0;
    assert(rounds_parts(rounds@) =~= seq![]);
    while index < round_count
        invariant
            start == 69,
            decode_proof_bytes(input@) == decode_body(input@, variables, claimed_value@, round_count as nat),
            index <= round_count,
            rounds@.len() == index,
            start <= cursor <= input@.len(),
            input@.len() >= proof_magic().len(),
            input@.subrange(0, proof_magic().len() as int) == proof_magic(),
            input@.subrange(0, start as int) == header,
            input@.subrange(0, cursor as int) == header + rounds_encoding(rounds@),
            read_rounds_at(input@, start as nat, index as nat) == Ok::<
                (Seq<(usize, Seq<u8>, Seq<u8>)>, nat),
                IpaProofCodecError,
            >((rounds_parts(rounds@), cursor as nat)),
            forall|k: int|
                0 <= k < rounds@.len() ==> (#[trigger] rounds@[k]).left_commitment_bytes@.len() > 0
                    && rounds@[k].right_commitment_bytes@.len() > 0,
        decreases round_count - index,
    {
        let (round, next) = match read_round(input, cursor) {
            Err(error) => {
                proof {
                    lemma_read_rounds_stays_failed(input@, start as nat, (index + 1) as nat, round_count as nat);
                }
                return Err(error);
            },
            Ok(read) => read,
        };
        let ghost previous = rounds@;
        rounds.push(round);
        proof {
            assert(rounds@.drop_last() =~= previous);
            assert(rounds_parts(rounds@) =~= rounds_parts(previous).push(round_parts(round)));
            assert(input@.subrange(0, next as int) =~= input@.subrange(0, cursor as int) + input@.subrange(
                cursor as int,
                next as int,
            ));
            assert(input@.subrange(0, next as int) =~= header + rounds_encoding(rounds@));
        }
        cursor = next;
        index = index + 1;
    }
    let (final_polynomial_scalar, cursor2) = match read_field(input, cursor) {
        Err(error) => {
            return Err(error);
        },
        Ok(read) => read,
    };
    let (final_evaluation_basis_scalar, cursor3) = match read_field(input, cursor2) {
        Err(error) => {
            return Err(error);
        },
        Ok(read) => read,
    };
    let (final_commitment_bytes, cursor4) = match read_frame(input, cursor3) {
        Err(error) => {
            return Err(error);
        },
        Ok(read) => read,
    };
    if cursor4 != input.len() {
        return Err(IpaProofCodecError::TrailingBytes);
    }
    proof {
        lemma_rounds_check_ok(rounds@, rounds@.len());
    }
    let ghost round_views = rounds_parts(rounds@);
    let proof = match IpaOpeningProof::new(
        variables,
        claimed_value,
        rounds,
        final_polynomial_scalar,
        final_evaluation_basis_scalar,
        final_commitment_bytes,
    ) {
        Err(error) => {
            return Err(IpaProofCodecError::InvalidProofShape(error));
        },
        Ok(proof) => proof,
    };
    proof {
        assert(input@ =~= input@.subrange(0, cursor as int) + input@.subrange(cursor as int, cursor2 as int)
            + input@.subrange(cursor2 as int, cursor3 as int) + input@.subrange(cursor3 as int, cursor4 as int));
        assert(input@ =~= proof_encoding(proof));
        assert(proof_view(proof).rounds == round_views);
    }
    Ok(proof)
}

} // verus!
