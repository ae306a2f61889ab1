//! The binary format of a public integrated opening: magic, field size and
//! the framed proof. The blinding scalar is never part of it.
use vstd::prelude::*;
use vstd::string::StringSliceAdditionalSpecFns;
use crate::bytes::bytes_equal;
use crate::codec::{
    framed, framed_read, lemma_framed_read, lemma_word_value, read_check, read_exact, read_framed, read_u64, word_at,
    write_framed, ReadError,
};
use crate::field::{modulus_bit_size, push_u64_le, u64_le_bytes, Scalar};
use crate::ipa_backend_integration::IpaIntegratedOpening;
use crate::ipa_serialization::{
    decode_ipa_opening_proof, decode_proof_bytes, encodable_check, encode_ipa_opening_proof, lemma_proof_codec_roundtrip,
    max_encoded_variables, proof_encoding, proof_view, IpaProofCodecError, ProofView,
};

verus! {

#[derive(Clone, Copy, Debug, PartialEq, Eq)]
pub enum IpaBackendOpeningCodecError {
    InvalidMagic,
    InvalidField,
    Truncated,
    TrailingBytes,
    LengthOverflow,
    ClaimedValueMismatch { opening_claimed: Scalar, proof_claimed: Scalar },
    ProofCodec(IpaProofCodecError),
}

/// The format's leading magic bytes.
pub open spec fn opening_magic() -> Seq<u8> {
    "SL-IPA-BACKEND-OPEN1".spec_bytes()
}

/// The canonical encoding of a public opening.
pub open spec fn opening_encoding(opening: IpaIntegratedOpening) -> Seq<u8> {
    opening_magic() + u64_le_bytes(255) + framed(proof_encoding(opening.proof))
}

pub open spec fn opening_read_error(error: ReadError) -> IpaBackendOpeningCodecError {
    match error {
        ReadError::Truncated => IpaBackendOpeningCodecError::Truncated,
        ReadError::LengthOverflow => IpaBackendOpeningCodecError::LengthOverflow,
    }
}

/// What decoding `input` as a public opening gives: the decoded proof, whose
/// claimed value is the opening's, or the first error met reading it.
pub open spec fn decode_opening_bytes(input: Seq<u8>) -> Result<ProofView, IpaBackendOpeningCodecError> {
    if let Err(error) = read_check(input.len(), 0, 20) {
        Err(opening_read_error(error))
    } else if input.subrange(0, 20) != opening_magic() {
        Err(IpaBackendOpeningCodecError::InvalidMagic)
    } else if let Err(error) = read_check(input.len(), 20, 8) {
        Err(opening_read_error(error))
    } else if word_at(input, 20) != 255 {
        Err(IpaBackendOpeningCodecError::InvalidField)
    } else {
        match framed_read(input, 28) {
            Err(error) => Err(opening_read_error(error)),
            Ok((proof_bytes, end)) => if end != input.len() {
                Err(IpaBackendOpeningCodecError::TrailingBytes)
            } else {
                match decode_proof_bytes(proof_bytes) {
                    Err(error) => Err(IpaBackendOpeningCodecError::ProofCodec(error)),
                    Ok(view) => Ok(view),
                }
            },
        }
    }
}

/// Decoding the encoding of an opening whose claimed value is its proof's,
/// with an encodable proof over at most 64 variables, gives it back.
#[verifier::rlimit(30)]
pub proof fn lemma_opening_codec_roundtrip(opening: IpaIntegratedOpening)
    requires
        opening.claimed_value@ == opening.proof.claimed_value@,
        encodable_check(opening.proof) is Ok,
        opening.proof.variables <= max_encoded_variables(),
        opening_encoding(opening).len() <= usize::MAX,
    ensures
        decode_opening_bytes(opening_encoding(opening)) == Ok::<ProofView, IpaBackendOpeningCodecError>(
            proof_view(opening.proof),
        ),
{
    let input = opening_encoding(opening);
    let proof_bytes = proof_encoding(opening.proof);
    reveal_strlit("SL-IPA-BACKEND-OPEN1");
    vstd::string::is_ascii_spec_bytes("SL-IPA-BACKEND-OPEN1");
    assert(opening_magic().len() == 20);
    assert(input.subrange(0, 20) =~= opening_magic());
    assert(input.subrange(20, 28) =~= u64_le_bytes(255));
    lemma_word_value(255);
    assert(input.len() == 36 + proof_bytes.len());
    assert(input.subrange(28, input.len() as int) =~= framed(proof_bytes));
    lemma_framed_read(input, 28, proof_bytes);
    assert(framed_read(input, 28) == Ok::<(Seq<u8>, nat), ReadError>((proof_bytes, input.len())));
    lemma_proof_codec_roundtrip(opening.proof);
    assert(read_check(input.len(), 0, 20) is Ok);
    assert(read_check(input.len(), 20, 8) is Ok);
}

fn magic() -> (r: Vec<u8>)
    ensures
        r@ == opening_magic(),
{
    let text = "SL-IPA-BACKEND-OPEN1";
    crate::bytes::copy_bytes(text.as_bytes())
}

/// Encodes a public opening; its claimed value must be the proof's.
pub fn encode_ipa_integrated_opening(opening: &IpaIntegratedOpening) -> (r: Result<Vec<u8>, IpaBackendOpeningCodecError>)
    ensures
        opening.claimed_value@ != opening.proof.claimed_value@ ==> r == Err::<Vec<u8>, IpaBackendOpeningCodecError>(
            IpaBackendOpeningCodecError::ClaimedValueMismatch {
                opening_claimed: opening.claimed_value,
                proof_claimed: opening.proof.claimed_value,
            },
        ),
        opening.claimed_value@ == opening.proof.claimed_value@ ==> match encodable_check(opening.proof) {
            Err(error) => r == Err::<Vec<u8>, IpaBackendOpeningCodecError>(IpaBackendOpeningCodecError::ProofCodec(error)),
            Ok(()) => r matches Ok(bytes) && bytes@ == opening_encoding(*opening),
        },
{
    if !opening.claimed_value.equals(&opening.proof.claimed_value) {
        return Err(
            IpaBackendOpeningCodecError::ClaimedValueMismatch {
                opening_claimed: opening.claimed_value,
                proof_claimed: opening.proof.claimed_value,
            },
        );
    }
    let proof_bytes = match encode_ipa_opening_proof(&opening.proof) {
        Err(error) => {
            return Err(IpaBackendOpeningCodecError::ProofCodec(error));
        },
        Ok(bytes) => bytes,
    };
    let mut out = magic();
    push_u64_le(&mut out, modulus_bit_size());
    write_framed(&mut out, proof_bytes.as_slice());
    assert(out@ =~= opening_encoding(*opening));
    Ok(out)
}

fn read_error(error: ReadError) -> (r: IpaBackendOpeningCodecError)
    ensures
        error == ReadError::Truncated ==> r == IpaBackendOpeningCodecError::Truncated,
        error == ReadError::LengthOverflow ==> r == IpaBackendOpeningCodecError::LengthOverflow,
{
    match error {
        ReadError::Truncated => IpaBackendOpeningCodecError::Truncated,
        ReadError::LengthOverflow => IpaBackendOpeningCodecError::LengthOverflow,
    }
}

/// Decodes a public opening; the claimed value is the proof's. Only
/// canonical encodings are accepted.
pub fn decode_ipa_integrated_opening(input: &[u8]) -> (r: Result<IpaIntegratedOpening, IpaBackendOpeningCodecError>)
    ensures
        match decode_opening_bytes(input@) {
            Err(error) => r == Err::<IpaIntegratedOpening, IpaBackendOpeningCodecError>(error),
            Ok(view) => r matches Ok(opening) && proof_view(opening.proof) == view && opening.claimed_value@
                == view.claimed_value,
        },
        r matches Ok(opening) ==> input@ == opening_encoding(opening) && opening.claimed_value
            == opening.proof.claimed_value && encodable_check(opening.proof) is Ok && opening.proof.variables
            <= max_encoded_variables(),
        input@.len() < opening_magic().len() ==> r == Err::<IpaIntegratedOpening, IpaBackendOpeningCodecError>(
            IpaBackendOpeningCodecError::Truncated,
        ),
        input@.len() >= opening_magic().len() && input@.subrange(0, opening_magic().len() as int) != opening_magic()
            ==> r == Err::<IpaIntegratedOpening, IpaBackendOpeningCodecError>(
            IpaBackendOpeningCodecError::InvalidMagic,
        ),
{
    proof {
        reveal_strlit("SL-IPA-BACKEND-OPEN1");
        vstd::string::is_ascii_spec_bytes("SL-IPA-BACKEND-OPEN1");
        assert(opening_magic().len() == 20);
    }
    let expected_magic = magic();
    let (found, cursor) = match read_exact(input, 0, expected_magic.len()) {
        Err(error) => {
            return Err(read_error(error));
        },
        Ok(read) => read,
    };
    if !bytes_equal(found.as_slice(), expected_magic.as_slice()) {
        return Err(IpaBackendOpeningCodecError::InvalidMagic);
    }
    let (bits, cursor) = match read_u64(input, cursor) {
        Err(error) => {
            return Err(read_error(error));
        },
        Ok(read) => read,
    };
    proof {
        lemma_word_value(bits);
    }
    if bits != modulus_bit_size() {
        return Err(IpaBackendOpeningCodecError::InvalidField);
    }
    let (proof_bytes, end) = match read_framed(input, cursor) {
        Err(error) => {
            return Err(read_error(error));
        },
        Ok(read) => read,
    };
    if end != input.len() {
        return Err(IpaBackendOpeningCodecError::TrailingBytes);
    }
    let proof = match decode_ipa_opening_proof(proof_bytes.as_slice()) {
        Err(error) => {
            return Err(IpaBackendOpeningCodecError::ProofCodec(error));
        },
        Ok(proof) => proof,
    };
    let claimed_value = proof.claimed_value;
    let opening = IpaIntegratedOpening { claimed_value, proof };
    proof {
        assert(input@ =~= input@.subrange(0, cursor - 8) + input@.subrange(cursor - 8, cursor as int)
            + input@.subrange(cursor as int, end as int));
        assert(input@ =~= opening_encoding(opening));
    }
    Ok(opening)
}

} // verus!
