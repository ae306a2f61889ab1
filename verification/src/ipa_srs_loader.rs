//! The canonical IPA SRS file format.
//!
//! Layout: the magic `SL-IPA-SRS-FILE1`; the provenance (variable count, curve
//! identifier, source, canonical digest); the polynomial and evaluation
//! generators, each list preceded by its length; the blinding generator.
//! Words are little-endian `u64`, strings and points are length-prefixed,
//! digests are 32 raw bytes. Decoding validates the provenance.
use vstd::prelude::*;
use vstd::utf8::{decode_utf8, encode_utf8, valid_utf8};
use crate::bytes::bytes_equal;
use crate::codec::{append_bytes, framed, read_check, read_exact, read_u64, write_framed, ReadError};
use crate::curve::{g1_decode, g1_identity_bytes};
use crate::field::{push_u64_le, u64_le_bytes};
use crate::ipa_curve::{
    curve_basis_check, points_view, IpaCurveGeneratorBasis, IpaCurvePoint, IpaCurvePointError,
};
use crate::ipa_srs_provenance::{
    parts_digest, precheck_parts, source_view, validate_ipa_srs_provenance, IpaSrsProvenance,
    IpaSrsProvenanceError, IpaSrsSource, IpaVerifiedSrs, SourceView,
};
use crate::codec::{lemma_word_value, word_at};

verus! {

#[verifier::external_type_specification]
#[verifier::external_body]
pub struct ExIoErrorKind(std::io::ErrorKind);

#[derive(Debug, PartialEq, Eq)]
pub enum IpaSrsFileError {
    InvalidMagic,
    UnknownSourceTag(u8),
    NonProductionSource,
    InvalidUtf8,
    Truncated,
    TrailingBytes,
    LengthOverflow,
    EmptyPointEncoding,
    Io { kind: std::io::ErrorKind, message: String },
    Curve(IpaCurvePointError),
    Provenance(IpaSrsProvenanceError),
}

/// `String::from_utf8`: the string the bytes encode, when they are valid
/// UTF-8.
#[verifier::external_body]
fn string_from_utf8(bytes: Vec<u8>) -> (r: Option<String>)
    ensures
        r is Some <==> valid_utf8(bytes@),
        r matches Some(text) ==> text@ == decode_utf8(bytes@),
{
    String::from_utf8(bytes).ok()
}

/// The bytes of `SL-IPA-SRS-FILE1`.
pub open spec fn srs_file_magic() -> Seq<u8> {
    seq![83u8, 76, 45, 73, 80, 65, 45, 83, 82, 83, 45, 70, 73, 76, 69, 49]
}

/// The parts of an SRS file, as plain values.
pub struct SrsFileParts {
    pub max_variables: usize,
    pub curve_id: Seq<char>,
    pub source: SourceView,
    pub digest: Seq<u8>,
    pub polynomial: Seq<Seq<u8>>,
    pub evaluation: Seq<Seq<u8>>,
    pub blinding: Seq<u8>,
}

pub open spec fn file_read_error(error: ReadError) -> IpaSrsFileError {
    match error {
        ReadError::Truncated => IpaSrsFileError::Truncated,
        ReadError::LengthOverflow => IpaSrsFileError::LengthOverflow,
    }
}

/// Each point framed.
pub open spec fn framed_points(points: Seq<Seq<u8>>) -> Seq<u8>
    decreases points.len(),
{
    if points.len() == 0 {
        seq![]
    } else {
        framed_points(points.drop_last()) + framed(points.last())
    }
}

/// The encoding of a source: its tag and fields.
pub open spec fn source_encoding(source: SourceView) -> Seq<u8> {
    match source {
        SourceView::External { name, uri, artifact } => seq![1u8] + framed(encode_utf8(name)) + framed(
            encode_utf8(uri),
        ) + artifact,
        SourceView::HashToCurve { domain, transcript } => seq![2u8] + framed(domain) + transcript,
        SourceView::TestFixture => seq![],
    }
}

/// The encoding of an SRS file.
pub open spec fn srs_file_encoding(parts: SrsFileParts) -> Seq<u8> {
    srs_file_magic() + u64_le_bytes(parts.max_variables as u64) + framed(encode_utf8(parts.curve_id))
        + source_encoding(parts.source) + parts.digest + u64_le_bytes(parts.polynomial.len() as u64)
        + framed_points(parts.polynomial) + u64_le_bytes(parts.evaluation.len() as u64) + framed_points(
        parts.evaluation,
    ) + framed(parts.blinding)
}

/// Reading a length-prefixed byte string at `cursor`: the bytes and the
/// cursor after them.
pub open spec fn read_bytes_at(input: Seq<u8>, cursor: nat) -> Result<(Seq<u8>, nat), IpaSrsFileError> {
    if let Err(error) = read_check(input.len(), cursor, 8) {
        Err(file_read_error(error))
    } else if word_at(input, cursor as int) > usize::MAX {
        Err(IpaSrsFileError::LengthOverflow)
    } else {
        let start = cursor + 8;
        let length = word_at(input, cursor as int);
        if let Err(error) = read_check(input.len(), start, length) {
            Err(file_read_error(error))
        } else {
            Ok((input.subrange(start as int, (start + length) as int), start + length))
        }
    }
}

/// Reading a length-prefixed UTF-8 string at `cursor`.
pub open spec fn read_string_at(input: Seq<u8>, cursor: nat) -> Result<(Seq<char>, nat), IpaSrsFileError> {
    match read_bytes_at(input, cursor) {
        Err(error) => Err(error),
        Ok((bytes, next)) => if valid_utf8(bytes) {
            Ok((decode_utf8(bytes), next))
        } else {
            Err(IpaSrsFileError::InvalidUtf8)
        },
    }
}

/// Reading a 32-byte digest at `cursor`.
pub open spec fn read_digest_at(input: Seq<u8>, cursor: nat) -> Result<(Seq<u8>, nat), IpaSrsFileError> {
    if let Err(error) = read_check(input.len(), cursor, 32) {
        Err(file_read_error(error))
    } else {
        Ok((input.subrange(cursor as int, (cursor + 32) as int), cursor + 32))
    }
}

/// Reading a length-prefixed generator point at `cursor`: a nonempty
/// encoding of a group element other than the identity.
pub open spec fn read_point_at(input: Seq<u8>, cursor: nat) -> Result<(Seq<u8>, nat), IpaSrsFileError> {
    match read_bytes_at(input, cursor) {
        Err(error) => Err(error),
        Ok((bytes, next)) => if bytes.len() == 0 {
            Err(IpaSrsFileError::EmptyPointEncoding)
        } else {
            match g1_decode(bytes) {
                None => Err(IpaSrsFileError::Curve(IpaCurvePointError::DeserializationFailed)),
                Some(encoding) => if encoding == g1_identity_bytes() {
                    Err(IpaSrsFileError::Curve(IpaCurvePointError::IdentityPoint))
                } else {
                    Ok((encoding, next))
                },
            }
        },
    }
}

/// Reading `count` generator points from `cursor`.
pub open spec fn read_points_at(input: Seq<u8>, cursor: nat, count: nat) -> Result<
    (Seq<Seq<u8>>, nat),
    IpaSrsFileError,
>
    decreases count,
{
    if count == 0 {
        Ok((seq![], cursor))
    } else {
        match read_points_at(input, cursor, (count - 1) as nat) {
            Err(error) => Err(error),
            Ok((points, at)) => match read_point_at(input, at) {
                Err(error) => Err(error),
                Ok((point, next)) => Ok((points.push(point), next)),
            },
        }
    }
}

/// Reading a tagged source at `cursor`.
pub open spec fn read_source_at(input: Seq<u8>, cursor: nat) -> Result<(SourceView, nat), IpaSrsFileError> {
    if let Err(error) = read_check(input.len(), cursor, 1) {
        Err(file_read_error(error))
    } else {
        let tag = input[cursor as int];
        if tag == 1 {
            match read_string_at(input, cursor + 1) {
                Err(error) => Err(error),
                Ok((name, after_name)) => match read_string_at(input, after_name) {
                    Err(error) => Err(error),
                    Ok((uri, after_uri)) => match read_digest_at(input, after_uri) {
                        Err(error) => Err(error),
                        Ok((artifact, next)) => Ok((SourceView::External { name, uri, artifact }, next)),
                    },
                },
            }
        } else if tag == 2 {
            match read_bytes_at(input, cursor + 1) {
                Err(error) => Err(error),
                Ok((domain, after_domain)) => match read_digest_at(input, after_domain) {
                    Err(error) => Err(error),
                    Ok((transcript, next)) => Ok((SourceView::HashToCurve { domain, transcript }, next)),
                },
            }
        } else {
            Err(IpaSrsFileError::UnknownSourceTag(tag))
        }
    }
}

/// Reading a length-prefixed list of generator points at `cursor`.
pub open spec fn read_point_list_at(input: Seq<u8>, cursor: nat) -> Result<(Seq<Seq<u8>>, nat), IpaSrsFileError> {
    if let Err(error) = read_check(input.len(), cursor, 8) {
        Err(file_read_error(error))
    } else if word_at(input, cursor as int) > usize::MAX {
        Err(IpaSrsFileError::LengthOverflow)
    } else {
        read_points_at(input, cursor + 8, word_at(input, cursor as int))
    }
}

/// Reading the provenance part of a file.
pub open spec fn read_provenance_at(input: Seq<u8>) -> Result<(usize, Seq<char>, SourceView, Seq<u8>, nat), IpaSrsFileError> {
    if let Err(error) = read_check(input.len(), 0, 16) {
        Err(file_read_error(error))
    } else if input.take(16) != srs_file_magic() {
        Err(IpaSrsFileError::InvalidMagic)
    } else if let Err(error) = read_check(input.len(), 16, 8) {
        Err(file_read_error(error))
    } else if word_at(input, 16) > usize::MAX {
        Err(IpaSrsFileError::LengthOverflow)
    } else {
        match read_string_at(input, 24) {
            Err(error) => Err(error),
            Ok((curve_id, after_curve)) => match read_source_at(input, after_curve) {
                Err(error) => Err(error),
                Ok((source, after_source)) => match read_digest_at(input, after_source) {
                    Err(error) => Err(error),
                    Ok((digest, next)) => Ok((word_at(input, 16) as usize, curve_id, source, digest, next)),
                },
            },
        }
    }
}

/// What reading a file gives, or the first error met reading it front to
/// back.
pub open spec fn decode_srs_parts(input: Seq<u8>) -> Result<SrsFileParts, IpaSrsFileError> {
    match read_provenance_at(input) {
        Err(error) => Err(error),
        Ok((max_variables, curve_id, source, digest, cursor)) => match read_point_list_at(input, cursor) {
            Err(error) => Err(error),
            Ok((polynomial, after_polynomial)) => match read_point_list_at(input, after_polynomial) {
                Err(error) => Err(error),
                Ok((evaluation, after_evaluation)) => match read_point_at(input, after_evaluation) {
                    Err(error) => Err(error),
                    Ok((blinding, end)) => if end != input.len() {
                        Err(IpaSrsFileError::TrailingBytes)
                    } else {
                        Ok(
                            SrsFileParts {
                                max_variables,
                                curve_id,
                                source,
                                digest,
                                polynomial,
                                evaluation,
                                blinding,
                            },
                        )
                    },
                },
            },
        },
    }
}

/// The parts of a provenance and basis.
pub open spec fn srs_parts(provenance: IpaSrsProvenance, basis: IpaCurveGeneratorBasis) -> SrsFileParts {
    SrsFileParts {
        max_variables: provenance.max_variables,
        curve_id: provenance.curve_id@,
        source: source_view(provenance.source),
        digest: provenance.canonical_basis_sha256@,
        polynomial: basis.polynomial_view(),
        evaluation: basis.evaluation_view(),
        blinding: basis.blinding_generator@,
    }
}

/// What decoding and validating `parts` gives, with `r` the result.
pub open spec fn decode_outcome(parts: SrsFileParts, r: Result<IpaVerifiedSrs, IpaSrsFileError>) -> bool {
    match curve_basis_check(parts.max_variables, parts.polynomial, parts.evaluation, parts.blinding) {
        Err(error) => r == Err::<IpaVerifiedSrs, IpaSrsFileError>(IpaSrsFileError::Curve(error)),
        Ok(()) => match precheck_parts(
            parts.max_variables,
            parts.polynomial,
            parts.evaluation,
            parts.blinding,
            parts.curve_id,
            parts.source,
            parts.max_variables,
        ) {
            Err(error) => r == Err::<IpaVerifiedSrs, IpaSrsFileError>(IpaSrsFileError::Provenance(error)),
            Ok(()) => {
                let digest = parts_digest(parts.max_variables, parts.polynomial, parts.evaluation, parts.blinding);
                if digest == parts.digest {
                    r matches Ok(srs) && srs_parts(srs.provenance_value(), srs.basis_value()) == parts
                } else {
                    r matches Err(
                        IpaSrsFileError::Provenance(IpaSrsProvenanceError::DigestMismatch { expected, actual }),
                    ) && expected@ == parts.digest && actual@ == digest
                }
            },
        },
    }
}

fn map_read_error(error: ReadError) -> (r: IpaSrsFileError)
    ensures
        r == file_read_error(error),
{
    match error {
        ReadError::Truncated => IpaSrsFileError::Truncated,
        ReadError::LengthOverflow => IpaSrsFileError::LengthOverflow,
    }
}

fn srs_file_magic_bytes() -> (r: Vec<u8>)
    ensures
        r@ == srs_file_magic(),
{
    let magic = vec![83u8, 76, 45, 73, 80, 65, 45, 83, 82, 83, 45, 70, 73, 76, 69, 49];
    assert(magic@ =~= srs_file_magic());
    magic
}

fn read_word(input: &[u8], cursor: usize) -> (r: Result<(u64, usize), IpaSrsFileError>)
    ensures
        match read_check(input@.len(), cursor as nat, 8) {
            Err(error) => r == Err::<(u64, usize), IpaSrsFileError>(file_read_error(error)),
            Ok(()) => r matches Ok((value, next)) && next == cursor + 8 && value == word_at(input@, cursor as int),
        },
{
    match read_u64(input, cursor) {
        Err(error) => Err(map_read_error(error)),
        Ok((value, next)) => {
            proof {
                lemma_word_value(value);
            }
            Ok((value, next))
        },
    }
}

fn read_bytes(input: &[u8], cursor: usize) -> (r: Result<(Vec<u8>, usize), IpaSrsFileError>)
    ensures
        match read_bytes_at(input@, cursor as nat) {
            Err(error) => r == Err::<(Vec<u8>, usize), IpaSrsFileError>(error),
            Ok((bytes, next)) => r matches Ok((value, after)) && value@ == bytes && after == next,
        },
{
    let (length, start) = match read_word(input, cursor) {
        Err(error) => {
            return Err(error);
        },
        Ok(read) => read,
    };
    if length > usize::MAX as u64 {
        return Err(IpaSrsFileError::LengthOverflow);
    }
    match read_exact(input, start, length as usize) {
        Err(error) => Err(map_read_error(error)),
        Ok(read) => Ok(read),
    }
}

fn read_string(input: &[u8], cursor: usize) -> (r: Result<(String, usize), IpaSrsFileError>)
    ensures
        match read_string_at(input@, cursor as nat) {
            Err(error) => r == Err::<(String, usize), IpaSrsFileError>(error),
            Ok((text, next)) => r matches Ok((value, after)) && value@ == text && after == next,
        },
{
    let (bytes, next) = match read_bytes(input, cursor) {
        Err(error) => {
            return Err(error);
        },
        Ok(read) => read,
    };
    match string_from_utf8(bytes) {
        None => Err(IpaSrsFileError::InvalidUtf8),
        Some(text) => Ok((text, next)),
    }
}

fn read_digest(input: &[u8], cursor: usize) -> (r: Result<([u8; 32], usize), IpaSrsFileError>)
    ensures
        match read_digest_at(input@, cursor as nat) {
            Err(error) => r == Err::<([u8; 32], usize), IpaSrsFileError>(error),
            Ok((digest, next)) => r matches Ok((value, after)) && value@ == digest && after == next,
        },
{
    let (bytes, next) = match read_exact(input, cursor, 32) {
        Err(error) => {
            return Err(map_read_error(error));
        },
        Ok(read) => read,
    };
    let mut digest = [0u8; 32];
    let mut i: usize = 0;
    while i < 32
        invariant
            i <= 32,
            bytes@.len() == 32,
            forall|k: int| 0 <= k < i ==> digest@[k] == bytes@[k],
        decreases 32 - i,
    {
        digest[i] = bytes[i];
        i = i + 1;
    }
    assert(digest@ =~= bytes@);
    Ok((digest, next))
}

fn read_point(input: &[u8], cursor: usize) -> (r: Result<(IpaCurvePoint, usize), IpaSrsFileError>)
    ensures
        match read_point_at(input@, cursor as nat) {
            Err(error) => r == Err::<(IpaCurvePoint, usize), IpaSrsFileError>(error),
            Ok((point, next)) => r matches Ok((value, after)) && value@ == point && after == next,
        },
{
    let (bytes, next) = match read_bytes(input, cursor) {
        Err(error) => {
            return Err(error);
        },
        Ok(read) => read,
    };
    if bytes.len() == 0 {
        return Err(IpaSrsFileError::EmptyPointEncoding);
    }
    match IpaCurvePoint::from_compressed_bytes(bytes.as_slice()) {
        Err(error) => Err(IpaSrsFileError::Curve(error)),
        Ok(point) => Ok((point, next)),
    }
}

/// Once a point read fails, reading more points fails the same way.
pub proof fn lemma_read_points_stays_failed(input: Seq<u8>, cursor: nat, failed: nat, count: nat)
    requires
        failed <= count,
        read_points_at(input, cursor, failed) is Err,
    ensures
        read_points_at(input, cursor, count) == read_points_at(input, cursor, failed),
    decreases count,
{
    if failed < count {
        lemma_read_points_stays_failed(input, cursor, failed, (count - 1) as nat);
    }
}

fn read_point_list(input: &[u8], cursor: usize) -> (r: Result<(Vec<IpaCurvePoint>, usize), IpaSrsFileError>)
    ensures
        match read_point_list_at(input@, cursor as nat) {
            Err(error) => r == Err::<(Vec<IpaCurvePoint>, usize), IpaSrsFileError>(error),
            Ok((points, next)) => r matches Ok((value, after)) && points_view(value@) == points && after == next,
        },
{
    let (count_word, start) = match read_word(input, cursor) {
        Err(error) => {
            return Err(error);
        },
        Ok(read) => read,
    };
    if count_word > usize::MAX as u64 {
        return Err(IpaSrsFileError::LengthOverflow);
    }
    let count = count_word as usize;
    let mut points: Vec<IpaCurvePoint> = Vec::new();
    let mut at = start;
    let mut i: usize = 0;
    assert(points_view(points@) =~= seq![]);
    assert(read_point_list_at(input@, cursor as nat) == read_points_at(input@, start as nat, count as nat));
    while i < count
        invariant
            i <= count,
            read_point_list_at(input@, cursor as nat) == read_points_at(input@, start as nat, count as nat),
            read_points_at(input@, start as nat, i as nat) == Ok::<(Seq<Seq<u8>>, nat), IpaSrsFileError>(
                (points_view(points@), at as nat),
            ),
        decreases count - i,
    {
        let (point, next) = match read_point(input, at) {
            Err(error) => {
                proof {
                    lemma_read_points_stays_failed(input@, start as nat, (i + 1) as nat, count as nat);
                }
                return Err(error);
            },
            Ok(read) => read,
        };
        let ghost before = points_view(points@);
        points.push(point);
        assert(points_view(points@) =~= before.push(point@));
        at = next;
        i = i + 1;
    }
    Ok((points, at))
}

fn read_source(input: &[u8], cursor: usize) -> (r: Result<(IpaSrsSource, usize), IpaSrsFileError>)
    ensures
        match read_source_at(input@, cursor as nat) {
            Err(error) => r == Err::<(IpaSrsSource, usize), IpaSrsFileError>(error),
            Ok((source, next)) => r matches Ok((value, after)) && source_view(value) == source && after == next,
        },
{
    let (tag_bytes, after_tag) = match read_exact(input, cursor, 1) {
        Err(error) => {
            return Err(map_read_error(error));
        },
        Ok(read) => read,
    };
    let tag = tag_bytes[0];
    assert(tag == input@[cursor as int]);
    if tag == 1 {
        let (name, after_name) = match read_string(input, after_tag) {
            Err(error) => {
                return Err(error);
            },
            Ok(read) => read,
        };
        let (uri, after_uri) = match read_string(input, after_name) {
            Err(error) => {
                return Err(error);
            },
            Ok(read) => read,
        };
        let (artifact_sha256, next) = match read_digest(input, after_uri) {
            Err(error) => {
                return Err(error);
            },
            Ok(read) => read,
        };
        Ok((IpaSrsSource::ExternalTrustedSetup { name, uri, artifact_sha256 }, next))
    } else if tag == 2 {
        let (domain_separator, after_domain) = match read_bytes(input, after_tag) {
            Err(error) => {
                return Err(error);
            },
            Ok(read) => read,
        };
        let (transcript_sha256, next) = match read_digest(input, after_domain) {
            Err(error) => {
                return Err(error);
            },
            Ok(read) => read,
        };
        Ok((IpaSrsSource::HashToCurveDerivation { domain_separator, transcript_sha256 }, next))
    } else {
        Err(IpaSrsFileError::UnknownSourceTag(tag))
    }
}

/// Decodes a canonical IPA SRS file and validates its provenance; the result
/// is already validated.
#[verifier::rlimit(40)]
pub fn decode_ipa_srs_file(input: &[u8]) -> (r: Result<IpaVerifiedSrs, IpaSrsFileError>)
    ensures
        match decode_srs_parts(input@) {
            Err(error) => r == Err::<IpaVerifiedSrs, IpaSrsFileError>(error),
            Ok(parts) => decode_outcome(parts, r),
        },
{
    let (magic, cursor) = match read_exact(input, 0, 16) {
        Err(error) => {
            return Err(map_read_error(error));
        },
        Ok(read) => read,
    };
    let expected = srs_file_magic_bytes();
    assert(input@.subrange(0, 16) =~= input@.take(16));
    if !bytes_equal(magic.as_slice(), expected.as_slice()) {
        return Err(IpaSrsFileError::InvalidMagic);
    }
    let (variables_word, cursor) = match read_word(input, cursor) {
        Err(error) => {
            return Err(error);
        },
        Ok(read) => read,
    };
    if variables_word > usize::MAX as u64 {
        return Err(IpaSrsFileError::LengthOverflow);
    }
    let max_variables = variables_word as usize;
    let (curve_id, cursor) = match read_string(input, cursor) {
        Err(error) => {
            return Err(error);
        },
        Ok(read) => read,
    };
    let (source, cursor) = match read_source(input, cursor) {
        Err(error) => {
            return Err(error);
        },
        Ok(read) => read,
    };
    let (canonical_basis_sha256, cursor) = match read_digest(input, cursor) {
        Err(error) => {
            return Err(error);
        },
        Ok(read) => read,
    };
    let (polynomial_generators, cursor) = match read_point_list(input, cursor) {
        Err(error) => {
            return Err(error);
        },
        Ok(read) => read,
    };
    let (evaluation_generators, cursor) = match read_point_list(input, cursor) {
        Err(error) => {
            return Err(error);
        },
        Ok(read) => read,
    };
    let (blinding_generator, cursor) = match read_point(input, cursor) {
        Err(error) => {
            return Err(error);
        },
        Ok(read) => read,
    };
    if cursor != input.len() {
        return Err(IpaSrsFileError::TrailingBytes);
    }
    let basis = match IpaCurveGeneratorBasis::new(
        max_variables,
        polynomial_generators,
        evaluation_generators,
        blinding_generator,
    ) {
        Err(error) => {
            return Err(IpaSrsFileError::Curve(error));
        },
        Ok(basis) => basis,
    };
    let provenance = IpaSrsProvenance { curve_id, max_variables, source, canonical_basis_sha256 };
    match validate_ipa_srs_provenance(basis, provenance) {
        Err(error) => Err(IpaSrsFileError::Provenance(error)),
        Ok(srs) => Ok(srs),
    }
}

fn write_text(out: &mut Vec<u8>, text: &str)
    ensures
        final(out)@ == old(out)@ + framed(encode_utf8(text@)),
{
    write_framed(out, text.as_bytes());
}

fn write_points(out: &mut Vec<u8>, points: &[IpaCurvePoint])
    ensures
        final(out)@ == old(out)@ + framed_points(points_view(points@)),
        forall|i: int| 0 <= i < points@.len() ==> valid_point(#[trigger] points_view(points@)[i]),
{
    let ghost view = points_view(points@);
    let mut i: usize = 0;
    while i < points.len()
        invariant
            i <= points@.len(),
            view == points_view(points@),
            out@ == old(out)@ + framed_points(view.take(i as int)),
            forall|k: int| 0 <= k < i ==> valid_point(#[trigger] view[k]),
        decreases points@.len() - i,
    {
        let bytes = match points[i].to_compressed_bytes() {
            Ok(bytes) => bytes,
            Err(_) => {
                assert(false);
                Vec::new()
            },
        };
        write_framed(out, bytes.as_slice());
        proof {
            assert(view.take(i + 1).drop_last() =~= view.take(i as int));
            assert(view[i as int] == bytes@);
            assert(out@ =~= old(out)@ + framed_points(view.take(i + 1)));
        }
        i = i + 1;
    }
    assert(view.take(i as int) =~= view);
}

fn write_source(out: &mut Vec<u8>, source: &IpaSrsSource) -> (r: Result<(), IpaSrsFileError>)
    ensures
        source_view(*source) is TestFixture ==> r == Err::<(), IpaSrsFileError>(IpaSrsFileError::NonProductionSource),
        !(source_view(*source) is TestFixture) ==> r is Ok && final(out)@ == old(out)@ + source_encoding(
            source_view(*source),
        ),
{
    match source {
        IpaSrsSource::ExternalTrustedSetup { name, uri, artifact_sha256 } => {
            out.push(1u8);
            write_text(out, name.as_str());
            write_text(out, uri.as_str());
            append_bytes(out, artifact_sha256.as_slice());
            assert(final(out)@ =~= old(out)@ + source_encoding(source_view(*source)));
            Ok(())
        },
        IpaSrsSource::HashToCurveDerivation { domain_separator, transcript_sha256 } => {
            out.push(2u8);
            write_framed(out, domain_separator.as_slice());
            append_bytes(out, transcript_sha256.as_slice());
            assert(final(out)@ =~= old(out)@ + source_encoding(source_view(*source)));
            Ok(())
        },
        IpaSrsSource::KnownDiscreteLogTestFixture => Err(IpaSrsFileError::NonProductionSource),
    }
}

/// Encodes a production-validated IPA SRS. It takes only a validated SRS, so
/// unvalidated or test-fixture material cannot be written through it.
pub fn encode_ipa_srs_file(verified: &IpaVerifiedSrs) -> (r: Result<Vec<u8>, IpaSrsFileError>)
    ensures
        ({
            let parts = srs_parts(verified.provenance_value(), verified.basis_value());
            &&& r matches Ok(bytes) && bytes@ == srs_file_encoding(parts)
            &&& r matches Ok(bytes) ==> decode_srs_parts(bytes@) == Ok::<SrsFileParts, IpaSrsFileError>(parts)
            &&& precheck_parts(
                parts.max_variables,
                parts.polynomial,
                parts.evaluation,
                parts.blinding,
                parts.curve_id,
                parts.source,
                parts.max_variables,
            ) is Ok
            &&& parts_digest(parts.max_variables, parts.polynomial, parts.evaluation, parts.blinding)
                == parts.digest
        }),
{
    let provenance = verified.provenance();
    let basis = verified.basis();
    let mut out = srs_file_magic_bytes();
    push_u64_le(&mut out, provenance.max_variables as u64);
    write_text(&mut out, provenance.curve_id.as_str());
    match write_source(&mut out, &provenance.source) {
        Err(error) => {
            return Err(error);
        },
        Ok(()) => {},
    }
    append_bytes(&mut out, provenance.canonical_basis_sha256.as_slice());
    push_u64_le(&mut out, basis.polynomial_generators.len() as u64);
    write_points(&mut out, basis.polynomial_generators.as_slice());
    push_u64_le(&mut out, basis.evaluation_generators.len() as u64);
    write_points(&mut out, basis.evaluation_generators.as_slice());
    let blinding = match basis.blinding_generator.to_compressed_bytes() {
        Ok(bytes) => bytes,
        Err(_) => {
            assert(false);
            Vec::new()
        },
    };
    write_framed(&mut out, blinding.as_slice());
    let ghost parts = srs_parts(verified.provenance_value(), verified.basis_value());
    assert(out@ =~= srs_file_encoding(parts));
    let _length = out.len();
    proof {
        lemma_srs_file_roundtrip(parts);
    }
    Ok(out)
}

/// An encoding that decodes to itself and is not the identity.
pub open spec fn valid_point(bytes: Seq<u8>) -> bool {
    &&& g1_decode(bytes) == Some(bytes)
    &&& bytes.len() == 48
    &&& bytes != g1_identity_bytes()
}

/// Reading a framed byte string gives it back.
pub proof fn lemma_read_framed(input: Seq<u8>, cursor: nat, bytes: Seq<u8>)
    requires
        cursor + 8 + bytes.len() <= input.len(),
        input.len() <= usize::MAX,
        input.subrange(cursor as int, (cursor + 8 + bytes.len()) as int) == framed(bytes),
    ensures
        read_bytes_at(input, cursor) == Ok::<(Seq<u8>, nat), IpaSrsFileError>((bytes, cursor + 8 + bytes.len())),
{
    let whole = input.subrange(cursor as int, (cursor + 8 + bytes.len()) as int);
    assert(input.subrange(cursor as int, (cursor + 8) as int) =~= whole.subrange(0, 8));
    assert(whole.subrange(0, 8) =~= u64_le_bytes(bytes.len() as u64));
    lemma_word_value(bytes.len() as u64);
    assert(input.subrange((cursor + 8) as int, (cursor + 8 + bytes.len()) as int) =~= whole.subrange(
        8,
        (8 + bytes.len()) as int,
    ));
    assert(whole.subrange(8, (8 + bytes.len()) as int) =~= bytes);
}

/// The framed points of a prefix are a prefix of the framed points.
pub proof fn lemma_framed_points_len(points: Seq<Seq<u8>>)
    requires
        forall|i: int| 0 <= i < points.len() ==> (#[trigger] points[i]).len() == 48,
    ensures
        framed_points(points).len() == 56 * points.len(),
    decreases points.len(),
{
    if points.len() > 0 {
        lemma_framed_points_len(points.drop_last());
    }
}

/// Reading framed points gives them back.
pub proof fn lemma_read_framed_points(input: Seq<u8>, cursor: nat, points: Seq<Seq<u8>>, count: nat)
    requires
        count <= points.len(),
        forall|i: int| 0 <= i < points.len() ==> valid_point(#[trigger] points[i]),
        cursor + framed_points(points).len() <= input.len(),
        input.len() <= usize::MAX,
        input.subrange(cursor as int, (cursor + framed_points(points).len()) as int) == framed_points(points),
    ensures
        read_points_at(input, cursor, count) == Ok::<(Seq<Seq<u8>>, nat), IpaSrsFileError>(
            (points.take(count as int), cursor + 56 * count),
        ),
    decreases count,
{
    lemma_framed_points_len(points);
    if count == 0 {
        assert(points.take(0) =~= seq![]);
    } else {
        let k = (count - 1) as nat;
        lemma_read_framed_points(input, cursor, points, k);
        lemma_framed_points_at(points, k as int);
        let at = cursor + 56 * k;
        assert(input.subrange(at as int, (at + 56) as int) =~= framed_points(points).subrange(
            (56 * k) as int,
            (56 * k + 56) as int,
        ));
        lemma_read_framed(input, at, points[k as int]);
        assert(points.take(count as int) =~= points.take(k as int).push(points[k as int]));
    }
}

/// With 48-byte points, the `k`-th framed point sits at offset `56·k`.
pub proof fn lemma_framed_points_at(points: Seq<Seq<u8>>, k: int)
    requires
        forall|i: int| 0 <= i < points.len() ==> (#[trigger] points[i]).len() == 48,
    ensures
        framed_points(points).len() == 56 * points.len(),
        0 <= k < points.len() ==> framed_points(points).subrange(56 * k, 56 * k + 56) == framed(points[k]),
    decreases points.len(),
{
    if points.len() > 0 {
        let rest = points.drop_last();
        lemma_framed_points_at(rest, k);
        let whole = framed_points(points);
        if 0 <= k < points.len() {
            if k == points.len() - 1 {
                assert(whole.subrange(56 * k, 56 * k + 56) =~= framed(points.last()));
            } else {
                assert(whole.subrange(56 * k, 56 * k + 56) =~= framed_points(rest).subrange(56 * k, 56 * k + 56));
            }
        }
    }
}

/// Reading a framed UTF-8 encoding gives the text back.
pub proof fn lemma_read_text(input: Seq<u8>, cursor: nat, text: Seq<char>)
    requires
        cursor + 8 + encode_utf8(text).len() <= input.len(),
        input.len() <= usize::MAX,
        input.subrange(cursor as int, (cursor + 8 + encode_utf8(text).len()) as int) == framed(encode_utf8(text)),
    ensures
        read_string_at(input, cursor) == Ok::<(Seq<char>, nat), IpaSrsFileError>(
            (text, cursor + 8 + encode_utf8(text).len()),
        ),
{
    broadcast use vstd::utf8::encode_utf8_valid_utf8, vstd::utf8::encode_utf8_decode_utf8;

    lemma_read_framed(input, cursor, encode_utf8(text));
}

/// Reading an encoded source gives it back.
pub proof fn lemma_read_source(input: Seq<u8>, cursor: nat, source: SourceView)
    requires
        !(source is TestFixture),
        source matches SourceView::External { artifact, .. } ==> artifact.len() == 32,
        source matches SourceView::HashToCurve { transcript, .. } ==> transcript.len() == 32,
        cursor + source_encoding(source).len() <= input.len(),
        input.len() <= usize::MAX,
        input.subrange(cursor as int, (cursor + source_encoding(source).len()) as int) == source_encoding(source),
    ensures
        read_source_at(input, cursor) == Ok::<(SourceView, nat), IpaSrsFileError>(
            (source, cursor + source_encoding(source).len()),
        ),
{
    let encoding = source_encoding(source);
    let end = cursor + encoding.len();
    let whole = input.subrange(cursor as int, end as int);
    assert(input[cursor as int] == whole[0]);
    match source {
        SourceView::External { name, uri, artifact } => {
            let first = framed(encode_utf8(name));
            let second = framed(encode_utf8(uri));
            let a = cursor + 1;
            let b = a + first.len();
            let c = b + second.len();
            assert(input.subrange(a as int, b as int) =~= whole.subrange(1, (1 + first.len()) as int));
            assert(whole.subrange(1, (1 + first.len()) as int) =~= first);
            lemma_read_text(input, a, name);
            assert(input.subrange(b as int, c as int) =~= whole.subrange(
                (1 + first.len()) as int,
                (1 + first.len() + second.len()) as int,
            ));
            assert(whole.subrange((1 + first.len()) as int, (1 + first.len() + second.len()) as int) =~= second);
            lemma_read_text(input, b, uri);
            assert(input.subrange(c as int, (c + 32) as int) =~= whole.subrange(
                (1 + first.len() + second.len()) as int,
                encoding.len() as int,
            ));
            assert(whole.subrange((1 + first.len() + second.len()) as int, encoding.len() as int) =~= artifact);
        },
        SourceView::HashToCurve { domain, transcript } => {
            let first = framed(domain);
            let a = cursor + 1;
            let b = a + first.len();
            assert(input.subrange(a as int, b as int) =~= whole.subrange(1, (1 + first.len()) as int));
            assert(whole.subrange(1, (1 + first.len()) as int) =~= first);
            lemma_read_framed(input, a, domain);
            assert(input.subrange(b as int, (b + 32) as int) =~= whole.subrange(
                (1 + first.len()) as int,
                encoding.len() as int,
            ));
            assert(whole.subrange((1 + first.len()) as int, encoding.len() as int) =~= transcript);
        },
        SourceView::TestFixture => {},
    }
}

/// The provenance part of an SRS file.
pub open spec fn provenance_encoding(parts: SrsFileParts) -> Seq<u8> {
    srs_file_magic() + u64_le_bytes(parts.max_variables as u64) + framed(encode_utf8(parts.curve_id))
        + source_encoding(parts.source) + parts.digest
}

/// The generator part of an SRS file.
pub open spec fn generators_encoding(parts: SrsFileParts) -> Seq<u8> {
    u64_le_bytes(parts.polynomial.len() as u64) + framed_points(parts.polynomial) + u64_le_bytes(
        parts.evaluation.len() as u64,
    ) + framed_points(parts.evaluation) + framed(parts.blinding)
}

proof fn lemma_read_provenance_part(input: Seq<u8>, parts: SrsFileParts)
    requires
        !(parts.source is TestFixture),
        parts.source matches SourceView::External { artifact, .. } ==> artifact.len() == 32,
        parts.source matches SourceView::HashToCurve { transcript, .. } ==> transcript.len() == 32,
        parts.digest.len() == 32,
        provenance_encoding(parts).len() <= input.len(),
        input.len() <= usize::MAX,
        input.subrange(0, provenance_encoding(parts).len() as int) == provenance_encoding(parts),
    ensures
        read_provenance_at(input) == Ok::<(usize, Seq<char>, SourceView, Seq<u8>, nat), IpaSrsFileError>(
            (parts.max_variables, parts.curve_id, parts.source, parts.digest, provenance_encoding(parts).len()),
        ),
{
    let p = provenance_encoding(parts);
    let curve = framed(encode_utf8(parts.curve_id));
    let source = source_encoding(parts.source);
    let c2 = 24 + curve.len();
    let c3 = c2 + source.len();
    assert(srs_file_magic().len() == 16);
    assert(p.len() == c3 + 32);
    assert(input.take(16) =~= p.subrange(0, 16));
    assert(p.subrange(0, 16) =~= srs_file_magic());
    assert(input.subrange(16, 24) =~= p.subrange(16, 24));
    assert(p.subrange(16, 24) =~= u64_le_bytes(parts.max_variables as u64));
    lemma_word_value(parts.max_variables as u64);
    assert(input.subrange(24, c2 as int) =~= p.subrange(24, c2 as int));
    assert(p.subrange(24, c2 as int) =~= curve);
    lemma_read_text(input, 24, parts.curve_id);
    assert(input.subrange(c2 as int, c3 as int) =~= p.subrange(c2 as int, c3 as int));
    assert(p.subrange(c2 as int, c3 as int) =~= source);
    lemma_read_source(input, c2, parts.source);
    assert(input.subrange(c3 as int, (c3 + 32) as int) =~= p.subrange(c3 as int, (c3 + 32) as int));
    assert(p.subrange(c3 as int, (c3 + 32) as int) =~= parts.digest);
}

proof fn lemma_read_generators_part(input: Seq<u8>, cursor: nat, parts: SrsFileParts)
    requires
        forall|i: int| 0 <= i < parts.polynomial.len() ==> valid_point(#[trigger] parts.polynomial[i]),
        forall|i: int| 0 <= i < parts.evaluation.len() ==> valid_point(#[trigger] parts.evaluation[i]),
        valid_point(parts.blinding),
        cursor + generators_encoding(parts).len() == input.len(),
        input.len() <= usize::MAX,
        input.subrange(cursor as int, input.len() as int) == generators_encoding(parts),
    ensures
        ({
            let polynomial_end = cursor + 8 + 56 * parts.polynomial.len();
            let evaluation_end = polynomial_end + 8 + 56 * parts.evaluation.len();
            &&& read_point_list_at(input, cursor) == Ok::<(Seq<Seq<u8>>, nat), IpaSrsFileError>(
                (parts.polynomial, polynomial_end),
            )
            &&& read_point_list_at(input, polynomial_end) == Ok::<(Seq<Seq<u8>>, nat), IpaSrsFileError>(
                (parts.evaluation, evaluation_end),
            )
            &&& read_point_at(input, evaluation_end) == Ok::<(Seq<u8>, nat), IpaSrsFileError>(
                (parts.blinding, input.len()),
            )
        }),
{
    let g = generators_encoding(parts);
    lemma_framed_points_at(parts.polynomial, 0);
    lemma_framed_points_at(parts.evaluation, 0);
    let polynomial = framed_points(parts.polynomial);
    let evaluation = framed_points(parts.evaluation);
    let c = cursor as int;
    let a: int = 8 + polynomial.len() as int;
    let b: int = a + 8 + evaluation.len() as int;
    assert(g.len() == b + 56);
    assert(input.subrange(c, c + 8) =~= g.subrange(0, 8));
    assert(g.subrange(0, 8) =~= u64_le_bytes(parts.polynomial.len() as u64));
    lemma_word_value(parts.polynomial.len() as u64);
    assert(input.subrange(c + 8, c + a) =~= g.subrange(8, a));
    assert(g.subrange(8, a) =~= polynomial);
    lemma_read_framed_points(input, (c + 8) as nat, parts.polynomial, parts.polynomial.len());
    assert(parts.polynomial.take(parts.polynomial.len() as int) =~= parts.polynomial);
    assert(input.subrange(c + a, c + a + 8) =~= g.subrange(a, a + 8));
    assert(g.subrange(a, a + 8) =~= u64_le_bytes(parts.evaluation.len() as u64));
    lemma_word_value(parts.evaluation.len() as u64);
    assert(input.subrange(c + a + 8, c + b) =~= g.subrange(a + 8, b));
    assert(g.subrange(a + 8, b) =~= evaluation);
    lemma_read_framed_points(input, (c + a + 8) as nat, parts.evaluation, parts.evaluation.len());
    assert(parts.evaluation.take(parts.evaluation.len() as int) =~= parts.evaluation);
    assert(input.subrange(c + b, c + b + 56) =~= g.subrange(b, b + 56));
    assert(g.subrange(b, b + 56) =~= framed(parts.blinding));
    lemma_read_framed(input, (c + b) as nat, parts.blinding);
}

/// Decoding the encoding of an SRS whose digests are 32 bytes and whose
/// points are valid non-identity encodings gives its parts back.
pub proof fn lemma_srs_file_roundtrip(parts: SrsFileParts)
    requires
        !(parts.source is TestFixture),
        parts.source matches SourceView::External { artifact, .. } ==> artifact.len() == 32,
        parts.source matches SourceView::HashToCurve { transcript, .. } ==> transcript.len() == 32,
        parts.digest.len() == 32,
        forall|i: int| 0 <= i < parts.polynomial.len() ==> valid_point(#[trigger] parts.polynomial[i]),
        forall|i: int| 0 <= i < parts.evaluation.len() ==> valid_point(#[trigger] parts.evaluation[i]),
        valid_point(parts.blinding),
        srs_file_encoding(parts).len() <= usize::MAX,
    ensures
        decode_srs_parts(srs_file_encoding(parts)) == Ok::<SrsFileParts, IpaSrsFileError>(parts),
{
    let e = srs_file_encoding(parts);
    let p = provenance_encoding(parts);
    let g = generators_encoding(parts);
    assert(e =~= p + g);
    assert(e.subrange(0, p.len() as int) =~= p);
    assert(e.subrange(p.len() as int, e.len() as int) =~= g);
    lemma_read_provenance_part(e, parts);
    lemma_read_generators_part(e, p.len(), parts);
}

} // verus!
