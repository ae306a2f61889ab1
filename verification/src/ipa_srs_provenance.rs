//! Provenance of an IPA structured reference string: where the generators
//! came from, and a canonical digest that pins the exact points.
use vstd::prelude::*;
use vstd::string::StringSliceAdditionalSpecFns;
use sha2::Digest;
use crate::bytes::{all_zero, is_all_zero};
use crate::codec::{append_bytes, framed, write_framed};
use crate::field::{push_u64_le, u64_le_bytes};
use crate::ipa_curve::{curve_basis_check, IpaCurveGeneratorBasis, IpaCurvePoint, IpaCurvePointError};

verus! {

/// What `str::trim` leaves of a text: the text without leading and trailing
/// whitespace.
pub uninterp spec fn trimmed(text: Seq<char>) -> Seq<char>;

/// `str::trim`.
#[verifier::external_body]
fn str_trim<'a>(text: &'a str) -> (r: &'a str)
    ensures
        r@ == trimmed(text@),
{
    text.trim()
}

/// The SHA-256 digest of a message.
pub uninterp spec fn sha256_digest(message: Seq<u8>) -> Seq<u8>;

/// `sha2::Sha256::digest`, the 32-byte SHA-256 digest of the message.
#[verifier::external_body]
fn sha256(message: &[u8]) -> (r: [u8; 32])
    ensures
        r@ == sha256_digest(message@),
{
    sha2::Sha256::digest(message).into()
}

/// A text that is empty or only whitespace.
pub open spec fn is_blank(text: Seq<char>) -> bool {
    trimmed(text).len() == 0
}

/// Where the generators of an SRS came from.
#[derive(Clone, Debug, PartialEq, Eq)]
pub enum IpaSrsSource {
    /// Externally supplied SRS artifact with an independently recorded artifact digest.
    ExternalTrustedSetup { name: String, uri: String, artifact_sha256: [u8; 32] },
    /// Generator basis derived by a hash-to-curve process outside this module.
    HashToCurveDerivation { domain_separator: Vec<u8>, transcript_sha256: [u8; 32] },
    /// Test fixture source where the discrete logs are known to the test author;
    /// production validation rejects it.
    KnownDiscreteLogTestFixture,
}

#[derive(Clone, Debug, PartialEq, Eq)]
pub struct IpaSrsProvenance {
    pub curve_id: String,
    pub max_variables: usize,
    pub source: IpaSrsSource,
    pub canonical_basis_sha256: [u8; 32],
}

#[derive(Clone, Debug, PartialEq, Eq)]
pub enum IpaSrsProvenanceError {
    Curve(IpaCurvePointError),
    EmptyCurveId,
    EmptySourceField { field: &'static str },
    ZeroDigest { field: &'static str },
    NonProductionSource,
    VariableMismatch { basis_variables: usize, provenance_variables: usize },
    LengthOverflow,
    DigestMismatch { expected: [u8; 32], actual: [u8; 32] },
}

/// The source metadata as plain values.
pub enum SourceView {
    External { name: Seq<char>, uri: Seq<char>, artifact: Seq<u8> },
    HashToCurve { domain: Seq<u8>, transcript: Seq<u8> },
    TestFixture,
}

pub open spec fn source_view(source: IpaSrsSource) -> SourceView {
    match source {
        IpaSrsSource::ExternalTrustedSetup { name, uri, artifact_sha256 } => SourceView::External {
            name: name@,
            uri: uri@,
            artifact: artifact_sha256@,
        },
        IpaSrsSource::HashToCurveDerivation { domain_separator, transcript_sha256 } => SourceView::HashToCurve {
            domain: domain_separator@,
            transcript: transcript_sha256@,
        },
        IpaSrsSource::KnownDiscreteLogTestFixture => SourceView::TestFixture,
    }
}

/// The outcome of checking the source metadata.
pub open spec fn source_view_check(source: SourceView) -> Result<(), IpaSrsProvenanceError> {
    match source {
        SourceView::External { name, uri, artifact } => if is_blank(name) {
            Err(IpaSrsProvenanceError::EmptySourceField { field: "external.name" })
        } else if is_blank(uri) {
            Err(IpaSrsProvenanceError::EmptySourceField { field: "external.uri" })
        } else if is_all_zero(artifact) {
            Err(IpaSrsProvenanceError::ZeroDigest { field: "external.artifact_sha256" })
        } else {
            Ok(())
        },
        SourceView::HashToCurve { domain, transcript } => if domain.len() == 0 {
            Err(IpaSrsProvenanceError::EmptySourceField { field: "hash_to_curve.domain_separator" })
        } else if is_all_zero(transcript) {
            Err(IpaSrsProvenanceError::ZeroDigest { field: "hash_to_curve.transcript_sha256" })
        } else {
            Ok(())
        },
        SourceView::TestFixture => Err(IpaSrsProvenanceError::NonProductionSource),
    }
}

pub open spec fn source_check(source: IpaSrsSource) -> Result<(), IpaSrsProvenanceError> {
    source_view_check(source_view(source))
}

/// Each point framed after its framed label.
pub open spec fn labelled_points(label: Seq<u8>, points: Seq<Seq<u8>>) -> Seq<u8>
    decreases points.len(),
{
    if points.len() == 0 {
        seq![]
    } else {
        labelled_points(label, points.drop_last()) + framed(label) + framed(points.last())
    }
}

/// The message whose SHA-256 digest is the canonical digest of a basis:
/// the digest domain, the variable count, and every generator under its
/// label.
pub open spec fn srs_digest_message(
    variables: usize,
    polynomial: Seq<Seq<u8>>,
    evaluation: Seq<Seq<u8>>,
    blinding: Seq<u8>,
) -> Seq<u8> {
    "snark-lab/ipa-srs-canonical-digest/v1".spec_bytes() + u64_le_bytes(variables as u64) + labelled_points(
        "polynomial".spec_bytes(),
        polynomial,
    ) + labelled_points("evaluation".spec_bytes(), evaluation) + framed("blinding".spec_bytes()) + framed(
        blinding,
    )
}

/// The canonical digest of a basis given by its parts.
pub open spec fn parts_digest(
    variables: usize,
    polynomial: Seq<Seq<u8>>,
    evaluation: Seq<Seq<u8>>,
    blinding: Seq<u8>,
) -> Seq<u8> {
    sha256_digest(srs_digest_message(variables, polynomial, evaluation, blinding))
}

/// The canonical digest of a basis.
pub open spec fn basis_digest(basis: IpaCurveGeneratorBasis) -> Seq<u8> {
    parts_digest(basis.variables, basis.polynomial_view(), basis.evaluation_view(), basis.blinding_generator@)
}

/// Every check of a provenance against a basis, given by their parts, before
/// the digest comparison.
pub open spec fn precheck_parts(
    variables: usize,
    polynomial: Seq<Seq<u8>>,
    evaluation: Seq<Seq<u8>>,
    blinding: Seq<u8>,
    curve_id: Seq<char>,
    source: SourceView,
    max_variables: usize,
) -> Result<(), IpaSrsProvenanceError> {
    match curve_basis_check(variables, polynomial, evaluation, blinding) {
        Err(error) => Err(IpaSrsProvenanceError::Curve(error)),
        Ok(()) => if is_blank(curve_id) {
            Err(IpaSrsProvenanceError::EmptyCurveId)
        } else {
            match source_view_check(source) {
                Err(error) => Err(error),
                Ok(()) => if variables != max_variables {
                    Err(
                        IpaSrsProvenanceError::VariableMismatch {
                            basis_variables: variables,
                            provenance_variables: max_variables,
                        },
                    )
                } else {
                    Ok(())
                },
            }
        },
    }
}

/// Every check of the provenance before the digest comparison.
pub open spec fn provenance_precheck(basis: IpaCurveGeneratorBasis, provenance: IpaSrsProvenance) -> Result<
    (),
    IpaSrsProvenanceError,
> {
    precheck_parts(
        basis.variables,
        basis.polynomial_view(),
        basis.evaluation_view(),
        basis.blinding_generator@,
        provenance.curve_id@,
        source_view(provenance.source),
        provenance.max_variables,
    )
}

/// A basis whose provenance passed validation.
#[derive(Debug, PartialEq, Eq)]
pub struct IpaVerifiedSrs {
    provenance: IpaSrsProvenance,
    basis: IpaCurveGeneratorBasis,
}

impl IpaVerifiedSrs {
    #[verifier::type_invariant]
    spec fn validated(self) -> bool {
        &&& provenance_precheck(self.basis, self.provenance) is Ok
        &&& basis_digest(self.basis) == self.provenance.canonical_basis_sha256@
    }

    pub closed spec fn provenance_value(self) -> IpaSrsProvenance {
        self.provenance
    }

    pub closed spec fn basis_value(self) -> IpaCurveGeneratorBasis {
        self.basis
    }

    /// The validated provenance; it passed every check against the basis.
    pub fn provenance(&self) -> (r: &IpaSrsProvenance)
        ensures
            *r == self.provenance_value(),
            provenance_precheck(self.basis_value(), self.provenance_value()) is Ok,
            basis_digest(self.basis_value()) == self.provenance_value().canonical_basis_sha256@,
    {
        proof {
            use_type_invariant(self);
        }
        &self.provenance
    }

    pub fn basis(&self) -> (r: &IpaCurveGeneratorBasis)
        ensures
            *r == self.basis_value(),
    {
        &self.basis
    }

    pub fn into_parts(self) -> (r: (IpaSrsProvenance, IpaCurveGeneratorBasis))
        ensures
            r.0 == self.provenance_value(),
            r.1 == self.basis_value(),
    {
        (self.provenance, self.basis)
    }
}

fn require_nonempty_text(field: &'static str, value: &str) -> (r: Result<(), IpaSrsProvenanceError>)
    ensures
        is_blank(value@) ==> r == Err::<(), IpaSrsProvenanceError>(IpaSrsProvenanceError::EmptySourceField { field }),
        !is_blank(value@) ==> r is Ok,
{
    if str_trim(value).is_empty() {
        return Err(IpaSrsProvenanceError::EmptySourceField { field });
    }
    Ok(())
}

fn validate_source(source: &IpaSrsSource) -> (r: Result<(), IpaSrsProvenanceError>)
    ensures
        r == source_check(*source),
{
    match source {
        IpaSrsSource::ExternalTrustedSetup { name, uri, artifact_sha256 } => {
            match require_nonempty_text("external.name", name.as_str()) {
                Err(error) => {
                    return Err(error);
                },
                Ok(()) => {},
            }
            match require_nonempty_text("external.uri", uri.as_str()) {
                Err(error) => {
                    return Err(error);
                },
                Ok(()) => {},
            }
            if all_zero(artifact_sha256.as_slice()) {
                return Err(IpaSrsProvenanceError::ZeroDigest { field: "external.artifact_sha256" });
            }
            Ok(())
        },
        IpaSrsSource::HashToCurveDerivation { domain_separator, transcript_sha256 } => {
            if domain_separator.len() == 0 {
                return Err(IpaSrsProvenanceError::EmptySourceField { field: "hash_to_curve.domain_separator" });
            }
            if all_zero(transcript_sha256.as_slice()) {
                return Err(IpaSrsProvenanceError::ZeroDigest { field: "hash_to_curve.transcript_sha256" });
            }
            Ok(())
        },
        IpaSrsSource::KnownDiscreteLogTestFixture => Err(IpaSrsProvenanceError::NonProductionSource),
    }
}

/// Appends every point framed after the framed label.
fn append_labelled_points(out: &mut Vec<u8>, label: &'static str, points: &[IpaCurvePoint])
    ensures
        final(out)@ == old(out)@ + labelled_points(label.spec_bytes(), crate::ipa_curve::points_view(points@)),
{
    let ghost view = crate::ipa_curve::points_view(points@);
    let mut i: usize = 0;
    while i < points.len()
        invariant
            i <= points@.len(),
            view == crate::ipa_curve::points_view(points@),
            out@ == old(out)@ + labelled_points(label.spec_bytes(), view.take(i as int)),
        decreases points@.len() - i,
    {
        let bytes = match points[i].to_compressed_bytes() {
            Ok(bytes) => bytes,
            Err(_) => {
                assert(false);
                Vec::new()
            },
        };
        write_framed(out, label.as_bytes());
        write_framed(out, bytes.as_slice());
        proof {
            assert(view.take(i + 1).drop_last() =~= view.take(i as int));
            assert(view[i as int] == bytes@);
            assert(out@ =~= old(out)@ + labelled_points(label.spec_bytes(), view.take(i + 1)));
        }
        i = i + 1;
    }
    assert(view.take(i as int) =~= view);
}

/// The canonical digest of a checked IPA generator basis: it binds the
/// digest domain, the variable count and the compressed bytes of every
/// generator. It claims no randomness; it makes the exact SRS material
/// auditable and reproducible.
pub fn canonical_ipa_srs_digest(basis: &IpaCurveGeneratorBasis) -> (r: Result<[u8; 32], IpaSrsProvenanceError>)
    ensures
        match basis.check() {
            Err(error) => r == Err::<[u8; 32], IpaSrsProvenanceError>(IpaSrsProvenanceError::Curve(error)),
            Ok(()) => r matches Ok(digest) && digest@ == basis_digest(*basis),
        },
{
    match basis.validate() {
        Err(error) => {
            return Err(IpaSrsProvenanceError::Curve(error));
        },
        Ok(()) => {},
    }
    let domain = "snark-lab/ipa-srs-canonical-digest/v1";
    let mut message: Vec<u8> = Vec::new();
    append_bytes(&mut message, domain.as_bytes());
    push_u64_le(&mut message, basis.variables as u64);
    append_labelled_points(&mut message, "polynomial", basis.polynomial_generators.as_slice());
    append_labelled_points(&mut message, "evaluation", basis.evaluation_generators.as_slice());
    let blinding = match basis.blinding_generator.to_compressed_bytes() {
        Ok(bytes) => bytes,
        Err(_) => {
            assert(false);
            Vec::new()
        },
    };
    write_framed(&mut message, "blinding".as_bytes());
    write_framed(&mut message, blinding.as_slice());
    assert(message@ =~= srs_digest_message(
        basis.variables,
        basis.polynomial_view(),
        basis.evaluation_view(),
        basis.blinding_generator@,
    ));
    Ok(sha256(message.as_slice()))
}

/// Byte-wise equality of two digests.
fn digests_equal(a: &[u8; 32], b: &[u8; 32]) -> (r: bool)
    ensures
        r == (a@ == b@),
{
    crate::bytes::bytes_equal(a.as_slice(), b.as_slice())
}

/// Validates an externally supplied or hash-to-curve-derived IPA SRS. It
/// fails closed on test-fixture provenance, empty source metadata, zero
/// source digests, a variable-count mismatch, a digest mismatch, and
/// invalid, duplicate or wrongly counted generators.
pub fn validate_ipa_srs_provenance(basis: IpaCurveGeneratorBasis, provenance: IpaSrsProvenance) -> (r: Result<
    IpaVerifiedSrs,
    IpaSrsProvenanceError,
>)
    ensures
        match provenance_precheck(basis, provenance) {
            Err(error) => r == Err::<IpaVerifiedSrs, IpaSrsProvenanceError>(error),
            Ok(()) => if basis_digest(basis) == provenance.canonical_basis_sha256@ {
                r matches Ok(srs) && srs.provenance_value() == provenance && srs.basis_value() == basis
            } else {
                r matches Err(IpaSrsProvenanceError::DigestMismatch { expected, actual })
                    && expected == provenance.canonical_basis_sha256 && actual@ == basis_digest(basis)
            },
        },
{
    match basis.validate() {
        Err(error) => {
            return Err(IpaSrsProvenanceError::Curve(error));
        },
        Ok(()) => {},
    }
    if str_trim(provenance.curve_id.as_str()).is_empty() {
        return Err(IpaSrsProvenanceError::EmptyCurveId);
    }
    match validate_source(&provenance.source) {
        Err(error) => {
            return Err(error);
        },
        Ok(()) => {},
    }
    if basis.variables != provenance.max_variables {
        return Err(
            IpaSrsProvenanceError::VariableMismatch {
                basis_variables: basis.variables,
                provenance_variables: provenance.max_variables,
            },
        );
    }
    let actual = match canonical_ipa_srs_digest(&basis) {
        Err(error) => {
            return Err(error);
        },
        Ok(digest) => digest,
    };
    if !digests_equal(&actual, &provenance.canonical_basis_sha256) {
        return Err(
            IpaSrsProvenanceError::DigestMismatch { expected: provenance.canonical_basis_sha256, actual },
        );
    }
    Ok(IpaVerifiedSrs { provenance, basis })
}

} // verus!
