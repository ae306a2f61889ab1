use ark_ec::{CurveGroup, PrimeGroup};
use ark_serialize::CanonicalSerialize;
use sha2::Digest;
use snark_lab::ipa_curve::{IpaCurveGeneratorBasis, IpaCurvePoint};
use snark_lab::ipa_generators::expected_ipa_generator_count;
use snark_lab::ipa_srs_loader::{decode_ipa_srs_file, encode_ipa_srs_file, IpaSrsFileError};
use snark_lab::ipa_srs_provenance::{
    canonical_ipa_srs_digest, validate_ipa_srs_provenance, IpaSrsProvenance, IpaSrsProvenanceError, IpaSrsSource,
    IpaVerifiedSrs,
};

fn point(seed: u64) -> IpaCurvePoint {
    let point = (ark_bls12_381::G1Projective::generator() * ark_bls12_381::Fr::from(seed)).into_affine();
    let mut bytes = Vec::new();
    point.serialize_compressed(&mut bytes).unwrap();
    IpaCurvePoint::from_compressed_bytes(&bytes).unwrap()
}

fn basis(variables: usize) -> IpaCurveGeneratorBasis {
    let count = expected_ipa_generator_count(variables).unwrap();
    IpaCurveGeneratorBasis::new(
        variables,
        (0..count).map(|index| point(index as u64 + 1)).collect(),
        (0..count).map(|index| point(index as u64 + 100)).collect(),
        point(999),
    )
    .unwrap()
}

fn nonzero_digest(seed: u8) -> [u8; 32] {
    [seed; 32]
}

fn external_provenance(basis: &IpaCurveGeneratorBasis) -> IpaSrsProvenance {
    IpaSrsProvenance {
        curve_id: "BLS12-381-G1".to_string(),
        max_variables: basis.variables,
        source: IpaSrsSource::ExternalTrustedSetup {
            name: "example-audited-srs".to_string(),
            uri: "file:///opt/snark-lab/srs/ipa-g1-v1.bin".to_string(),
            artifact_sha256: nonzero_digest(7),
        },
        canonical_basis_sha256: canonical_ipa_srs_digest(basis).unwrap(),
    }
}

#[test]
fn validates_external_srs_with_matching_digest() {
    let basis = basis(2);
    let provenance = external_provenance(&basis);
    let verified = validate_ipa_srs_provenance(basis.clone(), provenance.clone()).unwrap();
    assert_eq!(verified.basis(), &basis);
    assert_eq!(verified.provenance(), &provenance);
}

#[test]
fn validates_hash_to_curve_provenance_with_matching_digest() {
    let basis = basis(2);
    let provenance = IpaSrsProvenance {
        curve_id: "BLS12-381-G1".to_string(),
        max_variables: basis.variables,
        source: IpaSrsSource::HashToCurveDerivation {
            domain_separator: b"snark-lab-production-ipa-g1-v1".to_vec(),
            transcript_sha256: nonzero_digest(8),
        },
        canonical_basis_sha256: canonical_ipa_srs_digest(&basis).unwrap(),
    };
    assert!(validate_ipa_srs_provenance(basis, provenance).is_ok());
}

#[test]
fn rejects_known_discrete_log_test_fixture_source() {
    let basis = basis(2);
    let provenance = IpaSrsProvenance {
        curve_id: "BLS12-381-G1".to_string(),
        max_variables: basis.variables,
        source: IpaSrsSource::KnownDiscreteLogTestFixture,
        canonical_basis_sha256: canonical_ipa_srs_digest(&basis).unwrap(),
    };
    assert_eq!(validate_ipa_srs_provenance(basis, provenance), Err(IpaSrsProvenanceError::NonProductionSource));
}

#[test]
fn rejects_digest_mismatch() {
    let basis = basis(2);
    let mut provenance = external_provenance(&basis);
    provenance.canonical_basis_sha256[0] ^= 1;
    assert!(matches!(
        validate_ipa_srs_provenance(basis, provenance),
        Err(IpaSrsProvenanceError::DigestMismatch { .. })
    ));
}

#[test]
fn rejects_variable_mismatch() {
    let basis = basis(2);
    let mut provenance = external_provenance(&basis);
    provenance.max_variables = 3;
    assert_eq!(
        validate_ipa_srs_provenance(basis, provenance),
        Err(IpaSrsProvenanceError::VariableMismatch { basis_variables: 2, provenance_variables: 3 })
    );
}

#[test]
fn rejects_empty_external_source_fields() {
    let basis = basis(2);
    let provenance = IpaSrsProvenance {
        curve_id: "BLS12-381-G1".to_string(),
        max_variables: basis.variables,
        source: IpaSrsSource::ExternalTrustedSetup {
            name: "".to_string(),
            uri: "file:///srs.bin".to_string(),
            artifact_sha256: nonzero_digest(9),
        },
        canonical_basis_sha256: canonical_ipa_srs_digest(&basis).unwrap(),
    };
    assert_eq!(
        validate_ipa_srs_provenance(basis, provenance),
        Err(IpaSrsProvenanceError::EmptySourceField { field: "external.name" })
    );
}

#[test]
fn rejects_zero_artifact_digest() {
    let basis = basis(2);
    let provenance = IpaSrsProvenance {
        curve_id: "BLS12-381-G1".to_string(),
        max_variables: basis.variables,
        source: IpaSrsSource::ExternalTrustedSetup {
            name: "example-audited-srs".to_string(),
            uri: "file:///srs.bin".to_string(),
            artifact_sha256: [0u8; 32],
        },
        canonical_basis_sha256: canonical_ipa_srs_digest(&basis).unwrap(),
    };
    assert_eq!(
        validate_ipa_srs_provenance(basis, provenance),
        Err(IpaSrsProvenanceError::ZeroDigest { field: "external.artifact_sha256" })
    );
}

#[test]
fn canonical_digest_changes_when_generator_changes() {
    let first = basis(2);
    let mut second = basis(2);
    second.polynomial_generators[0] = point(7_777);
    assert_ne!(canonical_ipa_srs_digest(&first).unwrap(), canonical_ipa_srs_digest(&second).unwrap());
}

#[test]
fn whitespace_only_metadata_is_blank() {
    let basis = basis(1);
    let mut provenance = external_provenance(&basis);
    provenance.curve_id = " \t\n".to_string();
    assert_eq!(validate_ipa_srs_provenance(basis.clone(), provenance), Err(IpaSrsProvenanceError::EmptyCurveId));
    let mut provenance = external_provenance(&basis);
    provenance.source = IpaSrsSource::ExternalTrustedSetup {
        name: "setup".to_string(),
        uri: "\u{3000}".to_string(),
        artifact_sha256: nonzero_digest(1),
    };
    assert_eq!(
        validate_ipa_srs_provenance(basis.clone(), provenance),
        Err(IpaSrsProvenanceError::EmptySourceField { field: "external.uri" })
    );
    let mut provenance = external_provenance(&basis);
    provenance.source = IpaSrsSource::HashToCurveDerivation { domain_separator: Vec::new(), transcript_sha256: nonzero_digest(1) };
    assert_eq!(
        validate_ipa_srs_provenance(basis, provenance),
        Err(IpaSrsProvenanceError::EmptySourceField { field: "hash_to_curve.domain_separator" })
    );
}

#[test]
fn canonical_digest_is_sha256_of_the_canonical_message() {
    let basis = basis(0);
    let mut message = b"snark-lab/ipa-srs-canonical-digest/v1".to_vec();
    message.extend_from_slice(&0u64.to_le_bytes());
    let framed = |out: &mut Vec<u8>, bytes: &[u8]| {
        out.extend_from_slice(&(bytes.len() as u64).to_le_bytes());
        out.extend_from_slice(bytes);
    };
    for (label, points) in [("polynomial", &basis.polynomial_generators), ("evaluation", &basis.evaluation_generators)] {
        for generator in points.iter() {
            framed(&mut message, label.as_bytes());
            framed(&mut message, &generator.to_compressed_bytes().unwrap());
        }
    }
    framed(&mut message, b"blinding");
    framed(&mut message, &basis.blinding_generator.to_compressed_bytes().unwrap());
    let expected: [u8; 32] = sha2::Sha256::digest(&message).into();
    assert_eq!(canonical_ipa_srs_digest(&basis).unwrap(), expected);
}

// SRS files.

fn verified_srs() -> IpaVerifiedSrs {
    let basis = basis(2);
    let provenance = external_provenance(&basis);
    validate_ipa_srs_provenance(basis, provenance).unwrap()
}

fn source_tag_offset(encoded: &[u8]) -> usize {
    let mut cursor = 16 + 8;
    let mut len = [0u8; 8];
    len.copy_from_slice(&encoded[cursor..cursor + 8]);
    cursor += 8 + u64::from_le_bytes(len) as usize;
    cursor
}

fn canonical_digest_offset_for_external(encoded: &[u8]) -> usize {
    let mut cursor = source_tag_offset(encoded);
    assert_eq!(encoded[cursor], 1);
    cursor += 1;
    for _ in 0..2 {
        let mut len = [0u8; 8];
        len.copy_from_slice(&encoded[cursor..cursor + 8]);
        cursor += 8 + u64::from_le_bytes(len) as usize;
    }
    cursor + 32
}

#[test]
fn srs_file_roundtrip_is_canonical_and_validated() {
    let verified = verified_srs();
    let encoded = encode_ipa_srs_file(&verified).unwrap();
    let decoded = decode_ipa_srs_file(&encoded).unwrap();
    let reencoded = encode_ipa_srs_file(&decoded).unwrap();
    assert_eq!(encoded, reencoded);
    assert_eq!(decoded.provenance(), verified.provenance());
    assert_eq!(decoded.basis(), verified.basis());
}

#[test]
fn srs_file_decoder_rejects_wrong_magic() {
    let mut encoded = encode_ipa_srs_file(&verified_srs()).unwrap();
    encoded[0] = b'X';
    assert_eq!(decode_ipa_srs_file(&encoded), Err(IpaSrsFileError::InvalidMagic));
}

#[test]
fn srs_file_decoder_rejects_unknown_source_tag() {
    let mut encoded = encode_ipa_srs_file(&verified_srs()).unwrap();
    let offset = source_tag_offset(&encoded);
    encoded[offset] = 99;
    assert_eq!(decode_ipa_srs_file(&encoded), Err(IpaSrsFileError::UnknownSourceTag(99)));
}

#[test]
fn srs_file_decoder_rejects_truncated_input() {
    let mut encoded = encode_ipa_srs_file(&verified_srs()).unwrap();
    encoded.pop();
    assert_eq!(decode_ipa_srs_file(&encoded), Err(IpaSrsFileError::Truncated));
}

#[test]
fn srs_file_decoder_rejects_trailing_bytes() {
    let mut encoded = encode_ipa_srs_file(&verified_srs()).unwrap();
    encoded.push(0);
    assert_eq!(decode_ipa_srs_file(&encoded), Err(IpaSrsFileError::TrailingBytes));
}

#[test]
fn srs_file_decoder_rejects_digest_mismatch() {
    let mut encoded = encode_ipa_srs_file(&verified_srs()).unwrap();
    let offset = canonical_digest_offset_for_external(&encoded);
    encoded[offset] ^= 1;
    assert!(matches!(
        decode_ipa_srs_file(&encoded),
        Err(IpaSrsFileError::Provenance(IpaSrsProvenanceError::DigestMismatch { .. }))
    ));
}

#[test]
fn srs_file_encoder_rejects_nonproduction_source_even_if_constructed_in_tests() {
    let basis = basis(2);
    let provenance = IpaSrsProvenance {
        curve_id: "BLS12-381-G1".to_string(),
        max_variables: basis.variables,
        source: IpaSrsSource::KnownDiscreteLogTestFixture,
        canonical_basis_sha256: canonical_ipa_srs_digest(&basis).unwrap(),
    };
    assert_eq!(validate_ipa_srs_provenance(basis, provenance), Err(IpaSrsProvenanceError::NonProductionSource));
}

#[test]
fn srs_file_decoder_reports_string_and_point_errors() {
    let encoded = encode_ipa_srs_file(&verified_srs()).unwrap();
    let mut bad_utf8 = encoded.clone();
    bad_utf8[16 + 8 + 8] = 0xff;
    assert_eq!(decode_ipa_srs_file(&bad_utf8), Err(IpaSrsFileError::InvalidUtf8));
    let mut overflow = encoded.clone();
    for byte in &mut overflow[16..24] {
        *byte = 0xff;
    }
    if usize::BITS < 64 {
        assert_eq!(decode_ipa_srs_file(&overflow), Err(IpaSrsFileError::LengthOverflow));
    } else {
        assert!(decode_ipa_srs_file(&overflow).is_err());
    }
    let blinding_start = encoded.len() - 48;
    let mut bad_point = encoded.clone();
    bad_point[blinding_start] ^= 0xff;
    assert!(matches!(decode_ipa_srs_file(&bad_point), Err(IpaSrsFileError::Curve(_))));
}
