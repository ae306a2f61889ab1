use snark_lab::field::Scalar;
use snark_lab::multilinear::Multilinear;
use snark_lab::permcheck::{
    estimate_product_tree, estimate_rational_stream, product_check, product_fingerprint, rational_check,
    rational_fingerprint, Error, StreamEstimate, TaggedColumn,
};
use snark_lab::transcript::{challenge_vector, MerlinTranscript, ProofTranscript};
use snark_lab::zerocheck::{derive_mixing_point, prove, verify, weighted_polynomial};

fn s(value: u64) -> Scalar {
    Scalar::from_u64(value)
}

// Transcript.

fn challenge(message: &[u8]) -> Scalar {
    let mut transcript = MerlinTranscript::new("snark-lab-test");
    transcript.append_domain_separator("test-v1");
    transcript.append_bytes("message", message);
    transcript.challenge_scalar("challenge")
}

#[test]
fn same_transcript_has_same_challenge() {
    assert_eq!(challenge(b"statement"), challenge(b"statement"));
}

#[test]
fn changed_message_changes_challenge() {
    assert_ne!(challenge(b"statement-a"), challenge(b"statement-b"));
}

#[test]
fn challenge_vector_draws_distinct_indexed_challenges() {
    let mut left = MerlinTranscript::new("snark-lab-test");
    let mut right = MerlinTranscript::new("snark-lab-test");
    let first = challenge_vector(&mut left, "coordinate", 3);
    let second = challenge_vector(&mut right, "coordinate", 3);
    assert_eq!(first.len(), 3);
    assert_eq!(first, second);
    assert_ne!(first[0], first[1]);
    assert!(challenge_vector(&mut left, "coordinate", 0).is_empty());
}

// Zerocheck.

#[test]
fn zero_table_verifies() {
    let constraints = Multilinear::new(vec![Scalar::zero(); 8]).unwrap();
    let mut prover = MerlinTranscript::new("zerocheck-test");
    let proof = prove(&constraints, &mut prover);
    let mut verifier = MerlinTranscript::new("zerocheck-test");
    assert!(verify(&constraints, &proof, &mut verifier).is_ok());
}

#[test]
fn nonzero_table_is_rejected() {
    let constraints = Multilinear::new([0_u64, 0, 9, 0].into_iter().map(s).collect()).unwrap();
    let mut prover = MerlinTranscript::new("zerocheck-test");
    let proof = prove(&constraints, &mut prover);
    let mut verifier = MerlinTranscript::new("zerocheck-test");
    assert!(verify(&constraints, &proof, &mut verifier).is_err());
}

#[test]
fn constraint_oracle_is_bound_before_mixing_challenge() {
    let zero = Multilinear::new(vec![Scalar::zero(); 4]).unwrap();
    let changed = Multilinear::new(vec![Scalar::zero(), Scalar::one(), Scalar::zero(), Scalar::zero()]).unwrap();
    let mut left = MerlinTranscript::new("zerocheck-test");
    let mut right = MerlinTranscript::new("zerocheck-test");
    assert_ne!(derive_mixing_point(&zero, &mut left), derive_mixing_point(&changed, &mut right));
}

#[test]
fn weighted_polynomial_checks_dimension_and_weights() {
    let constraints = Multilinear::new(vec![s(1), s(2), s(3), s(4)]).unwrap();
    assert!(weighted_polynomial(&constraints, &[s(1)]).is_err());
    // At the point (0, 0) the equality table is (1, 0, 0, 0).
    let weighted = weighted_polynomial(&constraints, &[s(0), s(0)]).unwrap();
    assert_eq!(weighted.evaluations(), &[s(1), s(0), s(0), s(0)]);
}

// Permutation checks.

fn column(values: &[u64], tags: &[u64]) -> (Vec<Scalar>, Vec<Scalar>) {
    (values.iter().copied().map(s).collect(), tags.iter().copied().map(s).collect())
}

#[test]
fn tagged_permutations_match() {
    let (left_values, left_tags) = column(&[1, 5, 9, 2], &[0, 1, 2, 3]);
    let (right_values, right_tags) = column(&[9, 2, 1, 5], &[2, 3, 0, 1]);
    let left = TaggedColumn { values: &left_values, tags: &left_tags };
    let right = TaggedColumn { values: &right_values, tags: &right_tags };
    let mut product_transcript = MerlinTranscript::new("permcheck-test");
    let mut rational_transcript = MerlinTranscript::new("permcheck-test");
    assert_eq!(product_check(left, right, &mut product_transcript), Ok(true));
    assert_eq!(rational_check(left, right, &mut rational_transcript), Ok(true));
}

#[test]
fn mutation_fails() {
    let (left_values, left_tags) = column(&[1, 2, 3], &[0, 1, 2]);
    let (right_values, right_tags) = column(&[1, 2, 4], &[0, 1, 2]);
    let mut transcript = MerlinTranscript::new("permcheck-test");
    assert_eq!(
        product_check(
            TaggedColumn { values: &left_values, tags: &left_tags },
            TaggedColumn { values: &right_values, tags: &right_tags },
            &mut transcript
        ),
        Ok(false)
    );
}

#[test]
fn denominator_poles_are_explicit() {
    assert_eq!(rational_fingerprint(&[Scalar::zero()], Scalar::zero()), Err(Error::Pole));
}

#[test]
fn columns_of_different_lengths_are_rejected() {
    let (left_values, left_tags) = column(&[1, 2], &[0, 1]);
    let (right_values, right_tags) = column(&[1, 2, 3], &[0, 1, 2]);
    let mut transcript = MerlinTranscript::new("permcheck-test");
    assert_eq!(
        product_check(
            TaggedColumn { values: &left_values, tags: &left_tags },
            TaggedColumn { values: &right_values, tags: &right_tags },
            &mut transcript
        ),
        Err(Error::LengthMismatch)
    );
    let mut transcript = MerlinTranscript::new("permcheck-test");
    assert_eq!(
        rational_check(
            TaggedColumn { values: &left_values, tags: &right_tags },
            TaggedColumn { values: &right_values, tags: &right_tags },
            &mut transcript
        ),
        Err(Error::LengthMismatch)
    );
}

#[test]
fn fingerprints_have_exact_values() {
    // (2 + 1)(2 + 3) = 15 and 1/(1 + 1) + 1/(1 + 3) = 3/4.
    assert_eq!(product_fingerprint(&[s(1), s(3)], s(2)), s(15));
    let sum = rational_fingerprint(&[s(1), s(3)], s(1)).unwrap();
    assert_eq!(sum.mul(&s(4)), s(3));
    assert_eq!(product_fingerprint(&[], s(7)), s(1));
}

#[test]
fn stream_estimates_have_exact_values() {
    assert_eq!(
        estimate_product_tree(5, 32),
        StreamEstimate {
            elements: 5,
            field_ops: 4,
            peak_field_elements: 5,
            passes: 4,
            bytes_read: 5 * 32 * 4,
            bytes_written: 5 * 32 * 3,
        }
    );
    assert_eq!(estimate_product_tree(0, 32).field_ops, 0);
    assert_eq!(estimate_product_tree(0, 32).passes, 1);
    assert_eq!(estimate_product_tree(8, 1).passes, 4);
    assert_eq!(
        estimate_rational_stream(6, 32),
        StreamEstimate {
            elements: 6,
            field_ops: 12,
            peak_field_elements: 3,
            passes: 1,
            bytes_read: 192,
            bytes_written: 0,
        }
    );
}

#[test]
fn default_field_is_255_bits() {
    assert_eq!(snark_lab::field::modulus_bit_size(), 255);
}
