use vstd::prelude::*;

pub mod arith;
pub mod bytes;
pub mod codec;
pub mod curve;
pub mod field;
pub mod field_laws;
pub mod interchange;
pub mod ipa;
pub mod ipa_backend_codec;
pub mod ipa_backend_integration;
pub mod ipa_blinded_path;
pub mod ipa_blinding;
pub mod ipa_commitment;
pub mod ipa_curve;
pub mod ipa_evaluation;
pub mod ipa_generators;
pub mod ipa_opening_statement;
pub mod ipa_proof;
pub mod ipa_prover_opening;
pub mod ipa_reduction;
pub mod ipa_serialization;
pub mod ipa_srs_loader;
pub mod ipa_srs_provenance;
pub mod ipa_round_commitments;
pub mod ipa_transcript;
pub mod ipa_verifier_opening;
pub mod multilinear;
pub mod oracle;
pub mod pcs;
pub mod permcheck;
pub mod sumcheck;
pub mod sumcheck_codec;
pub mod sumcheck_general;
pub mod sumcheck_laws;
pub mod sumcheck_oracle;
pub mod sumcheck_oracle_codec;
pub mod sumcheck_round;
pub mod transcript;
pub mod zerocheck;

verus! {
} // verus!
