# snark_lab

Verified building blocks for interactive proofs over the BLS12-381 scalar
field: multilinear extensions, Fiat-Shamir transcripts, Sumcheck (plain,
general and oracle-backed), Zerocheck, PermCheck, an inner-product-argument
polynomial commitment with blinding, its binary formats and SRS loading, and
an educational F_97 transcript verifier.

Layout:

- `src/` is the library. Every function carries a contract that Verus proves.
  Field and curve arithmetic (arkworks), Merlin transcripts, SHA-256 and
  UTF-8 decoding are reached through small trusted wrappers in `field.rs`,
  `curve.rs`, `transcript.rs`, `ipa_srs_provenance.rs` and `ipa_srs_loader.rs`;
  their doc comments say what is assumed of the outside code.
- Laws of the library are public proof functions, for example
  `sumcheck_laws::lemma_honest_proof_verifies`,
  `sumcheck_general::lemma_honest_general_proof_verifies`,
  `sumcheck_oracle::lemma_honest_oracle_proof_verifies`,
  `oracle::lemma_transparent_opening_verifies`,
  `zerocheck::lemma_zero_constraints_verify`,
  `permcheck::lemma_permuted_columns_agree`,
  `multilinear::lemma_extension_interpolates`,
  `ipa_evaluation::lemma_basis_inner_product_is_evaluation` and the codec
  round trips in `sumcheck_codec`, `sumcheck_oracle_codec`,
  `ipa_serialization`, `ipa_backend_codec` and `ipa_srs_loader`.
- `tests/` exercises the library on concrete values.
- `app/` is the command-line front end (`verify-transcript`, `ipa-demo`,
  `ipa-srs-validate`): argument handling, file reading, JSON parsing and
  printing around the library.
