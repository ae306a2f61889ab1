//! The generator basis of an IPA-style multilinear commitment, as canonical
//! byte encodings, with its shape checks and transcript binding.
use vstd::prelude::*;
use vstd::string::StringSliceAdditionalSpecFns;
use crate::arith::{lemma_pow2_monotone, lemma_pow2_positive, pow2};
use crate::bytes::{all_zero, contains_bytes, copy_bytes, is_all_zero};
use crate::field::u64_le_bytes;
use crate::transcript::{
    all_framable, append_indexed_bytes, byte_strings, dom_sep_label, indexed_entries,
    lemma_ascii_label, message_entry, modulus_le_bytes, ProofTranscript, TranscriptEntry,
};

verus! {

#[derive(Clone, Copy, Debug, PartialEq, Eq)]
pub enum IpaGeneratorBasisError {
    VariableCountOverflow { variables: usize },
    InvalidGeneratorCount { label: &'static str, expected: usize, actual: usize },
    EmptyGenerator { label: &'static str, index: usize },
    AllZeroGenerator { label: &'static str, index: usize },
    DuplicateGenerator { label: &'static str, index: usize },
}

/// Generator basis of an IPA-style multilinear commitment, each generator held
/// as the canonical encoding of a group element.
#[derive(Clone, Debug, PartialEq, Eq)]
pub struct IpaGeneratorBasis {
    pub variables: usize,
    pub polynomial_generators: Vec<Vec<u8>>,
    pub evaluation_generators: Vec<Vec<u8>>,
    pub blinding_generator: Vec<u8>,
}

/// The number of generators for `variables` variables: `2^variables` when it
/// fits a `usize`.
pub open spec fn generator_count(variables: usize) -> Result<usize, IpaGeneratorBasisError> {
    if variables < usize::BITS {
        Ok(pow2(variables as nat) as usize)
    } else {
        Err(IpaGeneratorBasisError::VariableCountOverflow { variables })
    }
}

/// The check of one generator against the generators accepted before it.
pub open spec fn single_generator_check(label: &'static str, index: nat, generator: Seq<u8>, seen: Seq<Seq<u8>>) -> Result<
    (),
    IpaGeneratorBasisError,
> {
    if generator.len() == 0 {
        Err(IpaGeneratorBasisError::EmptyGenerator { label, index: index as usize })
    } else if is_all_zero(generator) {
        Err(IpaGeneratorBasisError::AllZeroGenerator { label, index: index as usize })
    } else if seen.contains(generator) {
        Err(IpaGeneratorBasisError::DuplicateGenerator { label, index: index as usize })
    } else {
        Ok(())
    }
}

/// The checks of the first `count` generators of a collection, in order, each
/// against `seen` and the generators of the collection before it.
pub open spec fn collection_check(
    label: &'static str,
    generators: Seq<Seq<u8>>,
    seen: Seq<Seq<u8>>,
    count: nat,
) -> Result<(), IpaGeneratorBasisError>
    decreases count,
{
    if count == 0 {
        Ok(())
    } else {
        match collection_check(label, generators, seen, (count - 1) as nat) {
            Err(error) => Err(error),
            Ok(()) => single_generator_check(
                label,
                (count - 1) as nat,
                generators[count - 1],
                seen + generators.take(count - 1),
            ),
        }
    }
}

/// A collection of the expected size whose generators pass their checks.
pub open spec fn sized_collection_check(
    label: &'static str,
    expected: usize,
    generators: Seq<Seq<u8>>,
    seen: Seq<Seq<u8>>,
) -> Result<(), IpaGeneratorBasisError> {
    if generators.len() != expected {
        Err(IpaGeneratorBasisError::InvalidGeneratorCount { label, expected, actual: generators.len() as usize })
    } else {
        collection_check(label, generators, seen, generators.len())
    }
}

/// The outcome of validating a basis given as byte strings.
pub open spec fn basis_check(
    variables: usize,
    polynomial: Seq<Seq<u8>>,
    evaluation: Seq<Seq<u8>>,
    blinding: Seq<u8>,
) -> Result<(), IpaGeneratorBasisError> {
    match generator_count(variables) {
        Err(error) => Err(error),
        Ok(expected) => match sized_collection_check("polynomial", expected, polynomial, seq![]) {
            Err(error) => Err(error),
            Ok(()) => match sized_collection_check("evaluation", expected, evaluation, polynomial) {
                Err(error) => Err(error),
                Ok(()) => single_generator_check("blinding", 0, blinding, polynomial + evaluation),
            },
        },
    }
}

/// `2^k` fits a `usize` for every `k` below its bit width.
pub proof fn lemma_pow2_fits_usize(k: nat)
    requires
        k < usize::BITS,
    ensures
        pow2(k) <= usize::MAX,
        2 * pow2(k) <= usize::MAX + 1,
{
    lemma_pow2_monotone(k, (usize::BITS - 1) as nat);
    if usize::BITS == 64 {
        assert(pow2(63) == 0x8000_0000_0000_0000) by {
            reveal_with_fuel(pow2, 64);
        }
    } else {
        assert(pow2(31) == 0x8000_0000) by {
            reveal_with_fuel(pow2, 32);
        }
    }
}

/// A power of two that fits a `usize` has an exponent below its bit width.
pub proof fn lemma_pow2_below_usize_bits(k: nat)
    requires
        pow2(k) <= usize::MAX,
    ensures
        k < usize::BITS,
{
    if k >= usize::BITS {
        lemma_pow2_monotone(usize::BITS as nat, k);
        if usize::BITS == 64 {
            assert(pow2(64) == 0x1_0000_0000_0000_0000) by {
                reveal_with_fuel(pow2, 65);
            }
        } else {
            assert(pow2(32) == 0x1_0000_0000) by {
                reveal_with_fuel(pow2, 33);
            }
        }
    }
}

/// A multilinear table over `variables` variables has `2^variables` entries.
pub fn expected_ipa_generator_count(variables: usize) -> (r: Result<usize, IpaGeneratorBasisError>)
    ensures
        r == generator_count(variables),
        r matches Ok(count) ==> count as nat == pow2(variables as nat),
{
    if variables >= usize::BITS as usize {
        return Err(IpaGeneratorBasisError::VariableCountOverflow { variables });
    }
    proof {
        lemma_pow2_fits_usize(variables as nat);
    }
    let mut count: usize = 1;
    let mut k: usize = 0;
    while k < variables
        invariant
            k <= variables,
            variables < usize::BITS,
            count as nat == pow2(k as nat),
        decreases variables - k,
    {
        proof {
            lemma_pow2_monotone((k + 1) as nat, variables as nat);
            lemma_pow2_fits_usize(variables as nat);
        }
        count = count * 2;
        k = k + 1;
    }
    Ok(count)
}

fn validate_single_generator(label: &'static str, index: usize, generator: &[u8], seen: &mut Vec<Vec<u8>>) -> (r: Result<
    (),
    IpaGeneratorBasisError,
>)
    ensures
        r == single_generator_check(label, index as nat, generator@, byte_strings(old(seen)@)),
        r is Ok ==> byte_strings(final(seen)@) == byte_strings(old(seen)@).push(generator@),
{
    if generator.len() == 0 {
        return Err(IpaGeneratorBasisError::EmptyGenerator { label, index });
    }
    if all_zero(generator) {
        return Err(IpaGeneratorBasisError::AllZeroGenerator { label, index });
    }
    if contains_bytes(seen, generator) {
        return Err(IpaGeneratorBasisError::DuplicateGenerator { label, index });
    }
    let copy = copy_bytes(generator);
    seen.push(copy);
    assert(byte_strings(final(seen)@) =~= byte_strings(old(seen)@).push(generator@));
    Ok(())
}

fn validate_generator_collection(
    label: &'static str,
    expected: usize,
    generators: &[Vec<u8>],
    seen: &mut Vec<Vec<u8>>,
) -> (r: Result<(), IpaGeneratorBasisError>)
    ensures
        r == sized_collection_check(label, expected, byte_strings(generators@), byte_strings(old(seen)@)),
        r is Ok ==> byte_strings(final(seen)@) == byte_strings(old(seen)@) + byte_strings(generators@),
{
    if generators.len() != expected {
        return Err(
            IpaGeneratorBasisError::InvalidGeneratorCount { label, expected, actual: generators.len() },
        );
    }
    let ghost strings = byte_strings(generators@);
    let ghost before = byte_strings(seen@);
    let mut index: usize = 0;
    while index < generators.len()
        invariant
            index <= generators@.len(),
            generators@.len() == expected,
            strings == byte_strings(generators@),
            before == byte_strings(old(seen)@),
            byte_strings(seen@) == before + strings.take(index as int),
            collection_check(label, strings, before, index as nat) == Ok::<(), IpaGeneratorBasisError>(()),
        decreases generators@.len() - index,
    {
        assert(strings[index as int] == generators@[index as int]@);
        let ghost seen_before = byte_strings(seen@);
        let checked = validate_single_generator(label, index, generators[index].as_slice(), seen);
        assert(collection_check(label, strings, before, (index + 1) as nat) == single_generator_check(
            label,
            index as nat,
            strings[index as int],
            seen_before,
        ));
        if checked.is_err() {
            proof {
                lemma_collection_check_stays_rejected(
                    label,
                    strings,
                    before,
                    (index + 1) as nat,
                    strings.len(),
                );
            }
            return checked;
        }
        assert(strings.take(index + 1) =~= strings.take(index as int).push(strings[index as int]));
        index = index + 1;
    }
    assert(strings.take(index as int) =~= strings);
    Ok(())
}

/// Once a generator is rejected, checking more of the collection reports
/// that rejection.
pub proof fn lemma_collection_check_stays_rejected(
    label: &'static str,
    generators: Seq<Seq<u8>>,
    seen: Seq<Seq<u8>>,
    rejected: nat,
    count: nat,
)
    requires
        rejected <= count,
        collection_check(label, generators, seen, rejected) is Err,
    ensures
        collection_check(label, generators, seen, count) == collection_check(label, generators, seen, rejected),
    decreases count,
{
    if rejected < count {
        lemma_collection_check_stays_rejected(label, generators, seen, rejected, (count - 1) as nat);
    }
}

impl IpaGeneratorBasis {
    /// The generators as byte strings: polynomial, evaluation, blinding.
    pub open spec fn polynomial_view(&self) -> Seq<Seq<u8>> {
        byte_strings(self.polynomial_generators@)
    }

    pub open spec fn evaluation_view(&self) -> Seq<Seq<u8>> {
        byte_strings(self.evaluation_generators@)
    }

    pub open spec fn check(&self) -> Result<(), IpaGeneratorBasisError> {
        basis_check(self.variables, self.polynomial_view(), self.evaluation_view(), self.blinding_generator@)
    }

    pub fn new(
        variables: usize,
        polynomial_generators: Vec<Vec<u8>>,
        evaluation_generators: Vec<Vec<u8>>,
        blinding_generator: Vec<u8>,
    ) -> (r: Result<IpaGeneratorBasis, IpaGeneratorBasisError>)
        ensures
            match basis_check(
                variables,
                byte_strings(polynomial_generators@),
                byte_strings(evaluation_generators@),
                blinding_generator@,
            ) {
                Err(error) => r == Err::<IpaGeneratorBasis, IpaGeneratorBasisError>(error),
                Ok(()) => r matches Ok(basis) && basis.variables == variables
                    && basis.polynomial_generators@ == polynomial_generators@
                    && basis.evaluation_generators@ == evaluation_generators@
                    && basis.blinding_generator@ == blinding_generator@,
            },
    {
        let basis = IpaGeneratorBasis { variables, polynomial_generators, evaluation_generators, blinding_generator };
        match basis.validate() {
            Err(error) => Err(error),
            Ok(()) => Ok(basis),
        }
    }

    pub fn generator_count(&self) -> (r: Result<usize, IpaGeneratorBasisError>)
        ensures
            r == generator_count(self.variables),
    {
        expected_ipa_generator_count(self.variables)
    }

    pub fn validate(&self) -> (r: Result<(), IpaGeneratorBasisError>)
        ensures
            r == self.check(),
    {
        let expected = match expected_ipa_generator_count(self.variables) {
            Err(error) => {
                return Err(error);
            },
            Ok(expected) => expected,
        };
        let mut seen: Vec<Vec<u8>> = Vec::new();
        assert(byte_strings(seen@) =~= seq![]);
        match validate_generator_collection("polynomial", expected, self.polynomial_generators.as_slice(), &mut seen) {
            Err(error) => {
                return Err(error);
            },
            Ok(()) => {},
        }
        assert(byte_strings(seen@) =~= self.polynomial_view());
        match validate_generator_collection("evaluation", expected, self.evaluation_generators.as_slice(), &mut seen) {
            Err(error) => {
                return Err(error);
            },
            Ok(()) => {},
        }
        validate_single_generator("blinding", 0, self.blinding_generator.as_slice(), &mut seen)
    }
}

/// What binding a generator basis appends to a transcript.
pub open spec fn generator_basis_entries(
    variables: usize,
    count: usize,
    polynomial: Seq<Seq<u8>>,
    evaluation: Seq<Seq<u8>>,
    blinding: Seq<u8>,
) -> Seq<TranscriptEntry> {
    seq![
        message_entry(dom_sep_label(), "snark-lab/ipa-generator-basis/v1".spec_bytes()),
        message_entry("field-modulus".spec_bytes(), modulus_le_bytes()),
        message_entry("ipa-generator-variables".spec_bytes(), u64_le_bytes(variables as u64)),
        message_entry("ipa-generator-count".spec_bytes(), u64_le_bytes(count as u64)),
    ] + indexed_entries(
        "ipa-polynomial-generator-index".spec_bytes(),
        "ipa-polynomial-generator".spec_bytes(),
        polynomial,
    ) + indexed_entries(
        "ipa-evaluation-generator-index".spec_bytes(),
        "ipa-evaluation-generator".spec_bytes(),
        evaluation,
    ) + seq![message_entry("ipa-blinding-generator".spec_bytes(), blinding)]
}

/// Binds the full generator basis into the transcript, after validating it,
/// so verifier challenges depend on the exact generator material.
pub fn bind_ipa_generator_basis<T: ProofTranscript>(transcript: &mut T, basis: &IpaGeneratorBasis) -> (r: Result<
    (),
    IpaGeneratorBasisError,
>)
    requires
        all_framable(basis.polynomial_view()),
        all_framable(basis.evaluation_view()),
        basis.blinding_generator@.len() <= u32::MAX,
    ensures
        r == basis.check(),
        r is Err ==> final(transcript).entries() == old(transcript).entries(),
        r is Ok ==> final(transcript).entries() == old(transcript).entries() + generator_basis_entries(
            basis.variables,
            pow2(basis.variables as nat) as usize,
            basis.polynomial_view(),
            basis.evaluation_view(),
            basis.blinding_generator@,
        ),
{
    match basis.validate() {
        Err(error) => {
            return Err(error);
        },
        Ok(()) => {},
    }
    let count = match basis.generator_count() {
        Err(error) => {
            return Err(error);
        },
        Ok(count) => count,
    };
    proof {
        reveal_strlit("snark-lab/ipa-generator-basis/v1");
        lemma_ascii_label("snark-lab/ipa-generator-basis/v1");
    }
    transcript.append_domain_separator("snark-lab/ipa-generator-basis/v1");
    transcript.append_field_modulus();
    transcript.append_u64("ipa-generator-variables", basis.variables as u64);
    transcript.append_u64("ipa-generator-count", count as u64);
    append_indexed_bytes(
        transcript,
        "ipa-polynomial-generator-index",
        "ipa-polynomial-generator",
        basis.polynomial_generators.as_slice(),
    );
    append_indexed_bytes(
        transcript,
        "ipa-evaluation-generator-index",
        "ipa-evaluation-generator",
        basis.evaluation_generators.as_slice(),
    );
    transcript.append_bytes("ipa-blinding-generator", basis.blinding_generator.as_slice());
    assert(final(transcript).entries() =~= old(transcript).entries() + generator_basis_entries(
        basis.variables,
        count,
        basis.polynomial_view(),
        basis.evaluation_view(),
        basis.blinding_generator@,
    ));
    Ok(())
}

} // verus!
