use snark_lab::field::Scalar;
use snark_lab::ipa_generators::{
    bind_ipa_generator_basis, expected_ipa_generator_count, IpaGeneratorBasis, IpaGeneratorBasisError,
};
use snark_lab::transcript::{MerlinTranscript, ProofTranscript};

fn generator(prefix: u8, index: usize) -> Vec<u8> {
    vec![prefix, index as u8 + 1, index as u8 + 17]
}

fn basis(variables: usize) -> IpaGeneratorBasis {
    let count = expected_ipa_generator_count(variables).unwrap();
    IpaGeneratorBasis::new(
        variables,
        (0..count).map(|index| generator(1, index)).collect(),
        (0..count).map(|index| generator(2, index)).collect(),
        vec![9, 9, 9],
    )
    .unwrap()
}

fn bound_challenge(basis: &IpaGeneratorBasis) -> Scalar {
    let mut transcript = MerlinTranscript::new("ipa-generator-basis-test");
    bind_ipa_generator_basis(&mut transcript, basis).unwrap();
    transcript.challenge_scalar("after-generator-basis")
}

#[test]
fn expected_generator_count_is_power_of_two() {
    assert_eq!(expected_ipa_generator_count(0), Ok(1));
    assert_eq!(expected_ipa_generator_count(1), Ok(2));
    assert_eq!(expected_ipa_generator_count(4), Ok(16));
}

#[test]
fn expected_generator_count_rejects_overflow() {
    assert_eq!(
        expected_ipa_generator_count(usize::BITS as usize),
        Err(IpaGeneratorBasisError::VariableCountOverflow { variables: usize::BITS as usize })
    );
}

#[test]
fn generator_basis_accepts_valid_shape() {
    let basis = basis(3);
    assert_eq!(basis.variables, 3);
    assert_eq!(basis.generator_count(), Ok(8));
    assert_eq!(basis.validate(), Ok(()));
}

#[test]
fn generator_basis_rejects_wrong_polynomial_count() {
    let count = expected_ipa_generator_count(2).unwrap();
    assert_eq!(
        IpaGeneratorBasis::new(
            2,
            (0..count - 1).map(|index| generator(1, index)).collect(),
            (0..count).map(|index| generator(2, index)).collect(),
            vec![9],
        ),
        Err(IpaGeneratorBasisError::InvalidGeneratorCount { label: "polynomial", expected: 4, actual: 3 })
    );
}

#[test]
fn generator_basis_rejects_empty_generator() {
    let count = expected_ipa_generator_count(1).unwrap();
    let mut polynomial_generators = (0..count).map(|index| generator(1, index)).collect::<Vec<_>>();
    polynomial_generators[0] = Vec::new();
    assert_eq!(
        IpaGeneratorBasis::new(
            1,
            polynomial_generators,
            (0..count).map(|index| generator(2, index)).collect(),
            vec![9],
        ),
        Err(IpaGeneratorBasisError::EmptyGenerator { label: "polynomial", index: 0 })
    );
}

#[test]
fn generator_basis_rejects_all_zero_generator() {
    let count = expected_ipa_generator_count(1).unwrap();
    let mut evaluation_generators = (0..count).map(|index| generator(2, index)).collect::<Vec<_>>();
    evaluation_generators[1] = vec![0, 0, 0];
    assert_eq!(
        IpaGeneratorBasis::new(
            1,
            (0..count).map(|index| generator(1, index)).collect(),
            evaluation_generators,
            vec![9],
        ),
        Err(IpaGeneratorBasisError::AllZeroGenerator { label: "evaluation", index: 1 })
    );
}

#[test]
fn generator_basis_rejects_duplicate_generator() {
    let count = expected_ipa_generator_count(1).unwrap();
    let polynomial_generators = (0..count).map(|index| generator(1, index)).collect::<Vec<_>>();
    let mut evaluation_generators = (0..count).map(|index| generator(2, index)).collect::<Vec<_>>();
    evaluation_generators[0] = polynomial_generators[1].clone();
    assert_eq!(
        IpaGeneratorBasis::new(1, polynomial_generators, evaluation_generators, vec![9]),
        Err(IpaGeneratorBasisError::DuplicateGenerator { label: "evaluation", index: 0 })
    );
}

#[test]
fn generator_basis_binding_is_deterministic() {
    let basis = basis(2);
    assert_eq!(bound_challenge(&basis), bound_challenge(&basis));
}

#[test]
fn generator_basis_binding_changes_when_generator_changes() {
    let a = basis(2);
    let mut b = basis(2);
    b.polynomial_generators[0] = vec![7, 7, 7];
    assert_ne!(bound_challenge(&a), bound_challenge(&b));
}
