use zkproof::circuit::{Constraint, ConstraintSystem, Term};
use zkproof::error::WitnessError;
use zkproof::field::FieldElement;
use zkproof::witness::{product_inputs, Binding, InputSignal, WitnessAssignment, WitnessBuilder};

fn signal(name: &str, len: usize) -> InputSignal {
    InputSignal { name: name.to_string(), len }
}

fn multiplier_system() -> ConstraintSystem {
    let one = FieldElement::one();
    let gate = Constraint {
        a: vec![Term { wire: 2, coeff: one }],
        b: vec![Term { wire: 3, coeff: one }],
        c: vec![Term { wire: 1, coeff: one }],
    };
    ConstraintSystem::new(2, 4, vec![gate]).unwrap()
}

fn multiplier_builder() -> WitnessBuilder {
    WitnessBuilder::new(vec![signal("a", 1), signal("b", 1)])
}

fn solved(numbers: &[u64]) -> Option<Vec<FieldElement>> {
    Some(numbers.iter().map(|n| FieldElement::from_u64(*n)).collect())
}

#[test]
fn bound_inputs_build_a_witness() {
    let mut builder = multiplier_builder();
    builder.bind("a", &[3]);
    builder.bind("b", &[3]);
    assert_eq!(builder.check(), Ok(()));
    let witness = builder.build(&multiplier_system(), solved(&[1, 9, 3, 3])).unwrap();
    assert_eq!(witness.values(), &solved(&[1, 9, 3, 3]).unwrap());
    assert_eq!(
        witness.public_inputs(&multiplier_system()),
        Some(vec![FieldElement::from_u64(9)])
    );
}

#[test]
fn binding_a_nonexistent_input_fails_the_build() {
    let mut builder = multiplier_builder();
    builder.bind("a", &[3]);
    builder.bind("b", &[3]);
    builder.bind("nonexistent", &[1]);
    let expected = WitnessError::UnknownInput { name: "nonexistent".to_string() };
    assert_eq!(builder.check(), Err(expected.clone()));
    assert_eq!(builder.build(&multiplier_system(), solved(&[1, 9, 3, 3])), Err(expected.clone()));
    assert_eq!(builder.build(&multiplier_system(), None), Err(expected));
}

#[test]
fn a_missing_input_fails_the_build() {
    let mut builder = multiplier_builder();
    builder.bind("b", &[3]);
    let expected = WitnessError::MissingInput { name: "a".to_string() };
    assert_eq!(builder.check(), Err(expected.clone()));
    assert_eq!(builder.build(&multiplier_system(), solved(&[1, 9, 3, 3])), Err(expected));
}

#[test]
fn too_many_values_fail_the_build() {
    let mut builder = multiplier_builder();
    builder.bind("a", &[3]);
    builder.bind("b", &[3]);
    builder.bind("a", &[4]);
    assert_eq!(builder.check(), Err(WitnessError::SurplusInput { name: "a".to_string() }));
}

#[test]
fn values_under_one_name_keep_their_order() {
    let mut builder = WitnessBuilder::new(vec![signal("in", 3)]);
    builder.bind("in", &[1]);
    builder.bind("in", &[2]);
    builder.bind_element("in", FieldElement::from_u64(3));
    assert_eq!(builder.check(), Ok(()));
    let expected = vec![Binding {
        name: "in".to_string(),
        values: vec![FieldElement::from_u64(1), FieldElement::from_u64(2), FieldElement::from_u64(3)],
    }];
    assert_eq!(builder.bindings(), &expected);
}

#[test]
fn bound_values_are_reduced_modulo_the_prime() {
    let mut builder = WitnessBuilder::new(vec![signal("a", 1)]);
    // The prime plus five, little-endian.
    let mut bytes = Vec::new();
    for word in [0x43e1f593f0000001u64 + 5, 0x2833e84879b97091, 0xb85045b68181585d, 0x30644e72e131a029] {
        bytes.extend_from_slice(&word.to_le_bytes());
    }
    builder.bind("a", &bytes);
    assert_eq!(builder.bindings()[0].values, vec![FieldElement::from_u64(5)]);
}

#[test]
fn no_solution_is_its_own_error() {
    let mut builder = multiplier_builder();
    builder.bind("a", &[3]);
    builder.bind("b", &[3]);
    assert_eq!(builder.build(&multiplier_system(), None), Err(WitnessError::NoSolution));
}

#[test]
fn an_inconsistent_solution_is_refused() {
    let mut builder = multiplier_builder();
    builder.bind("a", &[3]);
    builder.bind("b", &[3]);
    let system = multiplier_system();
    assert_eq!(
        builder.build(&system, solved(&[1, 10, 3, 3])),
        Err(WitnessError::Unsatisfied { constraint: 0 })
    );
    assert_eq!(
        builder.build(&system, solved(&[1, 9, 3])),
        Err(WitnessError::WrongWireCount { expected: 4, found: 3 })
    );
    assert_eq!(
        builder.build(&system, solved(&[2, 9, 3, 3])),
        Err(WitnessError::ConstantWireNotOne)
    );
}

#[test]
fn building_twice_gives_the_same_witness() {
    let mut builder = multiplier_builder();
    builder.bind("a", &[3]);
    builder.bind("b", &[3]);
    let system = multiplier_system();
    let first = builder.build(&system, solved(&[1, 9, 3, 3]));
    let second = builder.build(&system, solved(&[1, 9, 3, 3]));
    assert_eq!(first, second);
    assert!(first.is_ok());
}

#[test]
fn public_inputs_need_enough_values() {
    let short = WitnessAssignment::from_values(vec![FieldElement::one()]);
    assert_eq!(short.public_inputs(&multiplier_system()), None);
}

#[test]
fn the_product_inputs_are_a_and_b() {
    let builder = product_inputs(3, 4);
    assert_eq!(builder.check(), Ok(()));
    let expected = vec![
        Binding { name: "a".to_string(), values: vec![FieldElement::from_u64(3)] },
        Binding { name: "b".to_string(), values: vec![FieldElement::from_u64(4)] },
    ];
    assert_eq!(builder.bindings(), &expected);
    let witness = builder.build(&multiplier_system(), solved(&[1, 12, 3, 4])).unwrap();
    assert_eq!(witness.public_inputs(&multiplier_system()), Some(vec![FieldElement::from_u64(12)]));
}
