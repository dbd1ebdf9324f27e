use zkproof::artifact::{Mode, Proof, VerifyingKey};
use zkproof::circuit::{Constraint, ConstraintSystem, Term};
use zkproof::error::{DecodeError, ProveError, SetupError, VerifyError};
use zkproof::field::FieldElement;
use zkproof::groth16::{generate, prove, verify, verify_encoded, Randomness};

fn term(wire: usize, coeff: u64) -> Term {
    Term { wire, coeff: FieldElement::from_u64(coeff) }
}

/// The circuit `c = a * b` with wires `[1, c, a, b]`.
fn multiplier() -> ConstraintSystem {
    let constraint = Constraint { a: vec![term(2, 1)], b: vec![term(3, 1)], c: vec![term(1, 1)] };
    ConstraintSystem::new(2, 4, vec![constraint]).unwrap()
}

fn assignment(a: u64, b: u64, c: u64) -> Vec<FieldElement> {
    vec![
        FieldElement::one(),
        FieldElement::from_u64(c),
        FieldElement::from_u64(a),
        FieldElement::from_u64(b),
    ]
}

#[test]
fn multiplication_proof_verifies() {
    let system = multiplier();
    let (pk, vk) = generate(&system, Randomness::from_seed([7u8; 32])).unwrap();
    let witness = assignment(3, 3, 9);
    let proof = prove(&pk, &system, &witness, Randomness::from_seed([9u8; 32])).unwrap();
    let inputs = vec![FieldElement::from_u64(9)];
    assert_eq!(verify(&vk, &inputs, &proof), Ok(true));
    assert_eq!(proof.as_bytes().len(), 128);
}

#[test]
fn wrong_public_input_is_rejected_cleanly() {
    let system = multiplier();
    let (pk, vk) = generate(&system, Randomness::from_seed([7u8; 32])).unwrap();
    let proof = prove(&pk, &system, &assignment(3, 3, 9), Randomness::from_seed([9u8; 32])).unwrap();
    assert_eq!(verify(&vk, &vec![FieldElement::from_u64(10)], &proof), Ok(false));
}

#[test]
fn wrong_input_count_is_an_error() {
    let system = multiplier();
    let (pk, vk) = generate(&system, Randomness::from_seed([7u8; 32])).unwrap();
    let proof = prove(&pk, &system, &assignment(3, 3, 9), Randomness::from_seed([9u8; 32])).unwrap();
    assert_eq!(
        verify(&vk, &vec![], &proof),
        Err(VerifyError::InputCount { expected: 1, found: 0 })
    );
}

#[test]
fn unsatisfied_assignment_is_refused() {
    let system = multiplier();
    let (pk, _vk) = generate(&system, Randomness::from_seed([7u8; 32])).unwrap();
    let result = prove(&pk, &system, &assignment(3, 3, 10), Randomness::from_seed([9u8; 32]));
    assert_eq!(result, Err(ProveError::Unsatisfied { constraint: 0 }));
}

#[test]
fn circuit_without_constraints_has_no_keys() {
    let system = ConstraintSystem::new(1, 1, vec![]).unwrap();
    let result = generate(&system, Randomness::from_seed([1u8; 32]));
    assert_eq!(result.err(), Some(SetupError::NoConstraints));
}

#[test]
fn proof_round_trips_in_both_modes() {
    let system = multiplier();
    let (pk, vk) = generate(&system, Randomness::from_seed([7u8; 32])).unwrap();
    let proof = prove(&pk, &system, &assignment(3, 3, 9), Randomness::from_seed([9u8; 32])).unwrap();
    let compressed = proof.encode(Mode::Compressed).unwrap();
    assert_eq!(compressed.len(), 128);
    assert_eq!(Proof::decode(&compressed, Mode::Compressed).unwrap(), proof);
    let uncompressed = proof.encode(Mode::Uncompressed).unwrap();
    assert_eq!(uncompressed.len(), 256);
    assert_eq!(Proof::decode(&uncompressed, Mode::Uncompressed).unwrap(), proof);
    let key = vk.encode(Mode::Uncompressed).unwrap();
    assert_eq!(VerifyingKey::decode(&key, Mode::Uncompressed).unwrap(), vk);
}

/// The circuit `out = in * in` with wires `[1, out, in]`.
fn squarer() -> ConstraintSystem {
    let constraint = Constraint { a: vec![term(2, 1)], b: vec![term(2, 1)], c: vec![term(1, 1)] };
    ConstraintSystem::new(2, 3, vec![constraint]).unwrap()
}

#[test]
fn squaring_proof_verifies() {
    let system = squarer();
    let (pk, vk) = generate(&system, Randomness::from_seed([3u8; 32])).unwrap();
    let witness =
        vec![FieldElement::one(), FieldElement::from_u64(9), FieldElement::from_u64(3)];
    let proof = prove(&pk, &system, &witness, Randomness::from_seed([4u8; 32])).unwrap();
    assert_eq!(verify(&vk, &vec![FieldElement::from_u64(9)], &proof), Ok(true));
    let slot = zkproof::encoder::encode_public_inputs(
        &vec![FieldElement::from_u64(9)],
        zkproof::encoder::PublicInputLayout::SingleSlot(zkproof::encoder::SlotPolicy::FirstOnly),
    )
    .unwrap();
    let mut expected = vec![0u8; 32];
    expected[0] = 9;
    assert_eq!(slot, expected);
}

#[test]
fn an_unrelated_verifying_key_never_accepts() {
    let system = multiplier();
    let (pk, _vk) = generate(&system, Randomness::from_seed([7u8; 32])).unwrap();
    let (_other_pk, other_vk) = generate(&system, Randomness::from_seed([8u8; 32])).unwrap();
    let proof = prove(&pk, &system, &assignment(3, 3, 9), Randomness::from_seed([9u8; 32])).unwrap();
    let verdict = verify(&other_vk, &vec![FieldElement::from_u64(9)], &proof);
    assert_ne!(verdict, Ok(true));
    assert_eq!(verdict, Ok(false));
    let (_pk3, wider_vk) = generate(&three_outputs(), Randomness::from_seed([8u8; 32])).unwrap();
    let verdict = verify(&wider_vk, &vec![FieldElement::from_u64(9)], &proof);
    assert_eq!(verdict, Err(VerifyError::InputCount { expected: 3, found: 1 }));
}

/// A circuit with three public outputs, each the product of `a` and `b`.
fn three_outputs() -> ConstraintSystem {
    let gate = |out: usize| Constraint {
        a: vec![term(4, 1)],
        b: vec![term(5, 1)],
        c: vec![term(out, 1)],
    };
    ConstraintSystem::new(4, 6, vec![gate(1), gate(2), gate(3)]).unwrap()
}

#[test]
fn a_tampered_proof_never_verifies() {
    let system = multiplier();
    let (pk, vk) = generate(&system, Randomness::from_seed([7u8; 32])).unwrap();
    let proof = prove(&pk, &system, &assignment(3, 3, 9), Randomness::from_seed([9u8; 32])).unwrap();
    let inputs = vec![FieldElement::from_u64(9)];
    let good = proof.as_bytes().to_vec();
    let mut decoded = 0;
    for bit in [0usize, 5, 77, 130, 255, 256, 300, 511, 600, 767, 768, 900, 1016, 1023] {
        let mut bytes = good.clone();
        bytes[bit / 8] ^= 1 << (bit % 8);
        match Proof::decode(&bytes, Mode::Compressed) {
            Ok(tampered) => {
                decoded += 1;
                assert_eq!(verify(&vk, &inputs, &tampered), Ok(false), "bit {}", bit);
            }
            Err(_) => {}
        }
        let key = vk.as_bytes();
        let slot = inputs[0].encode();
        let verdict = zkproof::groth16::verify_encoded(key, &slot, &bytes, Mode::Compressed);
        assert_ne!(verdict, Ok(true), "bit {}", bit);
    }
    assert!(decoded > 0);
}

#[test]
fn verification_is_deterministic() {
    let system = multiplier();
    let (pk, vk) = generate(&system, Randomness::from_seed([7u8; 32])).unwrap();
    let proof = prove(&pk, &system, &assignment(3, 3, 9), Randomness::from_seed([9u8; 32])).unwrap();
    let inputs = vec![FieldElement::from_u64(9)];
    assert_eq!(verify(&vk, &inputs, &proof), verify(&vk, &inputs, &proof));
    let wrong = vec![FieldElement::from_u64(8)];
    assert_eq!(verify(&vk, &wrong, &proof), verify(&vk, &wrong, &proof));
}

#[test]
fn the_same_seed_gives_the_same_keys_and_proof() {
    let system = multiplier();
    let (pk, vk) = generate(&system, Randomness::from_seed([7u8; 32])).unwrap();
    let (pk_again, vk_again) = generate(&system, Randomness::from_seed([7u8; 32])).unwrap();
    assert_eq!(pk, pk_again);
    assert_eq!(vk, vk_again);
    let (pk_other, _) = generate(&system, Randomness::from_seed([8u8; 32])).unwrap();
    assert_ne!(pk, pk_other);
    let one = prove(&pk, &system, &assignment(3, 3, 9), Randomness::from_seed([9u8; 32])).unwrap();
    let two = prove(&pk, &system, &assignment(3, 3, 9), Randomness::from_seed([9u8; 32])).unwrap();
    let three = prove(&pk, &system, &assignment(3, 3, 9), Randomness::from_seed([10u8; 32])).unwrap();
    assert_eq!(one, two);
    assert_ne!(one, three);
}

#[test]
fn fresh_randomness_proves_too() {
    let system = multiplier();
    let (pk, vk) = generate(&system, Randomness::fresh()).unwrap();
    let first = prove(&pk, &system, &assignment(2, 5, 10), Randomness::fresh()).unwrap();
    let second = prove(&pk, &system, &assignment(2, 5, 10), Randomness::fresh()).unwrap();
    assert_ne!(first, second);
    assert_eq!(verify(&vk, &vec![FieldElement::from_u64(10)], &first), Ok(true));
    assert_eq!(verify(&vk, &vec![FieldElement::from_u64(10)], &second), Ok(true));
}

#[test]
fn a_key_of_another_shape_is_a_mismatch() {
    let (pk, _vk) = generate(&squarer(), Randomness::from_seed([3u8; 32])).unwrap();
    let result = prove(&pk, &multiplier(), &assignment(3, 3, 9), Randomness::from_seed([9u8; 32]));
    assert_eq!(result, Err(ProveError::KeyMismatch));
}

#[test]
fn a_short_or_unanchored_assignment_is_refused() {
    let system = multiplier();
    let (pk, _vk) = generate(&system, Randomness::from_seed([7u8; 32])).unwrap();
    let short = vec![FieldElement::one(), FieldElement::from_u64(9)];
    assert_eq!(
        prove(&pk, &system, &short, Randomness::from_seed([9u8; 32])),
        Err(ProveError::WrongWireCount { expected: 4, found: 2 })
    );
    let mut unanchored = assignment(3, 3, 9);
    unanchored[0] = FieldElement::from_u64(2);
    assert_eq!(
        prove(&pk, &system, &unanchored, Randomness::from_seed([9u8; 32])),
        Err(ProveError::ConstantWireNotOne)
    );
}

#[test]
fn keys_round_trip_in_both_modes() {
    let system = multiplier();
    let (pk, vk) = generate(&system, Randomness::from_seed([7u8; 32])).unwrap();
    for mode in [Mode::Compressed, Mode::Uncompressed] {
        let bytes = pk.encode(mode).unwrap();
        assert_eq!(zkproof::artifact::ProvingKey::decode(&bytes, mode).unwrap(), pk);
        let bytes = vk.encode(mode).unwrap();
        assert_eq!(VerifyingKey::decode(&bytes, mode).unwrap(), vk);
    }
    assert_eq!(vk.serialize_compressed(), vk.as_bytes().to_vec());
    assert_eq!(vk.serialize_compressed().len(), 232 + 2 * 32);
    assert_eq!(vk.serialize_uncompressed().unwrap().len(), 64 + 3 * 128 + 8 + 2 * 64);
}

#[test]
fn verification_from_encodings_tells_malformed_from_false() {
    let system = multiplier();
    let (pk, vk) = generate(&system, Randomness::from_seed([7u8; 32])).unwrap();
    let proof = prove(&pk, &system, &assignment(3, 3, 9), Randomness::from_seed([9u8; 32])).unwrap();
    let key = vk.as_bytes();
    let good = FieldElement::from_u64(9).encode();
    let bad = FieldElement::from_u64(10).encode();
    assert_eq!(verify_encoded(key, &good, proof.as_bytes(), Mode::Compressed), Ok(true));
    assert_eq!(verify_encoded(key, &bad, proof.as_bytes(), Mode::Compressed), Ok(false));
    assert_eq!(
        verify_encoded(key, &[0xffu8; 32], proof.as_bytes(), Mode::Compressed),
        Err(VerifyError::Undecodable(DecodeError::ValueOutOfRange { index: 0 }))
    );
    assert_eq!(
        verify_encoded(key, &good, &proof.as_bytes()[..100], Mode::Compressed),
        Err(VerifyError::Undecodable(DecodeError::Malformed))
    );
    assert_eq!(
        verify_encoded(&key[..200], &good, proof.as_bytes(), Mode::Compressed),
        Err(VerifyError::Undecodable(DecodeError::Malformed))
    );
    let mut trailing = proof.as_bytes().to_vec();
    trailing.push(0);
    assert_eq!(
        verify_encoded(key, &good, &trailing, Mode::Compressed),
        Err(VerifyError::Undecodable(DecodeError::NotCanonical))
    );
    let key_wide = vk.serialize_uncompressed().unwrap();
    let proof_wide = proof.serialize_uncompressed().unwrap();
    assert_eq!(verify_encoded(&key_wide, &good, &proof_wide, Mode::Uncompressed), Ok(true));
}
