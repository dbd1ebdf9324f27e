use zkproof::artifact::{tag, untag, Mode};
use zkproof::circuit::{Constraint, ConstraintSystem, Term};
use zkproof::encoder::{PublicInputLayout, SlotPolicy};
use zkproof::error::{DecodeError, EncodeError, PipelineError, ProveError, Stage};
use zkproof::field::FieldElement;
use zkproof::groth16::{generate, Randomness};
use zkproof::layout::{read_key_shape, read_key_slots, Shape};
use zkproof::pipeline::run_request;
use zkproof::text::to_hex;
use zkproof::witness::WitnessAssignment;

fn one_term(wire: usize) -> Vec<Term> {
    vec![Term { wire, coeff: FieldElement::one() }]
}

fn multiplier_circuit() -> ConstraintSystem {
    let gate = Constraint { a: one_term(2), b: one_term(3), c: one_term(1) };
    ConstraintSystem::new(2, 4, vec![gate]).unwrap()
}

fn witness(numbers: &[u64]) -> WitnessAssignment {
    WitnessAssignment::from_values(numbers.iter().map(|n| FieldElement::from_u64(*n)).collect())
}

#[test]
fn a_request_yields_a_full_report() {
    let system = multiplier_circuit();
    let (pk, vk) = generate(&system, Randomness::from_seed([1u8; 32])).unwrap();
    let layout = PublicInputLayout::SingleSlot(SlotPolicy::FirstOnly);
    let report =
        run_request(&pk, &vk, &system, &witness(&[1, 9, 3, 3]), layout, Randomness::from_seed([2u8; 32]))
            .unwrap();
    assert!(report.verified);
    let mut slot = vec![0u8; 32];
    slot[0] = 0x09;
    assert_eq!(report.public_inputs, slot);
    assert_eq!(report.public_inputs_concatenated, slot);
    assert_eq!(report.public_inputs_hex, format!("09{}", "00".repeat(31)));
    assert_eq!(report.public_inputs_hex.len(), 64);
    assert_eq!(report.verifying_key, vk.as_bytes().to_vec());
    assert_eq!(report.proof_hex, to_hex(report.proof.as_bytes()));
    assert_eq!(report.proof_hex.len(), 256);
    assert_eq!(report.verifying_key_hex, to_hex(vk.as_bytes()));
}

#[test]
fn a_request_stops_at_the_first_failing_stage() {
    let system = multiplier_circuit();
    let (pk, vk) = generate(&system, Randomness::from_seed([1u8; 32])).unwrap();
    let layout = PublicInputLayout::Concatenated;
    let result =
        run_request(&pk, &vk, &system, &witness(&[1, 8, 3, 3]), layout, Randomness::from_seed([2u8; 32]));
    let error = result.unwrap_err();
    assert_eq!(error, PipelineError::Prove(ProveError::Unsatisfied { constraint: 0 }));
    assert_eq!(error.stage(), Stage::Prove);
}

#[test]
fn a_request_without_public_inputs_cannot_fill_a_slot() {
    let gate = Constraint { a: one_term(1), b: one_term(2), c: one_term(0) };
    let system = ConstraintSystem::new(1, 3, vec![gate]).unwrap();
    let (pk, vk) = generate(&system, Randomness::from_seed([1u8; 32])).unwrap();
    let layout = PublicInputLayout::SingleSlot(SlotPolicy::RejectSurplus);
    let result =
        run_request(&pk, &vk, &system, &witness(&[1, 1, 1]), layout, Randomness::from_seed([2u8; 32]));
    let error = result.unwrap_err();
    assert_eq!(error, PipelineError::Encode(EncodeError::NoPublicInputs));
    assert_eq!(error.stage(), Stage::Encode);
}

#[test]
fn tags_frame_an_encoding() {
    assert_eq!(tag(Mode::Compressed, &[7, 8]), vec![0, 7, 8]);
    assert_eq!(tag(Mode::Uncompressed, &[]), vec![1]);
    assert_eq!(untag(&[0, 7, 8]), Ok((Mode::Compressed, vec![7, 8])));
    assert_eq!(untag(&[1]), Ok((Mode::Uncompressed, vec![])));
    assert_eq!(untag(&[2, 7]), Err(DecodeError::UnknownTag { tag: 2 }));
    assert_eq!(untag(&[]), Err(DecodeError::MissingTag));
}

#[test]
fn the_layout_of_keys_is_read_from_their_bytes() {
    let system = multiplier_circuit();
    let (pk, vk) = generate(&system, Randomness::from_seed([1u8; 32])).unwrap();
    assert_eq!(read_key_slots(vk.as_bytes()), Some(2));
    let shape = read_key_shape(pk.as_bytes()).unwrap();
    assert_eq!(shape, Shape { slots: 2, a: 4, b1: 4, b2: 4, h: shape.h, l: 2 });
    assert_eq!(read_key_slots(&vk.as_bytes()[..231]), None);
    assert_eq!(read_key_slots(&[0u8; 232]), Some(0));
    assert_eq!(read_key_slots(&[0u8; 233]), None);
    assert_eq!(read_key_shape(vk.as_bytes()), None);
    let mut longer = pk.as_bytes().to_vec();
    longer.push(0);
    assert_eq!(read_key_shape(&longer), None);
}

#[test]
fn tagged_encodings_round_trip_and_reject_bad_tags() {
    let system = multiplier_circuit();
    let (pk, vk) = generate(&system, Randomness::from_seed([1u8; 32])).unwrap();
    for mode in [Mode::Compressed, Mode::Uncompressed] {
        let bytes = vk.encode_tagged(mode).unwrap();
        assert_eq!(bytes[0], if mode == Mode::Compressed { 0 } else { 1 });
        assert_eq!(&bytes[1..], &vk.encode(mode).unwrap()[..]);
        assert_eq!(zkproof::artifact::VerifyingKey::decode_tagged(&bytes).unwrap(), vk);
        let bytes = pk.encode_tagged(mode).unwrap();
        assert_eq!(zkproof::artifact::ProvingKey::decode_tagged(&bytes).unwrap(), pk);
    }
    let mut wrong = vk.encode_tagged(Mode::Compressed).unwrap();
    wrong[0] = 9;
    assert_eq!(
        zkproof::artifact::VerifyingKey::decode_tagged(&wrong),
        Err(DecodeError::UnknownTag { tag: 9 })
    );
    wrong[0] = 1;
    assert!(zkproof::artifact::VerifyingKey::decode_tagged(&wrong).is_err());
    assert_eq!(zkproof::artifact::Proof::decode_tagged(&[]), Err(DecodeError::MissingTag));
    assert_eq!(zkproof::artifact::Proof::decode_tagged(&[0, 1, 2]), Err(DecodeError::Malformed));
}

#[test]
fn every_error_names_its_stage() {
    use_stage(PipelineError::Load(zkproof::error::ArtifactLoadError::NoConstantWire), Stage::Load);
    use_stage(PipelineError::Witness(zkproof::error::WitnessError::NoSolution), Stage::Witness);
    use_stage(PipelineError::Setup(zkproof::error::SetupError::NoConstraints), Stage::Setup);
    use_stage(PipelineError::Prove(ProveError::KeyMismatch), Stage::Prove);
    use_stage(PipelineError::Verify(zkproof::error::VerifyError::MalformedKey), Stage::Verify);
    use_stage(PipelineError::Encode(EncodeError::NoPublicInputs), Stage::Encode);
}

fn use_stage(error: PipelineError, stage: Stage) {
    assert_eq!(error.stage(), stage);
}
