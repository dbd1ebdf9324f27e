use zkproof::encoder::{
    decode_public_inputs, encode_public_inputs, PublicInputLayout, SlotPolicy,
};
use zkproof::error::{DecodeError, EncodeError};
use zkproof::field::FieldElement;

fn inputs(values: &[u64]) -> Vec<FieldElement> {
    values.iter().map(|v| FieldElement::from_u64(*v)).collect()
}

#[test]
fn single_slot_holds_the_first_input() {
    let layout = PublicInputLayout::SingleSlot(SlotPolicy::FirstOnly);
    let bytes = encode_public_inputs(&inputs(&[9]), layout).unwrap();
    let mut expected = vec![0u8; 32];
    expected[0] = 9;
    assert_eq!(bytes, expected);
}

#[test]
fn single_slot_drops_the_rest_only_when_told_to() {
    let many = inputs(&[9, 10, 11]);
    let first = encode_public_inputs(&many, PublicInputLayout::SingleSlot(SlotPolicy::FirstOnly));
    assert_eq!(first, Ok(FieldElement::from_u64(9).encode()));
    let strict = encode_public_inputs(&many, PublicInputLayout::SingleSlot(SlotPolicy::RejectSurplus));
    assert_eq!(strict, Err(EncodeError::SurplusPublicInputs { count: 3 }));
    let one = encode_public_inputs(&inputs(&[9]), PublicInputLayout::SingleSlot(SlotPolicy::RejectSurplus));
    assert_eq!(one, Ok(FieldElement::from_u64(9).encode()));
}

#[test]
fn single_slot_needs_an_input() {
    for policy in [SlotPolicy::FirstOnly, SlotPolicy::RejectSurplus] {
        let result = encode_public_inputs(&inputs(&[]), PublicInputLayout::SingleSlot(policy));
        assert_eq!(result, Err(EncodeError::NoPublicInputs));
    }
}

#[test]
fn concatenation_keeps_every_input_in_order() {
    let bytes = encode_public_inputs(&inputs(&[9, 258]), PublicInputLayout::Concatenated).unwrap();
    assert_eq!(bytes.len(), 64);
    assert_eq!(bytes[0], 9);
    assert_eq!(&bytes[1..32], &[0u8; 31]);
    assert_eq!(&bytes[32..34], &[2, 1]);
    assert_eq!(&bytes[34..64], &[0u8; 30]);
    let none = encode_public_inputs(&inputs(&[]), PublicInputLayout::Concatenated).unwrap();
    assert!(none.is_empty());
}

#[test]
fn concatenation_round_trips() {
    let values = inputs(&[0, 1, 9, u64::MAX]);
    let bytes = encode_public_inputs(&values, PublicInputLayout::Concatenated).unwrap();
    assert_eq!(decode_public_inputs(&bytes), Ok(values));
    assert_eq!(decode_public_inputs(&[]), Ok(vec![]));
}

#[test]
fn concatenation_rejects_a_truncated_input() {
    let bytes = vec![0u8; 63];
    assert_eq!(
        decode_public_inputs(&bytes),
        Err(DecodeError::WrongLength { expected: 32, found: 63 })
    );
}

#[test]
fn concatenation_names_the_first_element_out_of_range() {
    let mut bytes = vec![0u8; 96];
    for byte in bytes[32..64].iter_mut() {
        *byte = 0xff;
    }
    for byte in bytes[64..96].iter_mut() {
        *byte = 0xff;
    }
    assert_eq!(decode_public_inputs(&bytes), Err(DecodeError::ValueOutOfRange { index: 1 }));
}
