use ark_bn254::Fr;
use ark_ff::PrimeField;
use ark_serialize::CanonicalSerialize;
use zkproof::error::{DecodeError, EncodeError};
use zkproof::field::{
    FieldElement, FIELD_BYTES, MODULUS_WORD_0, MODULUS_WORD_1, MODULUS_WORD_2, MODULUS_WORD_3,
};

fn largest() -> FieldElement {
    FieldElement::from_words([MODULUS_WORD_0 - 1, MODULUS_WORD_1, MODULUS_WORD_2, MODULUS_WORD_3])
        .unwrap()
}

#[test]
fn nine_encodes_little_endian() {
    let bytes = FieldElement::from_u64(9).encode();
    let mut expected = vec![0u8; 32];
    expected[0] = 0x09;
    assert_eq!(bytes, expected);
}

#[test]
fn zero_encodes_as_32_zero_bytes() {
    assert_eq!(FieldElement::zero().encode(), vec![0u8; 32]);
    assert_eq!(FieldElement::zero().encode().len(), FIELD_BYTES);
}

#[test]
fn largest_element_encodes_in_32_bytes() {
    let bytes = largest().encode();
    assert_eq!(bytes.len(), 32);
    assert_eq!(bytes[0], 0x00);
    assert_eq!(bytes[31], 0x30);
    assert_eq!(
        zkproof::text::to_hex(&bytes),
        "000000f093f5e1439170b97948e833285d588181b64550b829a031e1724e6430"
    );
}

#[test]
fn words_are_laid_out_least_significant_first() {
    let element = FieldElement::from_words([0x0102030405060708, 0x1112131415161718, 0, 1]).unwrap();
    let bytes = element.encode();
    assert_eq!(&bytes[0..8], &[0x08, 0x07, 0x06, 0x05, 0x04, 0x03, 0x02, 0x01]);
    assert_eq!(&bytes[8..16], &[0x18, 0x17, 0x16, 0x15, 0x14, 0x13, 0x12, 0x11]);
    assert_eq!(bytes[24], 1);
}

#[test]
fn encoding_agrees_with_the_backend() {
    for value in [0u64, 1, 9, 255, 256, u64::MAX] {
        let mut expected = Vec::new();
        Fr::from(value).serialize_uncompressed(&mut expected).unwrap();
        assert_eq!(FieldElement::from_u64(value).encode(), expected);
    }
    let mut expected = Vec::new();
    (-Fr::from(1u64)).serialize_uncompressed(&mut expected).unwrap();
    assert_eq!(largest().encode(), expected);
    assert_eq!(largest().words(), (-Fr::from(1u64)).into_bigint().0);
}

#[test]
fn field_element_round_trips() {
    for element in [FieldElement::zero(), FieldElement::one(), FieldElement::from_u64(9), largest()] {
        assert_eq!(FieldElement::decode(&element.encode()), Ok(element));
    }
}

#[test]
fn decode_rejects_wrong_lengths() {
    assert_eq!(
        FieldElement::decode(&[0u8; 31]),
        Err(DecodeError::WrongLength { expected: 32, found: 31 })
    );
    assert_eq!(
        FieldElement::decode(&[0u8; 33]),
        Err(DecodeError::WrongLength { expected: 32, found: 33 })
    );
    assert_eq!(FieldElement::decode(&[]), Err(DecodeError::WrongLength { expected: 32, found: 0 }));
}

#[test]
fn decode_rejects_the_modulus_and_above() {
    let mut modulus = Vec::new();
    for word in [MODULUS_WORD_0, MODULUS_WORD_1, MODULUS_WORD_2, MODULUS_WORD_3] {
        modulus.extend_from_slice(&word.to_le_bytes());
    }
    assert_eq!(FieldElement::decode(&modulus), Err(DecodeError::ValueOutOfRange { index: 0 }));
    assert_eq!(FieldElement::decode(&[0xffu8; 32]), Err(DecodeError::ValueOutOfRange { index: 0 }));
}

#[test]
fn from_words_rejects_the_modulus() {
    let words = [MODULUS_WORD_0, MODULUS_WORD_1, MODULUS_WORD_2, MODULUS_WORD_3];
    assert_eq!(FieldElement::from_words(words), Err(EncodeError::ValueOutOfRange));
    assert_eq!(FieldElement::from_words([0, 0, 0, u64::MAX]), Err(EncodeError::ValueOutOfRange));
    assert!(FieldElement::from_words([u64::MAX, u64::MAX, u64::MAX, 0]).is_ok());
}

#[test]
fn product_and_sum_are_taken_in_the_field() {
    let three = FieldElement::from_u64(3);
    assert_eq!(three.times(&three), FieldElement::from_u64(9));
    assert_eq!(three.plus(&three), FieldElement::from_u64(6));
    assert_eq!(largest().plus(&FieldElement::one()), FieldElement::zero());
    assert_eq!(largest().times(&largest()), FieldElement::one());
    assert_eq!(largest().plus(&FieldElement::from_u64(5)), FieldElement::from_u64(4));
}

#[test]
fn reduce_takes_integers_of_any_size() {
    assert_eq!(FieldElement::reduce(&[3]), FieldElement::from_u64(3));
    assert_eq!(FieldElement::reduce(&[]), FieldElement::zero());
    let mut modulus_plus_two = Vec::new();
    for word in [MODULUS_WORD_0 + 2, MODULUS_WORD_1, MODULUS_WORD_2, MODULUS_WORD_3] {
        modulus_plus_two.extend_from_slice(&word.to_le_bytes());
    }
    assert_eq!(FieldElement::reduce(&modulus_plus_two), FieldElement::from_u64(2));
    // 2^256 mod p, as the backend computes it from a big integer.
    let mut power = vec![0u8; 32];
    power.push(1);
    let expected = Fr::from_le_bytes_mod_order(&power).into_bigint().0;
    assert_eq!(FieldElement::reduce(&power).words(), expected);
    assert_ne!(FieldElement::reduce(&power), FieldElement::zero());
}

#[test]
fn same_compares_values() {
    assert!(FieldElement::from_u64(7).same(&FieldElement::from_u64(7)));
    assert!(!FieldElement::from_u64(7).same(&FieldElement::from_u64(8)));
    assert!(!largest().same(&FieldElement::zero()));
}
