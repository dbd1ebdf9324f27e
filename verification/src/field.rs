//! Elements of the scalar field of BN254 and their canonical encoding.
//!
//! An element is a number below the field's prime, held as four words,
//! least significant first. Its encoding is always the same 32 bytes,
//! little-endian and zero-padded, whatever the number's size.
use crate::bytes::{
    le_bytes, le_value, lemma_le_bytes_len, lemma_le_bytes_of_le_value, lemma_le_value_bound,
    lemma_le_value_concat, lemma_le_value_of_le_bytes, lemma_pow256_word, pow256, push_u64_le,
    read_u64_le,
};
use crate::error::{DecodeError, EncodeError};
use ark_bn254::Fr;
use ark_ff::{BigInt, PrimeField};
use vstd::prelude::*;

verus! {

/// The number of bytes in the encoding of a field element.
pub const FIELD_BYTES: usize = 32;

/// The words of the field's prime, least significant first.
pub const MODULUS_WORD_0: u64 = 0x43e1f593f0000001;

pub const MODULUS_WORD_1: u64 = 0x2833e84879b97091;

pub const MODULUS_WORD_2: u64 = 0xb85045b68181585d;

pub const MODULUS_WORD_3: u64 = 0x30644e72e131a029;

/// The prime of the field: the order of the BN254 curve's group.
pub open spec fn modulus() -> nat {
    0x30644e72e131a029b85045b68181585d2833e84879b9709143e1f593f0000001nat
}

/// The number that four words stand for, least significant word first.
pub open spec fn words_value(words: [u64; 4]) -> nat {
    (words[0] as nat) + (words[1] as nat) * 0x1_0000_0000_0000_0000nat + (words[2] as nat)
        * 0x1_0000_0000_0000_0000_0000_0000_0000_0000nat + (words[3] as nat)
        * 0x1_0000_0000_0000_0000_0000_0000_0000_0000_0000_0000_0000_0000nat
}

/// The canonical encoding of the field element `value`.
pub open spec fn field_bytes(value: nat) -> Seq<u8> {
    le_bytes(value, 32)
}

/// An element of the field, in canonical form.
#[derive(Debug, Clone, Copy, PartialEq, Eq)]
pub struct FieldElement {
    words: [u64; 4],
}

impl View for FieldElement {
    type V = nat;

    closed spec fn view(&self) -> nat {
        words_value(self.words)
    }
}

/// The numbers that a sequence of field elements stands for.
pub open spec fn field_values(elements: Seq<FieldElement>) -> Seq<nat> {
    elements.map_values(|e: FieldElement| e@)
}

/// Whether four words stand for a number below the prime.
fn below_modulus(words: &[u64; 4]) -> (below: bool)
    ensures
        below == (words_value(*words) < modulus()),
{
    if words[3] != MODULUS_WORD_3 {
        words[3] < MODULUS_WORD_3
    } else if words[2] != MODULUS_WORD_2 {
        words[2] < MODULUS_WORD_2
    } else if words[1] != MODULUS_WORD_1 {
        words[1] < MODULUS_WORD_1
    } else {
        words[0] < MODULUS_WORD_0
    }
}

/// What `Fr`'s multiplication returns: the words of the product of two field
/// elements, reduced modulo the prime.
#[verifier::external_body]
fn fr_product(a: &[u64; 4], b: &[u64; 4]) -> (words: [u64; 4])
    requires
        words_value(*a) < modulus(),
        words_value(*b) < modulus(),
    ensures
        words_value(words) == (words_value(*a) * words_value(*b)) % modulus(),
{
    let a = Fr::from_bigint(BigInt(*a)).unwrap();
    let b = Fr::from_bigint(BigInt(*b)).unwrap();
    (a * b).into_bigint().0
}

/// What `Fr`'s addition returns: the words of the sum of two field elements,
/// reduced modulo the prime.
#[verifier::external_body]
fn fr_sum(a: &[u64; 4], b: &[u64; 4]) -> (words: [u64; 4])
    requires
        words_value(*a) < modulus(),
        words_value(*b) < modulus(),
    ensures
        words_value(words) == (words_value(*a) + words_value(*b)) % modulus(),
{
    let a = Fr::from_bigint(BigInt(*a)).unwrap();
    let b = Fr::from_bigint(BigInt(*b)).unwrap();
    (a + b).into_bigint().0
}

/// What `Fr::from_le_bytes_mod_order` returns: the words of the number that
/// the bytes stand for, little-endian, reduced modulo the prime.
#[verifier::external_body]
fn fr_reduced(bytes: &[u8]) -> (words: [u64; 4])
    ensures
        words_value(words) == le_value(bytes@) % modulus(),
{
    Fr::from_le_bytes_mod_order(bytes).into_bigint().0
}

impl FieldElement {
    /// Every field element is below the prime.
    #[verifier::type_invariant]
    pub closed spec fn canonical(&self) -> bool {
        words_value(self.words) < modulus()
    }

    /// A field element stands for a number below the prime.
    pub proof fn lemma_canonical(self)
        requires
            self.canonical(),
        ensures
            self@ < modulus(),
    {
    }

    /// The element zero.
    pub fn zero() -> (element: FieldElement)
        ensures
            element@ == 0,
            element.canonical(),
    {
        FieldElement { words: [0, 0, 0, 0] }
    }

    /// The element one.
    pub fn one() -> (element: FieldElement)
        ensures
            element@ == 1,
            element.canonical(),
    {
        FieldElement { words: [1, 0, 0, 0] }
    }

    /// The element that stands for `value`.
    pub fn from_u64(value: u64) -> (element: FieldElement)
        ensures
            element@ == value as nat,
            element.canonical(),
    {
        FieldElement { words: [value, 0, 0, 0] }
    }

    /// The element whose words are `words`, least significant first. The
    /// words must stand for a number below the prime.
    pub fn from_words(words: [u64; 4]) -> (result: Result<FieldElement, EncodeError>)
        ensures
            words_value(words) < modulus() ==> result is Ok && result->Ok_0@ == words_value(words)
                && result->Ok_0.canonical(),
            words_value(words) >= modulus() ==> result == Err::<FieldElement, EncodeError>(
                EncodeError::ValueOutOfRange,
            ),
    {
        if below_modulus(&words) {
            Ok(FieldElement { words })
        } else {
            Err(EncodeError::ValueOutOfRange)
        }
    }

    /// The words of the element, least significant first.
    pub fn words(&self) -> (words: [u64; 4])
        ensures
            words_value(words) == self@,
            self@ < modulus(),
    {
        proof {
            use_type_invariant(self);
        }
        self.words
    }

    /// Whether two elements are the same number.
    pub fn same(&self, other: &FieldElement) -> (same: bool)
        ensures
            same == (self@ == other@),
    {
        proof {
            lemma_words_of_value(self.words);
            lemma_words_of_value(other.words);
        }
        self.words[0] == other.words[0] && self.words[1] == other.words[1] && self.words[2]
            == other.words[2] && self.words[3] == other.words[3]
    }

    /// The product of two elements in the field.
    pub fn times(&self, other: &FieldElement) -> (product: FieldElement)
        ensures
            product@ == (self@ * other@) % modulus(),
            product.canonical(),
    {
        proof {
            use_type_invariant(self);
            use_type_invariant(other);
        }
        let words = fr_product(&self.words, &other.words);
        FieldElement { words }
    }

    /// The sum of two elements in the field.
    pub fn plus(&self, other: &FieldElement) -> (sum: FieldElement)
        ensures
            sum@ == (self@ + other@) % modulus(),
            sum.canonical(),
    {
        proof {
            use_type_invariant(self);
            use_type_invariant(other);
        }
        let words = fr_sum(&self.words, &other.words);
        FieldElement { words }
    }

    /// The element that a non-negative integer of any size stands for: the
    /// integer, given by its little-endian bytes, reduced modulo the prime.
    pub fn reduce(bytes: &[u8]) -> (element: FieldElement)
        ensures
            element@ == le_value(bytes@) % modulus(),
            element.canonical(),
    {
        let words = fr_reduced(bytes);
        FieldElement { words }
    }

    /// The canonical encoding: 32 bytes, little-endian, zero-padded.
    pub fn encode(&self) -> (bytes: Vec<u8>)
        ensures
            bytes@ == field_bytes(self@),
            bytes@.len() == 32,
            self@ < modulus(),
    {
        proof {
            use_type_invariant(self);
        }
        let mut bytes: Vec<u8> = Vec::new();
        let mut i: usize = 0;
        while i < 4
            invariant
                i <= 4,
                bytes@.len() == 8 * i,
                i == 0 ==> le_value(bytes@) == 0,
                i == 1 ==> le_value(bytes@) == self.words[0] as nat,
                i == 2 ==> le_value(bytes@) == self.words[0] as nat + (self.words[1] as nat)
                    * 0x1_0000_0000_0000_0000nat,
                i == 3 ==> le_value(bytes@) == self.words[0] as nat + (self.words[1] as nat)
                    * 0x1_0000_0000_0000_0000nat + (self.words[2] as nat)
                    * 0x1_0000_0000_0000_0000_0000_0000_0000_0000nat,
                i == 4 ==> le_value(bytes@) == words_value(self.words),
            decreases 4 - i,
        {
            let ghost before = bytes@;
            let word = self.words[i];
            push_u64_le(&mut bytes, word);
            proof {
                let chunk = le_bytes(word as nat, 8);
                lemma_le_bytes_len(word as nat, 8);
                lemma_pow256_word();
                lemma_le_value_of_le_bytes(word as nat, 8);
                lemma_le_value_concat(before, chunk);
                assert(pow256(before.len()) * le_value(chunk) == (word as nat) * pow256(
                    before.len(),
                )) by (nonlinear_arith)
                    requires
                        le_value(chunk) == word as nat,
                ;
                lemma_word_powers();
            }
            i = i + 1;
        }
        proof {
            lemma_le_bytes_of_le_value(bytes@);
        }
        bytes
    }

    /// Decodes the canonical encoding. The input must be exactly 32 bytes
    /// that stand for a number below the prime.
    pub fn decode(bytes: &[u8]) -> (result: Result<FieldElement, DecodeError>)
        ensures
            result == decode_outcome(bytes@),
            result is Ok <==> bytes@.len() == 32 && le_value(bytes@) < modulus(),
            result matches Ok(element) ==> element@ == le_value(bytes@) && element.canonical(),
    {
        if bytes.len() != 32 {
            return Err(DecodeError::WrongLength { expected: 32, found: bytes.len() });
        }
        let w0 = read_u64_le(bytes, 0);
        let w1 = read_u64_le(bytes, 8);
        let w2 = read_u64_le(bytes, 16);
        let w3 = read_u64_le(bytes, 24);
        let words = [w0, w1, w2, w3];
        proof {
            lemma_split_words(bytes@);
            lemma_words_of_value(words);
        }
        if below_modulus(&words) {
            let element = FieldElement { words };
            assert(element.words =~= element_of(le_value(bytes@)).words);
            Ok(element)
        } else {
            Err(DecodeError::ValueOutOfRange { index: 0 })
        }
    }
}

/// What decoding 32 bytes returns: the element they stand for, or why they
/// stand for none.
pub open spec fn decode_outcome(bytes: Seq<u8>) -> Result<FieldElement, DecodeError> {
    if bytes.len() != 32 {
        Err(DecodeError::WrongLength { expected: 32, found: bytes.len() as usize })
    } else if le_value(bytes) >= modulus() {
        Err(DecodeError::ValueOutOfRange { index: 0 })
    } else {
        Ok(element_of(le_value(bytes)))
    }
}

/// The field element that stands for `value`.
pub closed spec fn element_of(value: nat) -> FieldElement {
    FieldElement {
        words: [
            (value % 0x1_0000_0000_0000_0000nat) as u64,
            ((value / 0x1_0000_0000_0000_0000nat) % 0x1_0000_0000_0000_0000nat) as u64,
            ((value / 0x1_0000_0000_0000_0000_0000_0000_0000_0000nat) % 0x1_0000_0000_0000_0000nat) as u64,
            ((value / 0x1_0000_0000_0000_0000_0000_0000_0000_0000_0000_0000_0000_0000nat)
                % 0x1_0000_0000_0000_0000nat) as u64,
        ],
    }
}

/// Each word is a digit of the value in base `2^64`.
proof fn lemma_words_of_value(words: [u64; 4])
    ensures
        words[0] == words_value(words) % 0x1_0000_0000_0000_0000nat,
        words[1] == (words_value(words) / 0x1_0000_0000_0000_0000nat) % 0x1_0000_0000_0000_0000nat,
        words[2] == (words_value(words) / 0x1_0000_0000_0000_0000_0000_0000_0000_0000nat)
            % 0x1_0000_0000_0000_0000nat,
        words[3] == (words_value(words)
            / 0x1_0000_0000_0000_0000_0000_0000_0000_0000_0000_0000_0000_0000nat)
            % 0x1_0000_0000_0000_0000nat,
{
    let v = words_value(words);
    let w0 = words[0] as nat;
    let w1 = words[1] as nat;
    let w2 = words[2] as nat;
    let w3 = words[3] as nat;
    let r1 = w1 + w2 * 0x1_0000_0000_0000_0000nat + w3
        * 0x1_0000_0000_0000_0000_0000_0000_0000_0000nat;
    let r2 = w2 + w3 * 0x1_0000_0000_0000_0000nat;
    assert(v == w0 + r1 * 0x1_0000_0000_0000_0000nat);
    assert(v / 0x1_0000_0000_0000_0000nat == r1);
    assert(v == (w0 + w1 * 0x1_0000_0000_0000_0000nat) + r2
        * 0x1_0000_0000_0000_0000_0000_0000_0000_0000nat);
    assert(v / 0x1_0000_0000_0000_0000_0000_0000_0000_0000nat == r2);
    assert(v == (w0 + w1 * 0x1_0000_0000_0000_0000nat + w2
        * 0x1_0000_0000_0000_0000_0000_0000_0000_0000nat) + w3
        * 0x1_0000_0000_0000_0000_0000_0000_0000_0000_0000_0000_0000_0000nat);
    assert(v / 0x1_0000_0000_0000_0000_0000_0000_0000_0000_0000_0000_0000_0000nat == w3);
}

/// Round trip: decoding the encoding of a field element gives the element
/// back.
pub proof fn lemma_field_round_trip(element: FieldElement)
    requires
        element.canonical(),
    ensures
        field_bytes(element@).len() == 32,
        decode_outcome(field_bytes(element@)) == Ok::<FieldElement, DecodeError>(element),
{
    let bytes = field_bytes(element@);
    lemma_le_bytes_len(element@, 32);
    lemma_modulus_fits();
    lemma_le_value_of_le_bytes(element@, 32);
    lemma_words_of_value(element.words);
    assert(element_of(element@).words =~= element.words);
}

/// Two field elements that stand for one number are equal.
pub proof fn lemma_view_injective(a: FieldElement, b: FieldElement)
    requires
        a@ == b@,
    ensures
        a == b,
{
    lemma_words_of_value(a.words);
    lemma_words_of_value(b.words);
    assert(a.words =~= b.words);
}

/// The prime is below `256^32`: every field element fits in 32 bytes.
pub proof fn lemma_modulus_fits()
    ensures
        modulus() < pow256(32),
{
    lemma_pow256_word();
    let w = crate::bytes::word_base();
    assert(w * w * w * w
        == 0x1_0000_0000_0000_0000_0000_0000_0000_0000_0000_0000_0000_0000_0000_0000_0000_0000nat)
        by (nonlinear_arith)
        requires
            w == 0x1_0000_0000_0000_0000nat,
    ;
}

proof fn lemma_word_powers()
    ensures
        pow256(8) == 0x1_0000_0000_0000_0000nat,
        pow256(16) == 0x1_0000_0000_0000_0000_0000_0000_0000_0000nat,
        pow256(24) == 0x1_0000_0000_0000_0000_0000_0000_0000_0000_0000_0000_0000_0000nat,
{
    lemma_pow256_word();
}

/// The value of 32 bytes is the value of the four words they hold.
proof fn lemma_split_words(bytes: Seq<u8>)
    requires
        bytes.len() == 32,
    ensures
        le_value(bytes) == le_value(bytes.subrange(0, 8)) + le_value(bytes.subrange(8, 16))
            * 0x1_0000_0000_0000_0000nat + le_value(bytes.subrange(16, 24))
            * 0x1_0000_0000_0000_0000_0000_0000_0000_0000nat + le_value(bytes.subrange(24, 32))
            * 0x1_0000_0000_0000_0000_0000_0000_0000_0000_0000_0000_0000_0000nat,
{
    let a = bytes.subrange(0, 8);
    let b = bytes.subrange(8, 16);
    let c = bytes.subrange(16, 24);
    let d = bytes.subrange(24, 32);
    lemma_word_powers();
    lemma_le_value_concat(a, b);
    lemma_le_value_concat(a + b, c);
    lemma_le_value_concat(a + b + c, d);
    assert(a + b + c + d =~= bytes);
    let one_word = pow256(8);
    let two_words = pow256(16);
    let three_words = pow256(24);
    assert(one_word * le_value(b) == le_value(b) * one_word) by (nonlinear_arith);
    assert(two_words * le_value(c) == le_value(c) * two_words) by (nonlinear_arith);
    assert(three_words * le_value(d) == le_value(d) * three_words) by (nonlinear_arith);
}

} // verus!
