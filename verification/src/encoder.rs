//! The byte layouts of public inputs that an external verifier reads.
//!
//! There are two. In the concatenated layout each input stands in its own
//! 32 bytes, in the order in which the circuit declares them. In the
//! single-slot layout there is room for one input only; what is to happen
//! when the circuit has more than one is a policy that the caller states.
use crate::bytes::{le_value, lemma_le_bytes_len, lemma_le_value_of_le_bytes};
use crate::circuit::values_body;
use crate::error::{DecodeError, EncodeError};
use crate::field::{field_bytes, field_values, lemma_modulus_fits, modulus, FieldElement};
use vstd::prelude::*;
use vstd::slice::slice_subrange;

verus! {

/// What a single slot does with inputs beyond the first.
#[derive(Debug, Clone, Copy, PartialEq, Eq)]
pub enum SlotPolicy {
    /// The first input is encoded and the others are left out.
    FirstOnly,
    /// More than one input is an error.
    RejectSurplus,
}

/// A layout of public inputs.
#[derive(Debug, Clone, Copy, PartialEq, Eq)]
pub enum PublicInputLayout {
    /// Every input in its own 32 bytes, one after another.
    Concatenated,
    /// One slot of 32 bytes for the first input.
    SingleSlot(SlotPolicy),
}

/// What encoding public inputs returns.
pub open spec fn public_inputs_outcome(values: Seq<nat>, layout: PublicInputLayout) -> Result<
    Seq<u8>,
    EncodeError,
> {
    match layout {
        PublicInputLayout::Concatenated => Ok(values_body(values)),
        PublicInputLayout::SingleSlot(policy) => if values.len() == 0 {
            Err(EncodeError::NoPublicInputs)
        } else if values.len() > 1 && policy is RejectSurplus {
            Err(EncodeError::SurplusPublicInputs { count: values.len() as usize })
        } else {
            Ok(field_bytes(values[0]))
        },
    }
}

/// The 32 bytes of element number `index` of a concatenation.
pub open spec fn chunk(bytes: Seq<u8>, index: int) -> Seq<u8> {
    bytes.subrange(32 * index, 32 * index + 32)
}

/// Whether element number `index` of a concatenation is no field element.
pub open spec fn stray_chunk(bytes: Seq<u8>, index: int) -> bool {
    le_value(chunk(bytes, index)) >= modulus()
}

/// What decoding a concatenation returns: the elements, or why there are
/// none. The length must be a multiple of 32, and every 32 bytes must
/// stand for a number below the prime.
pub open spec fn concatenation_outcome(bytes: Seq<u8>) -> Result<Seq<nat>, DecodeError> {
    if bytes.len() % 32 != 0 {
        Err(
            DecodeError::WrongLength {
                expected: (bytes.len() - bytes.len() % 32) as usize,
                found: bytes.len() as usize,
            },
        )
    } else if exists|i: int| 0 <= i < bytes.len() / 32 && #[trigger] stray_chunk(bytes, i) {
        Err(
            DecodeError::ValueOutOfRange {
                index: (choose|i: int|
                    0 <= i < bytes.len() / 32 && #[trigger] stray_chunk(bytes, i) && forall|k: int|
                        0 <= k < i ==> !#[trigger] stray_chunk(bytes, k)) as usize,
            },
        )
    } else {
        Ok(Seq::new(bytes.len() / 32, |i: int| le_value(chunk(bytes, i))))
    }
}

/// The concatenation of `n` elements has `32 * n` bytes, and its chunks are
/// the encodings of the elements.
pub proof fn lemma_values_body(values: Seq<nat>)
    ensures
        values_body(values).len() == 32 * values.len(),
        forall|i: int|
            0 <= i < values.len() ==> #[trigger] chunk(values_body(values), i) == field_bytes(
                values[i],
            ),
    decreases values.len(),
{
    if values.len() > 0 {
        let front = values.drop_last();
        lemma_values_body(front);
        lemma_le_bytes_len(values.last(), 32);
        let whole = values_body(values);
        assert forall|i: int| 0 <= i < values.len() implies #[trigger] chunk(whole, i)
            == field_bytes(values[i]) by {
            if i < front.len() {
                assert(chunk(whole, i) =~= chunk(values_body(front), i));
                assert(front[i] == values[i]);
            } else {
                assert(chunk(whole, i) =~= field_bytes(values.last()));
            }
        }
    }
}

/// Fixed width: the encoding of any field element, zero and the largest
/// one among them, has exactly 32 bytes.
pub proof fn lemma_fixed_width(value: nat)
    ensures
        field_bytes(value).len() == 32,
{
    lemma_le_bytes_len(value, 32);
}

/// Round trip: decoding the concatenation of field elements gives the
/// elements back.
pub proof fn lemma_concatenation_round_trip(values: Seq<nat>)
    requires
        forall|i: int| 0 <= i < values.len() ==> #[trigger] values[i] < modulus(),
    ensures
        concatenation_outcome(values_body(values)) == Ok::<Seq<nat>, DecodeError>(values),
{
    let bytes = values_body(values);
    lemma_values_body(values);
    lemma_modulus_fits();
    assert forall|i: int| 0 <= i < values.len() implies !#[trigger] stray_chunk(bytes, i)
        && le_value(chunk(bytes, i)) == values[i] by {
        assert(chunk(bytes, i) == field_bytes(values[i]));
        lemma_le_value_of_le_bytes(values[i], 32);
    }
    assert(bytes.len() / 32 == values.len());
    let decoded = Seq::new(bytes.len() / 32, |i: int| le_value(chunk(bytes, i)));
    assert forall|i: int| 0 <= i < values.len() implies decoded[i] == #[trigger] values[i] by {
        assert(!stray_chunk(bytes, i));
    }
    assert(decoded =~= values);
}

/// Encodes public inputs in the given layout.
pub fn encode_public_inputs(inputs: &Vec<FieldElement>, layout: PublicInputLayout) -> (result:
    Result<Vec<u8>, EncodeError>)
    ensures
        match result {
            Ok(bytes) => public_inputs_outcome(field_values(inputs@), layout) == Ok::<
                Seq<u8>,
                EncodeError,
            >(bytes@),
            Err(e) => public_inputs_outcome(field_values(inputs@), layout) == Err::<
                Seq<u8>,
                EncodeError,
            >(e),
        },
{
    let ghost values = field_values(inputs@);
    match layout {
        PublicInputLayout::Concatenated => {
            let mut out: Vec<u8> = Vec::new();
            let mut i: usize = 0;
            while i < inputs.len()
                invariant
                    i <= inputs@.len(),
                    values == field_values(inputs@),
                    out@ == values_body(values.take(i as int)),
                decreases inputs@.len() - i,
            {
                let ghost so_far = out@;
                let element = inputs[i].encode();
                out.extend_from_slice(element.as_slice());
                proof {
                    let next = values.take(i + 1);
                    assert(next.drop_last() =~= values.take(i as int));
                    assert(next.last() == values[i as int]);
                    assert(out@ =~= so_far + field_bytes(values[i as int]));
                }
                i = i + 1;
            }
            assert(values.take(i as int) =~= values);
            Ok(out)
        },
        PublicInputLayout::SingleSlot(policy) => {
            if inputs.len() == 0 {
                return Err(EncodeError::NoPublicInputs);
            }
            if inputs.len() > 1 {
                match policy {
                    SlotPolicy::RejectSurplus => {
                        return Err(EncodeError::SurplusPublicInputs { count: inputs.len() });
                    },
                    SlotPolicy::FirstOnly => {},
                }
            }
            Ok(inputs[0].encode())
        },
    }
}

/// Decodes public inputs from the concatenated layout.
pub fn decode_public_inputs(bytes: &[u8]) -> (result: Result<Vec<FieldElement>, DecodeError>)
    ensures
        match result {
            Ok(inputs) => concatenation_outcome(bytes@) == Ok::<Seq<nat>, DecodeError>(
                field_values(inputs@),
            ),
            Err(e) => concatenation_outcome(bytes@) == Err::<Seq<nat>, DecodeError>(e),
        },
{
    let len = bytes.len();
    if len % 32 != 0 {
        return Err(DecodeError::WrongLength { expected: len - len % 32, found: len });
    }
    let count = len / 32;
    let mut inputs: Vec<FieldElement> = Vec::new();
    let mut i: usize = 0;
    while i < count
        invariant
            i <= count,
            len == bytes@.len(),
            len % 32 == 0,
            count == len / 32,
            inputs@.len() == i,
            forall|k: int| 0 <= k < i ==> !#[trigger] stray_chunk(bytes@, k),
            forall|k: int| 0 <= k < i ==> (#[trigger] inputs@[k])@ == le_value(chunk(bytes@, k)),
        decreases count - i,
    {
        let piece = slice_subrange(bytes, 32 * i, 32 * i + 32);
        assert(piece@ == chunk(bytes@, i as int));
        match FieldElement::decode(piece) {
            Ok(element) => {
                inputs.push(element);
            },
            Err(_) => {
                proof {
                    assert(stray_chunk(bytes@, i as int));
                    let j = choose|j: int|
                        0 <= j < bytes@.len() / 32 && #[trigger] stray_chunk(bytes@, j) && forall|
                            k: int,
                        |
                            0 <= k < j ==> !#[trigger] stray_chunk(bytes@, k);
                    if j < i {
                        assert(!stray_chunk(bytes@, j));
                    }
                    if i < j {
                        assert(!stray_chunk(bytes@, i as int));
                    }
                }
                return Err(DecodeError::ValueOutOfRange { index: i });
            },
        }
        i = i + 1;
    }
    assert(field_values(inputs@) =~= Seq::new(
        bytes@.len() / 32,
        |i: int| le_value(chunk(bytes@, i)),
    ));
    Ok(inputs)
}

} // verus!
