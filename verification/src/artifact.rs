//! Keys and proofs, and their encodings.
//!
//! A proving key, a verifying key and a proof are each held by their
//! canonical compressed encoding: the bytes that the backend writes for the
//! value and reads back as the same bytes. Every value of the three types
//! is canonical in this sense, so a value and its compressed encoding are
//! one and the same thing.
//!
//! Encoding and decoding go through the backend. What comes back from it is
//! never taken on trust: to decode is to read the bytes and to write them
//! again, and the result is accepted only where the two agree.
use crate::bytes::same_bytes;
use crate::error::{DecodeError, EncodeError};
use ark_bn254::Bn254;
use ark_serialize::{CanonicalDeserialize, CanonicalSerialize, Compress, Validate};
use vstd::prelude::*;

verus! {

/// The two encodings of a key or a proof.
#[derive(Debug, Clone, Copy, PartialEq, Eq)]
pub enum Mode {
    /// Each curve point by one coordinate and a sign.
    Compressed,
    /// Each curve point by both coordinates.
    Uncompressed,
}

/// The three kinds of value that are encoded.
#[derive(Debug, Clone, Copy, PartialEq, Eq)]
pub enum ArtifactKind {
    ProvingKey,
    VerifyingKey,
    Proof,
}

/// The tag that stands before a compressed encoding.
pub const TAG_COMPRESSED: u8 = 0;

/// The tag that stands before an uncompressed encoding.
pub const TAG_UNCOMPRESSED: u8 = 1;

/// What the backend makes of the bytes of a proof: read in one mode, with
/// every point checked, and written again in another; `None` where it
/// cannot read them. The flags say whether the mode is the compressed one.
pub uninterp spec fn proof_recoded(bytes: Seq<u8>, from_compressed: bool, to_compressed: bool)
    -> Option<Seq<u8>>;

/// What the backend makes of the bytes of a verifying key, as
/// [`proof_recoded`] does of a proof.
pub uninterp spec fn verifying_key_recoded(
    bytes: Seq<u8>,
    from_compressed: bool,
    to_compressed: bool,
) -> Option<Seq<u8>>;

/// What the backend makes of the bytes of a proving key, as
/// [`proof_recoded`] does of a proof.
pub uninterp spec fn proving_key_recoded(
    bytes: Seq<u8>,
    from_compressed: bool,
    to_compressed: bool,
) -> Option<Seq<u8>>;

/// The bytes that an optional byte vector holds.
pub open spec fn view_of(bytes: Option<Vec<u8>>) -> Option<Seq<u8>> {
    match bytes {
        Some(b) => Some(b@),
        None => None,
    }
}

/// Reads a Groth16 proof over BN254 with `deserialize_with_mode`, checking
/// its points, and writes it with `serialize_with_mode`. The result is
/// named, not described: it is a function of the bytes and the two modes.
#[verifier::external_body]
fn recode_proof(bytes: &[u8], from: Mode, to: Mode) -> (out: Option<Vec<u8>>)
    ensures
        view_of(out) == proof_recoded(bytes@, from is Compressed, to is Compressed),
{
    let from = match from {
        Mode::Compressed => Compress::Yes,
        Mode::Uncompressed => Compress::No,
    };
    let to = match to {
        Mode::Compressed => Compress::Yes,
        Mode::Uncompressed => Compress::No,
    };
    let value = ark_groth16::Proof::<Bn254>::deserialize_with_mode(bytes, from, Validate::Yes).ok()?;
    let mut out = Vec::new();
    value.serialize_with_mode(&mut out, to).ok()?;
    Some(out)
}

/// Reads a Groth16 verifying key over BN254 with `deserialize_with_mode`,
/// checking its points, and writes it with `serialize_with_mode`.
#[verifier::external_body]
fn recode_verifying_key(bytes: &[u8], from: Mode, to: Mode) -> (out: Option<Vec<u8>>)
    ensures
        view_of(out) == verifying_key_recoded(bytes@, from is Compressed, to is Compressed),
{
    let from = match from {
        Mode::Compressed => Compress::Yes,
        Mode::Uncompressed => Compress::No,
    };
    let to = match to {
        Mode::Compressed => Compress::Yes,
        Mode::Uncompressed => Compress::No,
    };
    let value = ark_groth16::VerifyingKey::<Bn254>::deserialize_with_mode(bytes, from, Validate::Yes).ok()?;
    let mut out = Vec::new();
    value.serialize_with_mode(&mut out, to).ok()?;
    Some(out)
}

/// Reads a Groth16 proving key over BN254 with `deserialize_with_mode`,
/// checking its points, and writes it with `serialize_with_mode`.
#[verifier::external_body]
fn recode_proving_key(bytes: &[u8], from: Mode, to: Mode) -> (out: Option<Vec<u8>>)
    ensures
        view_of(out) == proving_key_recoded(bytes@, from is Compressed, to is Compressed),
{
    let from = match from {
        Mode::Compressed => Compress::Yes,
        Mode::Uncompressed => Compress::No,
    };
    let to = match to {
        Mode::Compressed => Compress::Yes,
        Mode::Uncompressed => Compress::No,
    };
    let value = ark_groth16::ProvingKey::<Bn254>::deserialize_with_mode(bytes, from, Validate::Yes).ok()?;
    let mut out = Vec::new();
    value.serialize_with_mode(&mut out, to).ok()?;
    Some(out)
}

/// What the backend makes of the bytes of a value of the given kind.
pub open spec fn recoded(kind: ArtifactKind, bytes: Seq<u8>, from: Mode, to: Mode) -> Option<
    Seq<u8>,
> {
    match kind {
        ArtifactKind::ProvingKey => proving_key_recoded(
            bytes,
            from is Compressed,
            to is Compressed,
        ),
        ArtifactKind::VerifyingKey => verifying_key_recoded(
            bytes,
            from is Compressed,
            to is Compressed,
        ),
        ArtifactKind::Proof => proof_recoded(bytes, from is Compressed, to is Compressed),
    }
}

/// Whether `bytes` are the canonical compressed encoding of a value: the
/// backend reads them and writes the same bytes.
pub open spec fn canonical(kind: ArtifactKind, bytes: Seq<u8>) -> bool {
    recoded(kind, bytes, Mode::Compressed, Mode::Compressed) == Some(bytes)
}

/// What decoding returns: the canonical bytes of the value, or why there
/// is none. The input must read in the given mode, and be exactly what the
/// value it reads as is written as in that mode.
pub open spec fn decode_outcome(kind: ArtifactKind, bytes: Seq<u8>, mode: Mode) -> Result<
    Seq<u8>,
    DecodeError,
> {
    match recoded(kind, bytes, mode, Mode::Compressed) {
        None => Err(DecodeError::Malformed),
        Some(value) => if canonical(kind, value) && recoded(kind, value, Mode::Compressed, mode)
            == Some(bytes) {
            Ok(value)
        } else {
            Err(DecodeError::NotCanonical)
        },
    }
}

/// What encoding returns for the value with canonical bytes `value`.
pub open spec fn encode_outcome(kind: ArtifactKind, value: Seq<u8>, mode: Mode) -> Result<
    Seq<u8>,
    EncodeError,
> {
    match recoded(kind, value, Mode::Compressed, mode) {
        None => Err(EncodeError::Backend),
        Some(bytes) => if decode_outcome(kind, bytes, mode) == Ok::<Seq<u8>, DecodeError>(value) {
            Ok(bytes)
        } else {
            Err(EncodeError::NotReversible)
        },
    }
}

/// Decoding what was encoded gives the value back, in both modes.
pub proof fn lemma_round_trip(kind: ArtifactKind, value: Seq<u8>, mode: Mode)
    requires
        encode_outcome(kind, value, mode) is Ok,
    ensures
        decode_outcome(kind, encode_outcome(kind, value, mode)->Ok_0, mode) == Ok::<
            Seq<u8>,
            DecodeError,
        >(value),
{
}

/// A canonical value always has a compressed encoding: its own bytes.
pub proof fn lemma_compressed_is_identity(kind: ArtifactKind, value: Seq<u8>)
    requires
        canonical(kind, value),
    ensures
        encode_outcome(kind, value, Mode::Compressed) == Ok::<Seq<u8>, EncodeError>(value),
        decode_outcome(kind, value, Mode::Compressed) == Ok::<Seq<u8>, DecodeError>(value),
{
}

/// What decoding yields is canonical.
pub proof fn lemma_decoded_is_canonical(kind: ArtifactKind, bytes: Seq<u8>, mode: Mode)
    requires
        decode_outcome(kind, bytes, mode) is Ok,
    ensures
        canonical(kind, decode_outcome(kind, bytes, mode)->Ok_0),
{
}

fn recode(kind: ArtifactKind, bytes: &[u8], from: Mode, to: Mode) -> (out: Option<Vec<u8>>)
    ensures
        view_of(out) == recoded(kind, bytes@, from, to),
{
    match kind {
        ArtifactKind::ProvingKey => recode_proving_key(bytes, from, to),
        ArtifactKind::VerifyingKey => recode_verifying_key(bytes, from, to),
        ArtifactKind::Proof => recode_proof(bytes, from, to),
    }
}

/// Decodes the bytes of a value of the given kind to its canonical bytes.
pub(crate) fn decode_bytes(kind: ArtifactKind, bytes: &[u8], mode: Mode) -> (result: Result<
    Vec<u8>,
    DecodeError,
>)
    ensures
        match result {
            Ok(value) => decode_outcome(kind, bytes@, mode) == Ok::<Seq<u8>, DecodeError>(value@)
                && canonical(kind, value@),
            Err(e) => decode_outcome(kind, bytes@, mode) == Err::<Seq<u8>, DecodeError>(e),
        },
{
    let value = match recode(kind, bytes, mode, Mode::Compressed) {
        None => {
            return Err(DecodeError::Malformed);
        },
        Some(value) => value,
    };
    let again = match recode(kind, value.as_slice(), Mode::Compressed, Mode::Compressed) {
        None => {
            return Err(DecodeError::NotCanonical);
        },
        Some(again) => again,
    };
    if !same_bytes(again.as_slice(), value.as_slice()) {
        return Err(DecodeError::NotCanonical);
    }
    let back = match recode(kind, value.as_slice(), Mode::Compressed, mode) {
        None => {
            return Err(DecodeError::NotCanonical);
        },
        Some(back) => back,
    };
    if !same_bytes(back.as_slice(), bytes) {
        return Err(DecodeError::NotCanonical);
    }
    Ok(value)
}

/// Encodes the value with canonical bytes `value` in the given mode.
pub(crate) fn encode_bytes(kind: ArtifactKind, value: &[u8], mode: Mode) -> (result: Result<
    Vec<u8>,
    EncodeError,
>)
    ensures
        match result {
            Ok(bytes) => encode_outcome(kind, value@, mode) == Ok::<Seq<u8>, EncodeError>(bytes@),
            Err(e) => encode_outcome(kind, value@, mode) == Err::<Seq<u8>, EncodeError>(e),
        },
{
    let bytes = match recode(kind, value, Mode::Compressed, mode) {
        None => {
            return Err(EncodeError::Backend);
        },
        Some(bytes) => bytes,
    };
    match decode_bytes(kind, bytes.as_slice(), mode) {
        Ok(back) => {
            if same_bytes(back.as_slice(), value) {
                Ok(bytes)
            } else {
                Err(EncodeError::NotReversible)
            }
        },
        Err(_) => Err(EncodeError::NotReversible),
    }
}

/// The tag byte of a mode.
pub open spec fn mode_tag(mode: Mode) -> u8 {
    match mode {
        Mode::Compressed => 0,
        Mode::Uncompressed => 1,
    }
}

/// What reading a tagged encoding returns: the mode that the first byte
/// names, and the bytes after it.
pub open spec fn untag_outcome(bytes: Seq<u8>) -> Result<(Mode, Seq<u8>), DecodeError> {
    if bytes.len() == 0 {
        Err(DecodeError::MissingTag)
    } else if bytes[0] == 0 {
        Ok((Mode::Compressed, bytes.drop_first()))
    } else if bytes[0] == 1 {
        Ok((Mode::Uncompressed, bytes.drop_first()))
    } else {
        Err(DecodeError::UnknownTag { tag: bytes[0] })
    }
}

/// Puts the tag of `mode` before `payload`.
pub fn tag(mode: Mode, payload: &[u8]) -> (bytes: Vec<u8>)
    ensures
        bytes@ == seq![mode_tag(mode)] + payload@,
        untag_outcome(bytes@) == Ok::<(Mode, Seq<u8>), DecodeError>((mode, payload@)),
{
    let mut bytes: Vec<u8> = Vec::new();
    match mode {
        Mode::Compressed => bytes.push(TAG_COMPRESSED),
        Mode::Uncompressed => bytes.push(TAG_UNCOMPRESSED),
    }
    bytes.extend_from_slice(payload);
    assert(bytes@.drop_first() =~= payload@);
    bytes
}

/// Reads the tag that stands before an encoding, and what follows it.
pub fn untag(bytes: &[u8]) -> (result: Result<(Mode, Vec<u8>), DecodeError>)
    ensures
        match result {
            Ok((mode, payload)) => untag_outcome(bytes@) == Ok::<(Mode, Seq<u8>), DecodeError>(
                (mode, payload@),
            ),
            Err(e) => untag_outcome(bytes@) == Err::<(Mode, Seq<u8>), DecodeError>(e),
        },
{
    if bytes.len() == 0 {
        return Err(DecodeError::MissingTag);
    }
    let first = bytes[0];
    let mode = if first == TAG_COMPRESSED {
        Mode::Compressed
    } else if first == TAG_UNCOMPRESSED {
        Mode::Uncompressed
    } else {
        return Err(DecodeError::UnknownTag { tag: first });
    };
    let mut payload: Vec<u8> = Vec::new();
    let mut i: usize = 1;
    while i < bytes.len()
        invariant
            1 <= i <= bytes@.len(),
            payload@ == bytes@.subrange(1, i as int),
        decreases bytes@.len() - i,
    {
        payload.push(bytes[i]);
        assert(bytes@.subrange(1, i + 1) =~= bytes@.subrange(1, i as int).push(bytes@[i as int]));
        i = i + 1;
    }
    assert(bytes@.subrange(1, i as int) =~= bytes@.drop_first());
    Ok((mode, payload))
}

/// What encoding with a tag returns: the tag of the mode, then the
/// encoding in that mode.
pub open spec fn tagged_encode_outcome(kind: ArtifactKind, value: Seq<u8>, mode: Mode) -> Result<
    Seq<u8>,
    EncodeError,
> {
    match encode_outcome(kind, value, mode) {
        Ok(bytes) => Ok(seq![mode_tag(mode)] + bytes),
        Err(e) => Err(e),
    }
}

/// What decoding with a tag returns: what decoding the bytes after the tag
/// returns in the mode that the tag names.
pub open spec fn tagged_decode_outcome(kind: ArtifactKind, bytes: Seq<u8>) -> Result<
    Seq<u8>,
    DecodeError,
> {
    match untag_outcome(bytes) {
        Ok((mode, payload)) => decode_outcome(kind, payload, mode),
        Err(e) => Err(e),
    }
}

/// Decoding what was encoded with a tag gives the value back, in both
/// modes.
pub proof fn lemma_tagged_round_trip(kind: ArtifactKind, value: Seq<u8>, mode: Mode)
    requires
        tagged_encode_outcome(kind, value, mode) is Ok,
    ensures
        tagged_decode_outcome(kind, tagged_encode_outcome(kind, value, mode)->Ok_0) == Ok::<
            Seq<u8>,
            DecodeError,
        >(value),
{
    let payload = encode_outcome(kind, value, mode)->Ok_0;
    let bytes = seq![mode_tag(mode)] + payload;
    assert(bytes.drop_first() =~= payload);
}

pub(crate) fn encode_tagged_bytes(kind: ArtifactKind, value: &[u8], mode: Mode) -> (result: Result<
    Vec<u8>,
    EncodeError,
>)
    ensures
        match result {
            Ok(bytes) => tagged_encode_outcome(kind, value@, mode) == Ok::<Seq<u8>, EncodeError>(
                bytes@,
            ),
            Err(e) => tagged_encode_outcome(kind, value@, mode) == Err::<Seq<u8>, EncodeError>(e),
        },
{
    match encode_bytes(kind, value, mode) {
        Ok(payload) => Ok(tag(mode, payload.as_slice())),
        Err(e) => Err(e),
    }
}

pub(crate) fn decode_tagged_bytes(kind: ArtifactKind, bytes: &[u8]) -> (result: Result<
    Vec<u8>,
    DecodeError,
>)
    ensures
        match result {
            Ok(value) => tagged_decode_outcome(kind, bytes@) == Ok::<Seq<u8>, DecodeError>(value@)
                && canonical(kind, value@),
            Err(e) => tagged_decode_outcome(kind, bytes@) == Err::<Seq<u8>, DecodeError>(e),
        },
{
    match untag(bytes) {
        Ok((mode, payload)) => decode_bytes(kind, payload.as_slice(), mode),
        Err(e) => Err(e),
    }
}

/// What the prover needs of a circuit to make proofs for it.
#[derive(Debug, PartialEq, Eq)]
pub struct ProvingKey {
    bytes: Vec<u8>,
}

impl View for ProvingKey {
    type V = Seq<u8>;

    closed spec fn view(&self) -> Seq<u8> {
        self.bytes@
    }
}

impl ProvingKey {
    /// Every value is held by its canonical compressed encoding.
    #[verifier::type_invariant]
    pub closed spec fn wf(&self) -> bool {
        canonical(ArtifactKind::ProvingKey, self.bytes@)
    }

    /// The value with the given canonical bytes.
    pub(crate) fn from_canonical(bytes: Vec<u8>) -> (value: ProvingKey)
        requires
            canonical(ArtifactKind::ProvingKey, bytes@),
        ensures
            value@ == bytes@,
            value.wf(),
    {
        ProvingKey { bytes }
    }

    /// The canonical compressed encoding.
    pub fn as_bytes(&self) -> (bytes: &[u8])
        ensures
            bytes@ == self@,
            canonical(ArtifactKind::ProvingKey, self@),
    {
        proof {
            use_type_invariant(self);
        }
        self.bytes.as_slice()
    }

    /// Decodes a value from its encoding in the given mode.
    pub fn decode(bytes: &[u8], mode: Mode) -> (result: Result<ProvingKey, DecodeError>)
        ensures
            match result {
                Ok(value) => decode_outcome(ArtifactKind::ProvingKey, bytes@, mode) == Ok::<
                    Seq<u8>,
                    DecodeError,
                >(value@) && value.wf(),
                Err(e) => decode_outcome(ArtifactKind::ProvingKey, bytes@, mode) == Err::<
                    Seq<u8>,
                    DecodeError,
                >(e),
            },
    {
        match decode_bytes(ArtifactKind::ProvingKey, bytes, mode) {
            Ok(value) => Ok(ProvingKey { bytes: value }),
            Err(e) => Err(e),
        }
    }

    /// Encodes the value in the given mode.
    pub fn encode(&self, mode: Mode) -> (result: Result<Vec<u8>, EncodeError>)
        ensures
            match result {
                Ok(bytes) => encode_outcome(ArtifactKind::ProvingKey, self@, mode) == Ok::<
                    Seq<u8>,
                    EncodeError,
                >(bytes@),
                Err(e) => encode_outcome(ArtifactKind::ProvingKey, self@, mode) == Err::<
                    Seq<u8>,
                    EncodeError,
                >(e),
            },
    {
        encode_bytes(ArtifactKind::ProvingKey, self.bytes.as_slice(), mode)
    }

    /// Encodes the value in the given mode, with the mode's tag before it.
    pub fn encode_tagged(&self, mode: Mode) -> (result: Result<Vec<u8>, EncodeError>)
        ensures
            match result {
                Ok(bytes) => tagged_encode_outcome(ArtifactKind::ProvingKey, self@, mode) == Ok::<
                    Seq<u8>,
                    EncodeError,
                >(bytes@),
                Err(e) => tagged_encode_outcome(ArtifactKind::ProvingKey, self@, mode) == Err::<
                    Seq<u8>,
                    EncodeError,
                >(e),
            },
    {
        encode_tagged_bytes(ArtifactKind::ProvingKey, self.bytes.as_slice(), mode)
    }

    /// Decodes a value from an encoding with a tag before it.
    pub fn decode_tagged(bytes: &[u8]) -> (result: Result<ProvingKey, DecodeError>)
        ensures
            match result {
                Ok(value) => tagged_decode_outcome(ArtifactKind::ProvingKey, bytes@) == Ok::<
                    Seq<u8>,
                    DecodeError,
                >(value@) && value.wf(),
                Err(e) => tagged_decode_outcome(ArtifactKind::ProvingKey, bytes@) == Err::<
                    Seq<u8>,
                    DecodeError,
                >(e),
            },
    {
        match decode_tagged_bytes(ArtifactKind::ProvingKey, bytes) {
            Ok(value) => Ok(ProvingKey { bytes: value }),
            Err(e) => Err(e),
        }
    }

    /// The compressed encoding, which every value has.
    pub fn serialize_compressed(&self) -> (bytes: Vec<u8>)
        ensures
            bytes@ == self@,
            encode_outcome(ArtifactKind::ProvingKey, self@, Mode::Compressed) == Ok::<
                Seq<u8>,
                EncodeError,
            >(bytes@),
    {
        proof {
            use_type_invariant(self);
            lemma_compressed_is_identity(ArtifactKind::ProvingKey, self.bytes@);
        }
        let mut bytes: Vec<u8> = Vec::new();
        bytes.extend_from_slice(self.bytes.as_slice());
        assert(bytes@ =~= self.bytes@);
        bytes
    }

    /// The uncompressed encoding.
    pub fn serialize_uncompressed(&self) -> (result: Result<Vec<u8>, EncodeError>)
        ensures
            match result {
                Ok(bytes) => encode_outcome(ArtifactKind::ProvingKey, self@, Mode::Uncompressed)
                    == Ok::<Seq<u8>, EncodeError>(bytes@),
                Err(e) => encode_outcome(ArtifactKind::ProvingKey, self@, Mode::Uncompressed)
                    == Err::<Seq<u8>, EncodeError>(e),
            },
    {
        self.encode(Mode::Uncompressed)
    }
}

/// What the verifier needs of a circuit to check proofs for it.
#[derive(Debug, PartialEq, Eq)]
pub struct VerifyingKey {
    bytes: Vec<u8>,
}

impl View for VerifyingKey {
    type V = Seq<u8>;

    closed spec fn view(&self) -> Seq<u8> {
        self.bytes@
    }
}

impl VerifyingKey {
    /// Every value is held by its canonical compressed encoding.
    #[verifier::type_invariant]
    pub closed spec fn wf(&self) -> bool {
        canonical(ArtifactKind::VerifyingKey, self.bytes@)
    }

    /// The value with the given canonical bytes.
    pub(crate) fn from_canonical(bytes: Vec<u8>) -> (value: VerifyingKey)
        requires
            canonical(ArtifactKind::VerifyingKey, bytes@),
        ensures
            value@ == bytes@,
            value.wf(),
    {
        VerifyingKey { bytes }
    }

    /// The canonical compressed encoding.
    pub fn as_bytes(&self) -> (bytes: &[u8])
        ensures
            bytes@ == self@,
            canonical(ArtifactKind::VerifyingKey, self@),
    {
        proof {
            use_type_invariant(self);
        }
        self.bytes.as_slice()
    }

    /// Decodes a value from its encoding in the given mode.
    pub fn decode(bytes: &[u8], mode: Mode) -> (result: Result<VerifyingKey, DecodeError>)
        ensures
            match result {
                Ok(value) => decode_outcome(ArtifactKind::VerifyingKey, bytes@, mode) == Ok::<
                    Seq<u8>,
                    DecodeError,
                >(value@) && value.wf(),
                Err(e) => decode_outcome(ArtifactKind::VerifyingKey, bytes@, mode) == Err::<
                    Seq<u8>,
                    DecodeError,
                >(e),
            },
    {
        match decode_bytes(ArtifactKind::VerifyingKey, bytes, mode) {
            Ok(value) => Ok(VerifyingKey { bytes: value }),
            Err(e) => Err(e),
        }
    }

    /// Encodes the value in the given mode.
    pub fn encode(&self, mode: Mode) -> (result: Result<Vec<u8>, EncodeError>)
        ensures
            match result {
                Ok(bytes) => encode_outcome(ArtifactKind::VerifyingKey, self@, mode) == Ok::<
                    Seq<u8>,
                    EncodeError,
                >(bytes@),
                Err(e) => encode_outcome(ArtifactKind::VerifyingKey, self@, mode) == Err::<
                    Seq<u8>,
                    EncodeError,
                >(e),
            },
    {
        encode_bytes(ArtifactKind::VerifyingKey, self.bytes.as_slice(), mode)
    }

    /// Encodes the value in the given mode, with the mode's tag before it.
    pub fn encode_tagged(&self, mode: Mode) -> (result: Result<Vec<u8>, EncodeError>)
        ensures
            match result {
                Ok(bytes) => tagged_encode_outcome(ArtifactKind::VerifyingKey, self@, mode) == Ok::<
                    Seq<u8>,
                    EncodeError,
                >(bytes@),
                Err(e) => tagged_encode_outcome(ArtifactKind::VerifyingKey, self@, mode) == Err::<
                    Seq<u8>,
                    EncodeError,
                >(e),
            },
    {
        encode_tagged_bytes(ArtifactKind::VerifyingKey, self.bytes.as_slice(), mode)
    }

    /// Decodes a value from an encoding with a tag before it.
    pub fn decode_tagged(bytes: &[u8]) -> (result: Result<VerifyingKey, DecodeError>)
        ensures
            match result {
                Ok(value) => tagged_decode_outcome(ArtifactKind::VerifyingKey, bytes@) == Ok::<
                    Seq<u8>,
                    DecodeError,
                >(value@) && value.wf(),
                Err(e) => tagged_decode_outcome(ArtifactKind::VerifyingKey, bytes@) == Err::<
                    Seq<u8>,
                    DecodeError,
                >(e),
            },
    {
        match decode_tagged_bytes(ArtifactKind::VerifyingKey, bytes) {
            Ok(value) => Ok(VerifyingKey { bytes: value }),
            Err(e) => Err(e),
        }
    }

    /// The compressed encoding, which every value has.
    pub fn serialize_compressed(&self) -> (bytes: Vec<u8>)
        ensures
            bytes@ == self@,
            encode_outcome(ArtifactKind::VerifyingKey, self@, Mode::Compressed) == Ok::<
                Seq<u8>,
                EncodeError,
            >(bytes@),
    {
        proof {
            use_type_invariant(self);
            lemma_compressed_is_identity(ArtifactKind::VerifyingKey, self.bytes@);
        }
        let mut bytes: Vec<u8> = Vec::new();
        bytes.extend_from_slice(self.bytes.as_slice());
        assert(bytes@ =~= self.bytes@);
        bytes
    }

    /// The uncompressed encoding.
    pub fn serialize_uncompressed(&self) -> (result: Result<Vec<u8>, EncodeError>)
        ensures
            match result {
                Ok(bytes) => encode_outcome(ArtifactKind::VerifyingKey, self@, Mode::Uncompressed)
                    == Ok::<Seq<u8>, EncodeError>(bytes@),
                Err(e) => encode_outcome(ArtifactKind::VerifyingKey, self@, Mode::Uncompressed)
                    == Err::<Seq<u8>, EncodeError>(e),
            },
    {
        self.encode(Mode::Uncompressed)
    }
}

/// A proof that an assignment meets a circuit.
#[derive(Debug, PartialEq, Eq)]
pub struct Proof {
    bytes: Vec<u8>,
}

impl View for Proof {
    type V = Seq<u8>;

    closed spec fn view(&self) -> Seq<u8> {
        self.bytes@
    }
}

impl Proof {
    /// Every value is held by its canonical compressed encoding.
    #[verifier::type_invariant]
    pub closed spec fn wf(&self) -> bool {
        canonical(ArtifactKind::Proof, self.bytes@)
    }

    /// The value with the given canonical bytes.
    pub(crate) fn from_canonical(bytes: Vec<u8>) -> (value: Proof)
        requires
            canonical(ArtifactKind::Proof, bytes@),
        ensures
            value@ == bytes@,
            value.wf(),
    {
        Proof { bytes }
    }

    /// The canonical compressed encoding.
    pub fn as_bytes(&self) -> (bytes: &[u8])
        ensures
            bytes@ == self@,
            canonical(ArtifactKind::Proof, self@),
    {
        proof {
            use_type_invariant(self);
        }
        self.bytes.as_slice()
    }

    /// Decodes a value from its encoding in the given mode.
    pub fn decode(bytes: &[u8], mode: Mode) -> (result: Result<Proof, DecodeError>)
        ensures
            match result {
                Ok(value) => decode_outcome(ArtifactKind::Proof, bytes@, mode) == Ok::<
                    Seq<u8>,
                    DecodeError,
                >(value@) && value.wf(),
                Err(e) => decode_outcome(ArtifactKind::Proof, bytes@, mode) == Err::<
                    Seq<u8>,
                    DecodeError,
                >(e),
            },
    {
        match decode_bytes(ArtifactKind::Proof, bytes, mode) {
            Ok(value) => Ok(Proof { bytes: value }),
            Err(e) => Err(e),
        }
    }

    /// Encodes the value in the given mode.
    pub fn encode(&self, mode: Mode) -> (result: Result<Vec<u8>, EncodeError>)
        ensures
            match result {
                Ok(bytes) => encode_outcome(ArtifactKind::Proof, self@, mode) == Ok::<
                    Seq<u8>,
                    EncodeError,
                >(bytes@),
                Err(e) => encode_outcome(ArtifactKind::Proof, self@, mode) == Err::<
                    Seq<u8>,
                    EncodeError,
                >(e),
            },
    {
        encode_bytes(ArtifactKind::Proof, self.bytes.as_slice(), mode)
    }

    /// Encodes the value in the given mode, with the mode's tag before it.
    pub fn encode_tagged(&self, mode: Mode) -> (result: Result<Vec<u8>, EncodeError>)
        ensures
            match result {
                Ok(bytes) => tagged_encode_outcome(ArtifactKind::Proof, self@, mode) == Ok::<
                    Seq<u8>,
                    EncodeError,
                >(bytes@),
                Err(e) => tagged_encode_outcome(ArtifactKind::Proof, self@, mode) == Err::<
                    Seq<u8>,
                    EncodeError,
                >(e),
            },
    {
        encode_tagged_bytes(ArtifactKind::Proof, self.bytes.as_slice(), mode)
    }

    /// Decodes a value from an encoding with a tag before it.
    pub fn decode_tagged(bytes: &[u8]) -> (result: Result<Proof, DecodeError>)
        ensures
            match result {
                Ok(value) => tagged_decode_outcome(ArtifactKind::Proof, bytes@) == Ok::<
                    Seq<u8>,
                    DecodeError,
                >(value@) && value.wf(),
                Err(e) => tagged_decode_outcome(ArtifactKind::Proof, bytes@) == Err::<
                    Seq<u8>,
                    DecodeError,
                >(e),
            },
    {
        match decode_tagged_bytes(ArtifactKind::Proof, bytes) {
            Ok(value) => Ok(Proof { bytes: value }),
            Err(e) => Err(e),
        }
    }

    /// The compressed encoding, which every value has.
    pub fn serialize_compressed(&self) -> (bytes: Vec<u8>)
        ensures
            bytes@ == self@,
            encode_outcome(ArtifactKind::Proof, self@, Mode::Compressed) == Ok::<
                Seq<u8>,
                EncodeError,
            >(bytes@),
    {
        proof {
            use_type_invariant(self);
            lemma_compressed_is_identity(ArtifactKind::Proof, self.bytes@);
        }
        let mut bytes: Vec<u8> = Vec::new();
        bytes.extend_from_slice(self.bytes.as_slice());
        assert(bytes@ =~= self.bytes@);
        bytes
    }

    /// The uncompressed encoding.
    pub fn serialize_uncompressed(&self) -> (result: Result<Vec<u8>, EncodeError>)
        ensures
            match result {
                Ok(bytes) => encode_outcome(ArtifactKind::Proof, self@, Mode::Uncompressed)
                    == Ok::<Seq<u8>, EncodeError>(bytes@),
                Err(e) => encode_outcome(ArtifactKind::Proof, self@, Mode::Uncompressed)
                    == Err::<Seq<u8>, EncodeError>(e),
            },
    {
        self.encode(Mode::Uncompressed)
    }
}

} // verus!
