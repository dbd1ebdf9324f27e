//! Key generation, proving and verification with Groth16 over BN254.
//!
//! The scheme itself is the backend's. This module decides what is handed
//! to it and what is made of its answers: it refuses a circuit without
//! constraints, an assignment that breaks a constraint, a key of the wrong
//! shape and a wrong number of public inputs before the backend is asked,
//! and it checks every key and proof that the backend hands back.
use crate::artifact::{
    canonical, decode_bytes, decode_outcome, view_of, ArtifactKind, Mode, Proof, ProvingKey,
    VerifyingKey,
};
use crate::encoder::{concatenation_outcome, decode_public_inputs};
use crate::bytes::same_bytes;
use crate::circuit::{
    constraint_holds, constraint_list_bytes, constraints_canonical, encode_values, satisfied,
    value_list_bytes, values_canonical, ConstraintSystem, SystemView,
};
use crate::error::{DecodeError, ProveError, SetupError, VerifyError};
use crate::field::{field_values, FieldElement};
use crate::layout::{key_shape, key_slots, read_key_shape, read_key_slots, KeyShape};
use ark_bn254::{Bn254, Fr};
use ark_circom::circom::{Constraints, R1CS};
use ark_circom::CircomCircuit;
use ark_groth16::Groth16;
use ark_serialize::{CanonicalDeserialize, CanonicalSerialize};
use ark_snark::SNARK;
use ark_std::rand::rngs::StdRng;
use ark_std::rand::{RngCore, SeedableRng};
use vstd::prelude::*;

verus! {

/// Randomness for one key generation or one proof: a seed of 32 bytes.
/// It is used up by the call it is handed to, and it can be neither
/// copied nor printed.
pub struct Randomness {
    seed: [u8; 32],
}

impl View for Randomness {
    type V = Seq<u8>;

    closed spec fn view(&self) -> Seq<u8> {
        self.seed@
    }
}

/// Fills a seed from the thread's random number generator, `thread_rng`.
/// Nothing is promised of the bytes: they differ from call to call.
#[verifier::external_body]
fn random_seed() -> (seed: [u8; 32]) {
    let mut seed = [0u8; 32];
    ark_std::rand::thread_rng().fill_bytes(&mut seed);
    seed
}

impl Randomness {
    /// Randomness from a given seed. The same seed gives the same keys and
    /// the same proof: outside of tests a seed must never be used twice.
    pub fn from_seed(seed: [u8; 32]) -> (randomness: Randomness)
        ensures
            randomness@ == seed@,
    {
        Randomness { seed }
    }

    /// Fresh randomness from the operating system.
    pub fn fresh() -> (randomness: Randomness) {
        Randomness { seed: random_seed() }
    }
}

/// The keys that the backend generates for a circuit from a seed: the
/// compressed bytes of the proving key and of the verifying key, or `None`
/// where it generates none. The circuit is given by its numbers of public
/// wires and of wires and by the bytes of its constraints.
pub uninterp spec fn backend_keys(
    num_public: nat,
    num_wires: nat,
    constraints: Seq<u8>,
    seed: Seq<u8>,
) -> Option<(Seq<u8>, Seq<u8>)>;

/// The proof that the backend makes with a proving key for a circuit and
/// an assignment from a seed: its compressed bytes, or `None` where it
/// makes none.
pub uninterp spec fn backend_proof(
    proving_key: Seq<u8>,
    num_public: nat,
    num_wires: nat,
    constraints: Seq<u8>,
    assignment: Seq<u8>,
    seed: Seq<u8>,
) -> Option<Seq<u8>>;

/// Whether the backend accepts a proof under a verifying key for public
/// inputs, or `None` where it cannot read one of the three.
pub uninterp spec fn backend_verdict(verifying_key: Seq<u8>, inputs: Seq<u8>, proof: Seq<u8>)
    -> Option<bool>;

/// Whether the numbers and bytes are those of the well-formed `system`,
/// and the bytes say all of it: no count and no coefficient is too large
/// for the room that the bytes give it.
pub open spec fn encodes_system(
    system: SystemView,
    num_public: nat,
    num_wires: nat,
    constraints: Seq<u8>,
) -> bool {
    &&& system.wf()
    &&& system.num_public == num_public
    &&& system.num_wires == num_wires
    &&& constraints_canonical(system.constraints)
    &&& constraints == constraint_list_bytes(system.constraints)
}

/// Whether the numbers and bytes are those of the well-formed `system` and
/// of an assignment that satisfies it, and the bytes say all of both.
pub open spec fn encodes_instance(
    system: SystemView,
    values: Seq<nat>,
    num_public: nat,
    num_wires: nat,
    constraints: Seq<u8>,
    assignment: Seq<u8>,
) -> bool {
    &&& encodes_system(system, num_public, num_wires, constraints)
    &&& satisfied(system, values)
    &&& values_canonical(values)
    &&& assignment == value_list_bytes(values)
}

/// The bytes that an optional pair of byte vectors holds.
pub open spec fn pair_view(pair: Option<(Vec<u8>, Vec<u8>)>) -> Option<(Seq<u8>, Seq<u8>)> {
    match pair {
        Some((a, b)) => Some((a@, b@)),
        None => None,
    }
}

/// Runs `Groth16::<Bn254>::circuit_specific_setup` on the circuit, with a
/// `StdRng` seeded by `seed`, and writes both keys compressed. The result
/// is named, not described. The circuit must be well formed, and the
/// bytes must say all of it: the backend does not check the wires that the
/// constraints it reads name. The backend inverts
/// two of the field elements that it draws and stops the program if one of
/// them is zero, which a seed brings about with a chance of two in the
/// size of the field.
#[verifier::external_body]
fn backend_setup(
    num_public: usize,
    num_private: usize,
    num_wires: usize,
    constraints: &[u8],
    seed: &[u8; 32],
) -> (out: Option<(Vec<u8>, Vec<u8>)>)
    requires
        num_public + num_private == num_wires,
        exists|system: SystemView| #[trigger]
            encodes_system(system, num_public as nat, num_wires as nat, constraints@),
    ensures
        pair_view(out) == backend_keys(num_public as nat, num_wires as nat, constraints@, seed@),
{
    let constraints = Vec::<Constraints<Fr>>::deserialize_uncompressed(constraints).ok()?;
    let r1cs = R1CS {
        num_inputs: num_public,
        num_aux: num_private,
        num_variables: num_wires,
        constraints,
        wire_mapping: None,
    };
    let circuit = CircomCircuit { r1cs, witness: None };
    let mut rng = StdRng::from_seed(*seed);
    let (pk, vk) = Groth16::<Bn254>::circuit_specific_setup(circuit, &mut rng).ok()?;
    let (mut p, mut v) = (Vec::new(), Vec::new());
    pk.serialize_compressed(&mut p).ok()?;
    vk.serialize_compressed(&mut v).ok()?;
    Some((p, v))
}

/// Runs `Groth16::<Bn254>::prove` with the key on the circuit and the
/// assignment, with a `StdRng` seeded by `seed`, and writes the proof
/// compressed. The result is named, not described. The assignment must
/// satisfy the well-formed circuit, the bytes must say all of both, and
/// each of the key's three lists for the wires must hold a point: the
/// backend checks none of this.
#[verifier::external_body]
fn backend_prove(
    proving_key: &[u8],
    num_public: usize,
    num_private: usize,
    num_wires: usize,
    constraints: &[u8],
    assignment: &[u8],
    seed: &[u8; 32],
) -> (out: Option<Vec<u8>>)
    requires
        num_public + num_private == num_wires,
        exists|system: SystemView, values: Seq<nat>| #[trigger]
            encodes_instance(
                system,
                values,
                num_public as nat,
                num_wires as nat,
                constraints@,
                assignment@,
            ),
        key_shape(proving_key@) matches Some(shape) && shape.a >= 1 && shape.b1 >= 1 && shape.b2
            >= 1,
    ensures
        view_of(out) == backend_proof(
            proving_key@,
            num_public as nat,
            num_wires as nat,
            constraints@,
            assignment@,
            seed@,
        ),
{
    let pk = ark_groth16::ProvingKey::<Bn254>::deserialize_compressed(proving_key).ok()?;
    let constraints = Vec::<Constraints<Fr>>::deserialize_uncompressed(constraints).ok()?;
    let witness = Vec::<Fr>::deserialize_uncompressed(assignment).ok()?;
    let r1cs = R1CS {
        num_inputs: num_public,
        num_aux: num_private,
        num_variables: num_wires,
        constraints,
        wire_mapping: None,
    };
    let circuit = CircomCircuit { r1cs, witness: Some(witness) };
    let proof = Groth16::<Bn254>::prove(&pk, circuit, &mut StdRng::from_seed(*seed)).ok()?;
    let mut out = Vec::new();
    proof.serialize_compressed(&mut out).ok()?;
    Some(out)
}

/// Runs `Groth16::<Bn254>::verify` on the key, the public inputs and the
/// proof, each read from its bytes. The result is named, not described.
/// The key must hold a point for the constant wire: the backend takes the
/// first point of its list without looking whether there is one.
#[verifier::external_body]
fn backend_verify(verifying_key: &[u8], inputs: &[u8], proof: &[u8]) -> (out: Option<bool>)
    requires
        key_slots(verifying_key@) matches Some(slots) && slots >= 1,
    ensures
        out == backend_verdict(verifying_key@, inputs@, proof@),
{
    let vk = ark_groth16::VerifyingKey::<Bn254>::deserialize_compressed(verifying_key).ok()?;
    let inputs = Vec::<Fr>::deserialize_uncompressed(inputs).ok()?;
    let proof = ark_groth16::Proof::<Bn254>::deserialize_compressed(proof).ok()?;
    Groth16::<Bn254>::verify(&vk, &inputs, &proof).ok()
}

/// The shape of the proving key of a circuit: a point for each public
/// wire, three for each wire, and one for each private wire.
pub open spec fn fits(shape: KeyShape, system: SystemView) -> bool {
    &&& shape.slots == system.num_public
    &&& shape.a == system.num_wires
    &&& shape.b1 == system.num_wires
    &&& shape.b2 == system.num_wires
    &&& shape.l == system.num_wires - system.num_public
}

/// What key generation returns for a circuit and a seed: the bytes of the
/// two keys, or why there are none.
pub open spec fn setup_outcome(system: SystemView, seed: Seq<u8>) -> Result<
    (Seq<u8>, Seq<u8>),
    SetupError,
> {
    if system.constraints.len() == 0 {
        Err(SetupError::NoConstraints)
    } else {
        match backend_keys(
            system.num_public,
            system.num_wires,
            constraint_list_bytes(system.constraints),
            seed,
        ) {
            None => Err(SetupError::Backend),
            Some((proving, verifying)) => if canonical(ArtifactKind::ProvingKey, proving)
                && canonical(ArtifactKind::VerifyingKey, verifying) && (key_shape(proving) matches Some(
                shape,
            ) && fits(shape, system)) && key_slots(verifying) == Some(system.num_public) {
                Ok((proving, verifying))
            } else {
                Err(SetupError::InvalidKeys)
            },
        }
    }
}

/// Why no proof can be asked for, if there is a reason: the assignment
/// has the wrong length, has no one on the constant wire, or breaks a
/// constraint, the first such being named.
pub open spec fn assignment_fault(system: SystemView, values: Seq<nat>) -> Option<ProveError> {
    if values.len() != system.num_wires {
        Some(
            ProveError::WrongWireCount {
                expected: system.num_wires as usize,
                found: values.len() as usize,
            },
        )
    } else if values[0] != 1 {
        Some(ProveError::ConstantWireNotOne)
    } else if exists|i: int|
        0 <= i < system.constraints.len() && !constraint_holds(
            #[trigger] system.constraints[i],
            values,
        ) {
        Some(ProveError::Unsatisfied { constraint: first_broken_index(system, values) as usize })
    } else {
        None
    }
}

/// The place of the first constraint that the assignment breaks.
pub open spec fn first_broken_index(system: SystemView, values: Seq<nat>) -> int {
    choose|i: int|
        0 <= i < system.constraints.len() && !constraint_holds(
            #[trigger] system.constraints[i],
            values,
        ) && forall|k: int|
            0 <= k < i ==> constraint_holds(#[trigger] system.constraints[k], values)
}

/// What proving returns: the bytes of the proof, or why there is none.
pub open spec fn prove_outcome(
    proving_key: Seq<u8>,
    system: SystemView,
    values: Seq<nat>,
    seed: Seq<u8>,
) -> Result<Seq<u8>, ProveError> {
    match assignment_fault(system, values) {
        Some(fault) => Err(fault),
        None => if !(key_shape(proving_key) matches Some(shape) && fits(shape, system)) {
            Err(ProveError::KeyMismatch)
        } else {
            match backend_proof(
                proving_key,
                system.num_public,
                system.num_wires,
                constraint_list_bytes(system.constraints),
                value_list_bytes(values),
                seed,
            ) {
                None => Err(ProveError::Backend),
                Some(proof) => if canonical(ArtifactKind::Proof, proof) {
                    Ok(proof)
                } else {
                    Err(ProveError::InvalidProof)
                },
            }
        },
    }
}

/// What verification returns: whether the proof holds, or why the inputs
/// of the verification are malformed.
pub open spec fn verify_outcome(verifying_key: Seq<u8>, inputs: Seq<nat>, proof: Seq<u8>)
    -> Result<bool, VerifyError> {
    match key_slots(verifying_key) {
        None => Err(VerifyError::MalformedKey),
        Some(slots) => if slots == 0 {
            Err(VerifyError::MalformedKey)
        } else if inputs.len() + 1 != slots {
            Err(
                VerifyError::InputCount {
                    expected: (slots - 1) as usize,
                    found: inputs.len() as usize,
                },
            )
        } else {
            match backend_verdict(verifying_key, value_list_bytes(inputs), proof) {
                None => Err(VerifyError::Backend),
                Some(holds) => Ok(holds),
            }
        },
    }
}

/// Verification is a function of its three inputs: what it returns twice
/// for the same key, inputs and proof is the same.
pub proof fn lemma_verification_is_deterministic(
    verifying_key: Seq<u8>,
    inputs: Seq<nat>,
    proof: Seq<u8>,
    first: Result<bool, VerifyError>,
    second: Result<bool, VerifyError>,
)
    requires
        first == verify_outcome(verifying_key, inputs, proof),
        second == verify_outcome(verifying_key, inputs, proof),
    ensures
        first == second,
{
}

/// Generates the pair of keys for a circuit. The randomness is used up.
pub fn generate(system: &ConstraintSystem, randomness: Randomness) -> (result: Result<
    (ProvingKey, VerifyingKey),
    SetupError,
>)
    ensures
        match result {
            Ok((proving, verifying)) => setup_outcome(system@, randomness@) == Ok::<
                (Seq<u8>, Seq<u8>),
                SetupError,
            >((proving@, verifying@)) && proving.wf() && verifying.wf(),
            Err(e) => setup_outcome(system@, randomness@) == Err::<(Seq<u8>, Seq<u8>), SetupError>(
                e,
            ),
        },
{
    if system.num_constraints() == 0 {
        return Err(SetupError::NoConstraints);
    }
    let num_public = system.num_public();
    let num_wires = system.num_wires();
    let constraints = system.encode_constraints();
    proof {
        use_type_invariant(system);
        system.lemma_wf();
        assert(encodes_system(system@, num_public as nat, num_wires as nat, constraints@));
    }
    let (proving, verifying) = match backend_setup(
        num_public,
        num_wires - num_public,
        num_wires,
        constraints.as_slice(),
        &randomness.seed,
    ) {
        None => {
            return Err(SetupError::Backend);
        },
        Some(pair) => pair,
    };
    let proving_ok = match decode_bytes(ArtifactKind::ProvingKey, proving.as_slice(), Mode::Compressed) {
        Ok(again) => same_bytes(again.as_slice(), proving.as_slice()),
        Err(_) => false,
    };
    let verifying_ok = match decode_bytes(
        ArtifactKind::VerifyingKey,
        verifying.as_slice(),
        Mode::Compressed,
    ) {
        Ok(again) => same_bytes(again.as_slice(), verifying.as_slice()),
        Err(_) => false,
    };
    let shape_ok = match read_key_shape(proving.as_slice()) {
        Some(shape) => shape.slots == num_public && shape.a == num_wires && shape.b1 == num_wires
            && shape.b2 == num_wires && shape.l == num_wires - num_public,
        None => false,
    };
    let slots_ok = match read_key_slots(verifying.as_slice()) {
        Some(slots) => slots == num_public,
        None => false,
    };
    if proving_ok && verifying_ok && shape_ok && slots_ok {
        Ok((ProvingKey::from_canonical(proving), VerifyingKey::from_canonical(verifying)))
    } else {
        Err(SetupError::InvalidKeys)
    }
}

/// Why no proof can be asked for with this assignment, if there is a reason.
pub fn check_assignment(system: &ConstraintSystem, assignment: &Vec<FieldElement>) -> (fault:
    Option<ProveError>)
    ensures
        fault == assignment_fault(system@, field_values(assignment@)),
        fault is None ==> satisfied(system@, field_values(assignment@)),
{
    let ghost values = field_values(assignment@);
    if assignment.len() != system.num_wires() {
        return Some(
            ProveError::WrongWireCount { expected: system.num_wires(), found: assignment.len() },
        );
    }
    let num_public = system.num_public();
    if !assignment[0].same(&FieldElement::one()) {
        return Some(ProveError::ConstantWireNotOne);
    }
    match system.first_broken(assignment) {
        Some(i) => {
            proof {
                let j = first_broken_index(system@, values);
                assert(!constraint_holds(system@.constraints[i as int], values));
                if j < i {
                    assert(constraint_holds(system@.constraints[j], values));
                }
                if i < j {
                    assert(constraint_holds(system@.constraints[i as int], values));
                }
            }
            Some(ProveError::Unsatisfied { constraint: i })
        },
        None => None,
    }
}

/// Makes a proof that the assignment meets the circuit, with the proving
/// key that was generated for the circuit. The randomness is used up.
pub fn prove(
    proving_key: &ProvingKey,
    system: &ConstraintSystem,
    assignment: &Vec<FieldElement>,
    randomness: Randomness,
) -> (result: Result<Proof, ProveError>)
    ensures
        match result {
            Ok(proof) => prove_outcome(
                proving_key@,
                system@,
                field_values(assignment@),
                randomness@,
            ) == Ok::<Seq<u8>, ProveError>(proof@) && proof.wf(),
            Err(e) => prove_outcome(proving_key@, system@, field_values(assignment@), randomness@)
                == Err::<Seq<u8>, ProveError>(e),
        },
{
    match check_assignment(system, assignment) {
        Some(fault) => {
            return Err(fault);
        },
        None => {},
    }
    let num_public = system.num_public();
    let num_wires = system.num_wires();
    let key = proving_key.as_bytes();
    let shape_ok = match read_key_shape(key) {
        Some(shape) => shape.slots == num_public && shape.a == num_wires && shape.b1 == num_wires
            && shape.b2 == num_wires && shape.l == num_wires - num_public,
        None => false,
    };
    if !shape_ok {
        return Err(ProveError::KeyMismatch);
    }
    let constraints = system.encode_constraints();
    let values = encode_values(assignment);
    proof {
        use_type_invariant(system);
        system.lemma_wf();
        assert(encodes_instance(
            system@,
            field_values(assignment@),
            num_public as nat,
            num_wires as nat,
            constraints@,
            values@,
        ));
    }
    let bytes = match backend_prove(
        key,
        num_public,
        num_wires - num_public,
        num_wires,
        constraints.as_slice(),
        values.as_slice(),
        &randomness.seed,
    ) {
        None => {
            return Err(ProveError::Backend);
        },
        Some(bytes) => bytes,
    };
    let ok = match decode_bytes(ArtifactKind::Proof, bytes.as_slice(), Mode::Compressed) {
        Ok(again) => same_bytes(again.as_slice(), bytes.as_slice()),
        Err(_) => false,
    };
    if ok {
        Ok(Proof::from_canonical(bytes))
    } else {
        Err(ProveError::InvalidProof)
    }
}

/// Checks a proof against a verifying key and public inputs. `Ok(false)`
/// says that key, inputs and proof are well formed and the proof does not
/// hold; an error says that one of them is malformed.
pub fn verify(verifying_key: &VerifyingKey, inputs: &Vec<FieldElement>, proof: &Proof) -> (result:
    Result<bool, VerifyError>)
    ensures
        result == verify_outcome(verifying_key@, field_values(inputs@), proof@),
{
    let key = verifying_key.as_bytes();
    let slots = match read_key_slots(key) {
        None => {
            return Err(VerifyError::MalformedKey);
        },
        Some(slots) => slots,
    };
    if slots == 0 {
        return Err(VerifyError::MalformedKey);
    }
    if inputs.len() != slots - 1 {
        return Err(VerifyError::InputCount { expected: slots - 1, found: inputs.len() });
    }
    let encoded = encode_values(inputs);
    match backend_verify(key, encoded.as_slice(), proof.as_bytes()) {
        None => Err(VerifyError::Backend),
        Some(holds) => Ok(holds),
    }
}

/// What verification from encodings returns: what verification returns
/// for what the three encodings decode to, or the first of them that does
/// not decode, the key before the inputs before the proof.
pub open spec fn encoded_verify_outcome(
    verifying_key: Seq<u8>,
    inputs: Seq<u8>,
    proof: Seq<u8>,
    mode: Mode,
) -> Result<bool, VerifyError> {
    match decode_outcome(ArtifactKind::VerifyingKey, verifying_key, mode) {
        Err(e) => Err(VerifyError::Undecodable(e)),
        Ok(key) => match concatenation_outcome(inputs) {
            Err(e) => Err(VerifyError::Undecodable(e)),
            Ok(values) => match decode_outcome(ArtifactKind::Proof, proof, mode) {
                Err(e) => Err(VerifyError::Undecodable(e)),
                Ok(decoded) => verify_outcome(key, values, decoded),
            },
        },
    }
}

/// Checks a proof against a verifying key and public inputs, all three
/// given by their encodings: key and proof in the given mode, the inputs
/// each in its own 32 bytes.
pub fn verify_encoded(verifying_key: &[u8], inputs: &[u8], proof: &[u8], mode: Mode) -> (result:
    Result<bool, VerifyError>)
    ensures
        result == encoded_verify_outcome(verifying_key@, inputs@, proof@, mode),
{
    let key = match VerifyingKey::decode(verifying_key, mode) {
        Err(e) => {
            return Err(VerifyError::Undecodable(e));
        },
        Ok(key) => key,
    };
    let values = match decode_public_inputs(inputs) {
        Err(e) => {
            return Err(VerifyError::Undecodable(e));
        },
        Ok(values) => values,
    };
    let decoded = match Proof::decode(proof, mode) {
        Err(e) => {
            return Err(VerifyError::Undecodable(e));
        },
        Ok(decoded) => decoded,
    };
    verify(&key, &values, &decoded)
}

} // verus!
