//! One proof request from end to end: prove, verify, encode.
//!
//! The keys are generated once for a circuit and handed in; a request only
//! reads them. A request either yields a full report or stops at the first
//! stage that fails, with the error under that stage.
use crate::artifact::{Proof, ProvingKey, VerifyingKey};
use crate::circuit::{values_body, ConstraintSystem, SystemView};
use crate::encoder::{encode_public_inputs, public_inputs_outcome, PublicInputLayout};
use crate::error::{EncodeError, PipelineError, ProveError, VerifyError};
use crate::field::field_values;
use crate::circuit::{constraint_list_bytes, satisfied, value_list_bytes};
use crate::groth16::{
    backend_proof, backend_verdict, prove, prove_outcome, setup_outcome, verify, verify_outcome,
    Randomness,
};
use crate::error::SetupError;
use crate::text::{hex_text, to_hex};
use crate::witness::WitnessAssignment;
use vstd::prelude::*;

verus! {

/// What a proof request yields.
#[derive(Debug, PartialEq, Eq)]
pub struct ProofReport {
    /// Whether the proof holds under the verifying key.
    pub verified: bool,
    /// The proof.
    pub proof: Proof,
    /// The compressed encoding of the verifying key.
    pub verifying_key: Vec<u8>,
    /// The public inputs in the layout that was asked for.
    pub public_inputs: Vec<u8>,
    /// The public inputs, each in its own 32 bytes.
    pub public_inputs_concatenated: Vec<u8>,
    /// The compressed encoding of the proof as hexadecimal text.
    pub proof_hex: String,
    /// The compressed encoding of the verifying key as hexadecimal text.
    pub verifying_key_hex: String,
    /// The public inputs in the layout asked for, as hexadecimal text.
    pub public_inputs_hex: String,
}

/// A report as plain values.
pub struct ReportView {
    pub verified: bool,
    pub proof: Seq<u8>,
    pub verifying_key: Seq<u8>,
    pub public_inputs: Seq<u8>,
    pub public_inputs_concatenated: Seq<u8>,
    pub proof_hex: Seq<char>,
    pub verifying_key_hex: Seq<char>,
    pub public_inputs_hex: Seq<char>,
}

impl View for ProofReport {
    type V = ReportView;

    open spec fn view(&self) -> ReportView {
        ReportView {
            verified: self.verified,
            proof: self.proof@,
            verifying_key: self.verifying_key@,
            public_inputs: self.public_inputs@,
            public_inputs_concatenated: self.public_inputs_concatenated@,
            proof_hex: self.proof_hex@,
            verifying_key_hex: self.verifying_key_hex@,
            public_inputs_hex: self.public_inputs_hex@,
        }
    }
}

/// The public inputs of an assignment: the values of the public wires
/// after the constant one.
pub open spec fn public_values(system: SystemView, values: Seq<nat>) -> Seq<nat> {
    values.subrange(1, system.num_public as int)
}

/// What a proof request yields: the report, or the error of the first
/// stage that fails. The stages are: prove, verify, encode.
pub open spec fn request_outcome(
    proving_key: Seq<u8>,
    verifying_key: Seq<u8>,
    system: SystemView,
    values: Seq<nat>,
    layout: PublicInputLayout,
    seed: Seq<u8>,
) -> Result<ReportView, PipelineError> {
    match prove_outcome(proving_key, system, values, seed) {
        Err(e) => Err(PipelineError::Prove(e)),
        Ok(proof) => {
            let inputs = public_values(system, values);
            match verify_outcome(verifying_key, inputs, proof) {
                Err(e) => Err(PipelineError::Verify(e)),
                Ok(verified) => match public_inputs_outcome(inputs, layout) {
                    Err(e) => Err(PipelineError::Encode(e)),
                    Ok(encoded) => Ok(
                        ReportView {
                            verified,
                            proof,
                            verifying_key,
                            public_inputs: encoded,
                            public_inputs_concatenated: values_body(inputs),
                            proof_hex: hex_text(proof),
                            verifying_key_hex: hex_text(verifying_key),
                            public_inputs_hex: hex_text(encoded),
                        },
                    ),
                },
            }
        },
    }
}

/// A request that yields a report has passed every stage, and its report
/// says what verification said of the proof it holds.
pub proof fn lemma_report_is_verified(
    proving_key: Seq<u8>,
    verifying_key: Seq<u8>,
    system: SystemView,
    values: Seq<nat>,
    layout: PublicInputLayout,
    seed: Seq<u8>,
)
    requires
        request_outcome(proving_key, verifying_key, system, values, layout, seed) is Ok,
    ensures
        ({
            let report = request_outcome(
                proving_key,
                verifying_key,
                system,
                values,
                layout,
                seed,
            )->Ok_0;
            &&& prove_outcome(proving_key, system, values, seed) == Ok::<Seq<u8>, ProveError>(
                report.proof,
            )
            &&& verify_outcome(verifying_key, public_values(system, values), report.proof) == Ok::<
                bool,
                VerifyError,
            >(report.verified)
            &&& public_inputs_outcome(public_values(system, values), layout) == Ok::<
                Seq<u8>,
                EncodeError,
            >(report.public_inputs)
        }),
{
}

/// Whether the backend accepts the proof that it makes itself: where it
/// makes a proof with the proving key for the circuit and the assignment,
/// it accepts that proof under the verifying key for the assignment's
/// public inputs.
pub open spec fn backend_accepts_its_proof(
    proving_key: Seq<u8>,
    verifying_key: Seq<u8>,
    system: SystemView,
    values: Seq<nat>,
    seed: Seq<u8>,
) -> bool {
    backend_proof(
        proving_key,
        system.num_public,
        system.num_wires,
        constraint_list_bytes(system.constraints),
        value_list_bytes(values),
        seed,
    ) matches Some(proof) ==> backend_verdict(
        verifying_key,
        value_list_bytes(public_values(system, values)),
        proof,
    ) == Some(true)
}

/// An honest run is verified, as far as the library decides. Take a well-
/// formed circuit, the pair of keys that was generated for it, and an
/// assignment that satisfies it. If the backend accepts the proof that it
/// makes itself, then the request reports `verified`, or it stops because
/// the backend made no proof or no canonical one, or because the public
/// inputs do not go into the layout asked for. Nothing that the library
/// checks stands in the way.
pub proof fn lemma_honest_run_is_verified(
    proving_key: Seq<u8>,
    verifying_key: Seq<u8>,
    system: SystemView,
    values: Seq<nat>,
    layout: PublicInputLayout,
    setup_seed: Seq<u8>,
    seed: Seq<u8>,
)
    requires
        system.wf(),
        setup_outcome(system, setup_seed) == Ok::<(Seq<u8>, Seq<u8>), SetupError>(
            (proving_key, verifying_key),
        ),
        satisfied(system, values),
        backend_accepts_its_proof(proving_key, verifying_key, system, values, seed),
    ensures
        match request_outcome(proving_key, verifying_key, system, values, layout, seed) {
            Ok(report) => report.verified,
            Err(PipelineError::Prove(e)) => e == ProveError::Backend || e
                == ProveError::InvalidProof,
            Err(PipelineError::Encode(e)) => public_inputs_outcome(
                public_values(system, values),
                layout,
            ) == Err::<Seq<u8>, EncodeError>(e),
            Err(_) => false,
        },
{
    assert(crate::groth16::assignment_fault(system, values) is None);
    let inputs = public_values(system, values);
    assert(inputs.len() + 1 == system.num_public);
}

/// Runs one proof request: proves that the assignment meets the circuit,
/// verifies the proof, and encodes proof, key and public inputs. The
/// randomness is used up.
pub fn run_request(
    proving_key: &ProvingKey,
    verifying_key: &VerifyingKey,
    system: &ConstraintSystem,
    witness: &WitnessAssignment,
    layout: PublicInputLayout,
    randomness: Randomness,
) -> (result: Result<ProofReport, PipelineError>)
    ensures
        match result {
            Ok(report) => request_outcome(
                proving_key@,
                verifying_key@,
                system@,
                witness@,
                layout,
                randomness@,
            ) == Ok::<ReportView, PipelineError>(report@),
            Err(e) => request_outcome(
                proving_key@,
                verifying_key@,
                system@,
                witness@,
                layout,
                randomness@,
            ) == Err::<ReportView, PipelineError>(e),
        },
{
    let proof = match prove(proving_key, system, witness.values(), randomness) {
        Err(e) => {
            return Err(PipelineError::Prove(e));
        },
        Ok(proof) => proof,
    };
    let inputs = match witness.public_inputs(system) {
        Some(inputs) => inputs,
        None => {
            return Err(
                PipelineError::Prove(
                    ProveError::WrongWireCount {
                        expected: system.num_wires(),
                        found: witness.values().len(),
                    },
                ),
            );
        },
    };
    let verified = match verify(verifying_key, &inputs, &proof) {
        Err(e) => {
            return Err(PipelineError::Verify(e));
        },
        Ok(verified) => verified,
    };
    let encoded = match encode_public_inputs(&inputs, layout) {
        Err(e) => {
            return Err(PipelineError::Encode(e));
        },
        Ok(encoded) => encoded,
    };
    let concatenated = match encode_public_inputs(&inputs, PublicInputLayout::Concatenated) {
        Err(e) => {
            return Err(PipelineError::Encode(e));
        },
        Ok(concatenated) => concatenated,
    };
    let key = verifying_key.serialize_compressed();
    let proof_hex = to_hex(proof.as_bytes());
    let verifying_key_hex = to_hex(key.as_slice());
    let public_inputs_hex = to_hex(encoded.as_slice());
    Ok(
        ProofReport {
            verified,
            proof,
            verifying_key: key,
            public_inputs: encoded,
            public_inputs_concatenated: concatenated,
            proof_hex,
            verifying_key_hex,
            public_inputs_hex,
        },
    )
}

} // verus!
