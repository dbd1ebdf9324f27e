//! The errors of the proof pipeline, one type for each stage.
use vstd::prelude::*;

verus! {

/// One of the two files of a compiled circuit.
#[derive(Debug, Clone, Copy, PartialEq, Eq)]
pub enum ArtifactFile {
    /// The module that calculates the witness.
    WitnessModule,
    /// The file that describes the constraints.
    ConstraintFile,
}

/// A compiled circuit could not be taken in.
#[derive(Debug, Clone, PartialEq, Eq)]
pub enum ArtifactLoadError {
    /// No pair of compiled files was found.
    NotFound,
    /// A file is there but could not be read as what it should be.
    Unreadable { file: ArtifactFile },
    /// The two files do not describe one circuit: the constraints have
    /// `wires` wires and the witness module fills `witness` of them.
    Mismatch { wires: usize, witness: usize },
    /// The description declares no public wire, not even the constant one.
    NoConstantWire,
    /// More public wires are declared than there are wires.
    PublicExceedsWires { public: usize, wires: usize },
    /// A term of constraint number `constraint` names a wire that does not exist.
    WireOutOfRange { constraint: usize, wire: usize },
}

/// Named inputs could not be turned into a full assignment.
#[derive(Debug, Clone, PartialEq, Eq)]
pub enum WitnessError {
    /// A value was bound to a name that the circuit does not declare.
    UnknownInput { name: String },
    /// A declared input has fewer values bound to it than it declares.
    MissingInput { name: String },
    /// A declared input has more values bound to it than it declares.
    SurplusInput { name: String },
    /// The witness calculation produced no assignment for these inputs.
    NoSolution,
    /// The assignment does not give every wire of the circuit a value.
    WrongWireCount { expected: usize, found: usize },
    /// The assignment gives the constant wire a value other than one.
    ConstantWireNotOne,
    /// The assignment breaks constraint number `constraint`.
    Unsatisfied { constraint: usize },
}

/// No key pair could be generated.
#[derive(Debug, Clone, PartialEq, Eq)]
pub enum SetupError {
    /// The constraint system has no constraint.
    NoConstraints,
    /// The proving backend gave up on this constraint system.
    Backend,
    /// The backend's keys did not pass the checks made on them.
    InvalidKeys,
}

/// No proof could be produced.
#[derive(Debug, Clone, PartialEq, Eq)]
pub enum ProveError {
    /// The assignment does not give every wire of the circuit a value.
    WrongWireCount { expected: usize, found: usize },
    /// The assignment gives the constant wire a value other than one.
    ConstantWireNotOne,
    /// The assignment breaks constraint number `constraint`.
    Unsatisfied { constraint: usize },
    /// The proving key was made for a circuit of another shape.
    KeyMismatch,
    /// The proving backend gave up.
    Backend,
    /// The backend's proof did not pass the checks made on it.
    InvalidProof,
}

/// The inputs of a verification are malformed. A well-formed proof that
/// does not hold is no error: verification then answers `false`.
#[derive(Debug, Clone, PartialEq, Eq)]
pub enum VerifyError {
    /// The verifying key does not have the layout of a key.
    MalformedKey,
    /// The number of public inputs is not the number the key was made for.
    InputCount { expected: usize, found: usize },
    /// The backend could not read the key or the proof.
    Backend,
    /// The encoded key, inputs or proof could not be decoded.
    Undecodable(DecodeError),
}

/// A value could not be encoded.
#[derive(Debug, Clone, PartialEq, Eq)]
pub enum EncodeError {
    /// The words stand for a number that is no field element.
    ValueOutOfRange,
    /// There is no public input to place in the slot.
    NoPublicInputs,
    /// The slot holds one public input and `count` were given.
    SurplusPublicInputs { count: usize },
    /// The backend could not produce the encoding.
    Backend,
    /// The encoding produced does not decode to the value it was made from.
    NotReversible,
}

/// Bytes could not be decoded.
#[derive(Debug, Clone, PartialEq, Eq)]
pub enum DecodeError {
    /// The input has `found` bytes where `expected` are needed.
    WrongLength { expected: usize, found: usize },
    /// Element number `index` stands for a number that is no field element.
    ValueOutOfRange { index: usize },
    /// The first byte is no format tag.
    UnknownTag { tag: u8 },
    /// The input is empty, so that it carries no format tag.
    MissingTag,
    /// The backend rejects the bytes.
    Malformed,
    /// The bytes decode, but are not the encoding of what they decode to.
    NotCanonical,
}

/// The stage of the pipeline at which an error arose.
#[derive(Debug, Clone, Copy, PartialEq, Eq)]
pub enum Stage {
    Load,
    Witness,
    Setup,
    Prove,
    Verify,
    Encode,
}

/// Any error of the pipeline, under the stage that raised it.
#[derive(Debug, Clone, PartialEq, Eq)]
pub enum PipelineError {
    Load(ArtifactLoadError),
    Witness(WitnessError),
    Setup(SetupError),
    Prove(ProveError),
    Verify(VerifyError),
    Encode(EncodeError),
}

impl PipelineError {
    /// The stage that raised this error.
    pub open spec fn spec_stage(&self) -> Stage {
        match self {
            PipelineError::Load(_) => Stage::Load,
            PipelineError::Witness(_) => Stage::Witness,
            PipelineError::Setup(_) => Stage::Setup,
            PipelineError::Prove(_) => Stage::Prove,
            PipelineError::Verify(_) => Stage::Verify,
            PipelineError::Encode(_) => Stage::Encode,
        }
    }

    /// The stage that raised this error.
    #[verifier::when_used_as_spec(spec_stage)]
    pub fn stage(&self) -> (stage: Stage)
        ensures
            stage == self.spec_stage(),
    {
        match self {
            PipelineError::Load(_) => Stage::Load,
            PipelineError::Witness(_) => Stage::Witness,
            PipelineError::Setup(_) => Stage::Setup,
            PipelineError::Prove(_) => Stage::Prove,
            PipelineError::Verify(_) => Stage::Verify,
            PipelineError::Encode(_) => Stage::Encode,
        }
    }
}

} // verus!
