//! The stages of one proof request.
//!
//! A request starts unbound, gets its witness, is proved, and is then
//! verified or encoded. It only ever moves forward: a stage is never
//! entered twice and never left for an earlier one.
use vstd::prelude::*;

verus! {

/// Where a proof request stands.
#[derive(Debug, Clone, Copy, PartialEq, Eq)]
pub enum RequestStage {
    Unbound,
    WitnessBound,
    Proved,
    Verified,
    Encoded,
}

/// What has just been done for a request.
#[derive(Debug, Clone, Copy, PartialEq, Eq)]
pub enum RequestStep {
    BindWitness,
    Prove,
    Verify,
    Encode,
}

/// How far along a stage is.
pub open spec fn rank(stage: RequestStage) -> nat {
    match stage {
        RequestStage::Unbound => 0,
        RequestStage::WitnessBound => 1,
        RequestStage::Proved => 2,
        RequestStage::Verified => 3,
        RequestStage::Encoded => 3,
    }
}

/// The stage after a step, where the step may be taken at this stage.
pub open spec fn next_stage(stage: RequestStage, step: RequestStep) -> Option<RequestStage> {
    match (stage, step) {
        (RequestStage::Unbound, RequestStep::BindWitness) => Some(RequestStage::WitnessBound),
        (RequestStage::WitnessBound, RequestStep::Prove) => Some(RequestStage::Proved),
        (RequestStage::Proved, RequestStep::Verify) => Some(RequestStage::Verified),
        (RequestStage::Proved, RequestStep::Encode) => Some(RequestStage::Encoded),
        _ => None,
    }
}

/// The stage after a step, or `None` where the step may not be taken at
/// this stage.
pub fn advance(stage: RequestStage, step: RequestStep) -> (next: Option<RequestStage>)
    ensures
        next == next_stage(stage, step),
{
    match (stage, step) {
        (RequestStage::Unbound, RequestStep::BindWitness) => Some(RequestStage::WitnessBound),
        (RequestStage::WitnessBound, RequestStep::Prove) => Some(RequestStage::Proved),
        (RequestStage::Proved, RequestStep::Verify) => Some(RequestStage::Verified),
        (RequestStage::Proved, RequestStep::Encode) => Some(RequestStage::Encoded),
        _ => None,
    }
}

/// A request only moves forward: every step that may be taken leads to a
/// stage that is further along, and no step leaves the last stages.
pub proof fn lemma_strictly_forward(stage: RequestStage, step: RequestStep)
    ensures
        next_stage(stage, step) matches Some(next) ==> rank(next) == rank(stage) + 1,
        rank(stage) == 3 ==> next_stage(stage, step) is None,
{
}

} // verus!
