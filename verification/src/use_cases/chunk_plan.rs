//! Plans by which sound is cut into chunks.
use vstd::prelude::*;

use crate::workflow::stage::StageKind;

verus! {

/// The stage that plans belong to.
pub fn chunk_plan_stage() -> (stage: StageKind)
    ensures
        stage == StageKind::Asr,
{
    StageKind::Asr
}

/// Who makes plans that are stored on request.
pub fn chunk_plan_producer() -> (name: &'static str)
    ensures
        name@ == "rust-chunk-planner"@,
{
    "rust-chunk-planner"
}

} // verus!
