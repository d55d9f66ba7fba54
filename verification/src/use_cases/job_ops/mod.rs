//! Export of the transcript that a job has got furthest with.
use vstd::prelude::*;

use crate::contracts::{AppResult, ApplicationErrorView};
use crate::identity::JobId;
use crate::workflow::job::{Job, JobView};
use crate::workflow::stage::{ArtifactRef, StageKind, StageState};

use super::run_batch::{about_job, job_error};

pub mod lanes;

verus! {

/// The stage leaves a transcript.
pub open spec fn has_transcript(kind: StageKind) -> bool {
    ||| kind == StageKind::Translate
    ||| kind == StageKind::Correct
    ||| kind == StageKind::Split
    ||| kind == StageKind::Asr
}

/// The position of the last stage in front of `upto` that has left a transcript.
pub open spec fn transcript_position(stages: Seq<StageState>, upto: int) -> Option<int>
    decreases upto,
{
    if upto <= 0 || upto > stages.len() {
        None
    } else if has_transcript(stages[upto - 1].kind) && stages[upto - 1].artifact is Some {
        Some(upto - 1)
    } else {
        transcript_position(stages, upto - 1)
    }
}

/// The transcript that is exported, or why there is none.
pub open spec fn exportable(job: Option<JobView>, job_id: Seq<char>) -> Result<
    ArtifactRef,
    ApplicationErrorView,
> {
    match job {
        None => Err(about_job(job_id, " not found"@)),
        Some(job) => match transcript_position(job.stages, job.stages.len() as int) {
            None => Err(about_job(job_id, " has no exportable transcript stage"@)),
            Some(p) => Ok(job.stages[p].artifact->0),
        },
    }
}

/// The transcript that is exported: that of the last stage that has left one.
pub fn export_source(job: Option<&Job>, job_id: &JobId) -> (result: AppResult<ArtifactRef>)
    ensures
        ({
            let expected = exportable(
                match job {
                    Some(job) => Some(job@),
                    None => None,
                },
                job_id@,
            );
            match result {
                Ok(artifact) => expected == Ok::<ArtifactRef, ApplicationErrorView>(artifact),
                Err(error) => expected == Err::<ArtifactRef, ApplicationErrorView>(error@),
            }
        }),
{
    let Some(found) = job else {
        return Err(job_error(job_id.as_str(), " not found"));
    };
    let stages = found.stages();
    let mut i: usize = stages.len();
    while i > 0
        invariant
            i <= stages@.len(),
            job == Some(found),
            stages@ == found@.stages,
            transcript_position(found@.stages, found@.stages.len() as int) == transcript_position(
                found@.stages,
                i as int,
            ),
        decreases i,
    {
        let stage = &stages[i - 1];
        if matches!(
            stage.kind,
            StageKind::Translate | StageKind::Correct | StageKind::Split | StageKind::Asr
        ) {
            if let Some(artifact) = &stage.artifact {
                return Ok(artifact.clone());
            }
        }
        i -= 1;
    }
    Err(job_error(job_id.as_str(), " has no exportable transcript stage"))
}

proof fn lemma_transcript_position(stages: Seq<StageState>, upto: int)
    requires
        upto <= stages.len(),
    ensures
        match transcript_position(stages, upto) {
            Some(p) => 0 <= p < upto && has_transcript(stages[p].kind) && stages[p].artifact is Some
                && forall|i: int|
                p < i < upto ==> !(has_transcript((#[trigger] stages[i]).kind) && stages[i].artifact
                    is Some),
            None => forall|i: int|
                0 <= i < upto ==> !(has_transcript((#[trigger] stages[i]).kind) && stages[i].artifact
                    is Some),
        },
    decreases upto,
{
    if upto > 0 && !(has_transcript(stages[upto - 1].kind) && stages[upto - 1].artifact is Some) {
        lemma_transcript_position(stages, upto - 1);
    }
}

/// No stage behind the exported one has left a transcript.
pub proof fn law_the_furthest_transcript_is_exported(job: JobView, job_id: Seq<char>)
    ensures
        match exportable(Some(job), job_id) {
            Ok(artifact) => exists|p: int|
                0 <= p < job.stages.len() && has_transcript(job.stages[p].kind)
                    && (#[trigger] job.stages[p]).artifact == Some(artifact) && forall|i: int|
                    p < i < job.stages.len() ==> !(has_transcript((#[trigger] job.stages[i]).kind)
                        && job.stages[i].artifact is Some),
            Err(_) => forall|i: int|
                0 <= i < job.stages.len() ==> !(has_transcript((#[trigger] job.stages[i]).kind)
                    && job.stages[i].artifact is Some),
        },
{
    lemma_transcript_position(job.stages, job.stages.len() as int);
    if let Some(p) = transcript_position(job.stages, job.stages.len() as int) {
        assert(job.stages[p].artifact == Some(job.stages[p].artifact->0));
    }
}

/// The stages of a job in their order.
pub open spec fn all_stages(stages: Seq<StageState>) -> bool {
    &&& stages.len() == 7
    &&& stages[0].kind == StageKind::Probe
    &&& stages[1].kind == StageKind::ExtractAudio
    &&& stages[2].kind == StageKind::Asr
    &&& stages[3].kind == StageKind::Split
    &&& stages[4].kind == StageKind::Correct
    &&& stages[5].kind == StageKind::Translate
    &&& stages[6].kind == StageKind::Export
}

/// A translated job is exported with its translation. Without one the corrected
/// transcript is exported, without that the split one, and else what was
/// recognized. A job with none of them is refused, whatever other files it has.
pub proof fn law_translations_are_exported_first(job: JobView, job_id: Seq<char>)
    requires
        all_stages(job.stages),
    ensures
        job.stages[5].artifact matches Some(translated) ==> exportable(Some(job), job_id) == Ok::<
            ArtifactRef,
            ApplicationErrorView,
        >(translated),
        job.stages[5].artifact is None ==> (job.stages[4].artifact matches Some(corrected)
            ==> exportable(Some(job), job_id) == Ok::<ArtifactRef, ApplicationErrorView>(
            corrected,
        )),
        job.stages[5].artifact is None && job.stages[4].artifact is None ==> (
        job.stages[3].artifact matches Some(split) ==> exportable(Some(job), job_id) == Ok::<
            ArtifactRef,
            ApplicationErrorView,
        >(split)),
        job.stages[5].artifact is None && job.stages[4].artifact is None
            && job.stages[3].artifact is None ==> (job.stages[2].artifact matches Some(recognized)
            ==> exportable(Some(job), job_id) == Ok::<ArtifactRef, ApplicationErrorView>(
            recognized,
        )),
        job.stages[5].artifact is None && job.stages[4].artifact is None
            && job.stages[3].artifact is None && job.stages[2].artifact is None ==> exportable(
            Some(job),
            job_id,
        ) is Err,
{
    reveal_with_fuel(transcript_position, 8);
}

} // verus!
