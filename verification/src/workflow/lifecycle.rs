//! What every step does to batches, jobs and work units, and when it is refused.
use vstd::prelude::*;

use crate::error::DomainErrorView;
use crate::identity::{BatchId, JobId, UlidStr, WorkUnitId};

use super::batch::{
    has_adjacent_duplicate, record_position, BatchExecutionProfile, BatchStatus, BatchView,
};
use super::event::{ended_as, DomainEvent, JobTerminalStatus};
use super::job::{retry_position, stage_position, JobView};
use super::stage::{ArtifactRef, JobStatus, StageKind, StageState, StageStatus};
use super::work_unit::{LeaseView, WorkUnitStatus, WorkUnitView};

verus! {

/// The stage of this kind is the one at `p`.
pub open spec fn stands_at_stage(job: JobView, kind: StageKind, p: int) -> bool {
    &&& 0 <= p < job.stages.len()
    &&& job.stages[p].kind == kind
    &&& forall|i: int| 0 <= i < p ==> (#[trigger] job.stages[i]).kind != kind
}

/// Nothing but the stages, and of these only the one at `p`, differs.
pub open spec fn only_stage_moved(before: JobView, after: JobView, p: int) -> bool {
    &&& after.id == before.id
    &&& after.batch_id == before.batch_id
    &&& after.execution_snapshot_id == before.execution_snapshot_id
    &&& after.profile_revision == before.profile_revision
    &&& after.source_path == before.source_path
    &&& after.cancel_requested == before.cancel_requested
    &&& after.retry_attempt == before.retry_attempt
    &&& after.retry_generation == before.retry_generation
    &&& after.stages.len() == before.stages.len()
    &&& after.stages[p].kind == before.stages[p].kind
    &&& forall|i: int|
        0 <= i < before.stages.len() && i != p ==> #[trigger] after.stages[i] == before.stages[i]
}

proof fn lemma_stage_found(stages: Seq<StageState>, kind: StageKind, p: int, from: int)
    requires
        0 <= from <= p < stages.len(),
        stages[p].kind == kind,
        forall|i: int| 0 <= i < p ==> (#[trigger] stages[i]).kind != kind,
    ensures
        stage_position(stages, kind, from) == Some(p),
    decreases p - from,
{
    if from < p {
        assert(stages[from].kind != kind);
        lemma_stage_found(stages, kind, p, from + 1);
    }
}

/// A new job waits with seven waiting stages, from the probe to the export.
pub proof fn law_new_jobs_wait(
    id: JobId,
    batch_id: Option<BatchId>,
    snapshot: Option<UlidStr>,
    profile: UlidStr,
    source: Seq<char>,
)
    ensures
        ({
            let job = JobView::fresh(id, batch_id, snapshot, profile, source);
            &&& job.id == id && job.batch_id == batch_id && job.execution_snapshot_id == snapshot
            &&& job.profile_revision == profile && job.source_path == source
            &&& job.status == JobStatus::Pending && !job.cancel_requested
            &&& job.retry_attempt == 0 && job.retry_generation == 0
            &&& job.stages.len() == 7
            &&& job.stages[0].kind == StageKind::Probe
            &&& job.stages[1].kind == StageKind::ExtractAudio
            &&& job.stages[2].kind == StageKind::Asr
            &&& job.stages[3].kind == StageKind::Split
            &&& job.stages[4].kind == StageKind::Correct
            &&& job.stages[5].kind == StageKind::Translate
            &&& job.stages[6].kind == StageKind::Export
            &&& forall|i: int|
                0 <= i < 7 ==> (#[trigger] job.stages[i]).status == StageStatus::Pending
                    && job.stages[i].artifact is None
        }),
{
}

/// Only a waiting job is started, and starting it changes its status alone.
pub proof fn law_waiting_jobs_are_started(job: JobView)
    ensures
        job.started() is Ok <==> job.status == JobStatus::Pending,
        job.started() matches Ok(out) ==> out.status == JobStatus::Running && out.stages == job.stages
            && out.cancel_requested == job.cancel_requested && out.retry_attempt == job.retry_attempt
            && out.retry_generation == job.retry_generation && out.id == job.id,
        job.status == JobStatus::Running ==> job.started() == Err::<JobView, DomainErrorView>(
            DomainErrorView::IllegalTransition {
                aggregate: "Job"@,
                from: "Running"@,
                to: "Running"@,
            },
        ),
{
}

/// A stage is started or skipped while the job runs, once, and after the stage
/// before it is complete: done, done with losses, or skipped.
pub proof fn law_stages_are_entered_in_order(job: JobView, kind: StageKind, p: int)
    requires
        stands_at_stage(job, kind, p),
    ensures
        job.stage_started(kind) is Ok <==> {
            &&& job.status == JobStatus::Running
            &&& job.stages[p].status == StageStatus::Pending
            &&& p == 0 || job.stages[p - 1].status == StageStatus::Done || job.stages[p - 1].status
                == StageStatus::DoneDegraded || job.stages[p - 1].status == StageStatus::Skipped
        },
        job.stage_skipped(kind) is Ok <==> job.stage_started(kind) is Ok,
        job.stage_started(kind) matches Ok(out) ==> only_stage_moved(job, out, p) && out.status
            == JobStatus::Running && out.stages[p].status == StageStatus::Running
            && out.stages[p].artifact == job.stages[p].artifact,
        job.stage_skipped(kind) matches Ok(out) ==> only_stage_moved(job, out, p) && out.status
            == JobStatus::Running && out.stages[p].status == StageStatus::Skipped
            && out.stages[p].artifact == job.stages[p].artifact,
{
    lemma_stage_found(job.stages, kind, p, 0);
}

/// A running stage is completed with an artifact of its own kind, which it then
/// holds. It is marked where something was lost.
pub proof fn law_running_stages_are_completed(
    job: JobView,
    kind: StageKind,
    p: int,
    artifact: ArtifactRef,
    degraded: bool,
)
    requires
        stands_at_stage(job, kind, p),
    ensures
        job.stage_completed(kind, artifact, degraded) is Ok <==> job.stages[p].status
            == StageStatus::Running && artifact.stage == kind,
        job.stage_completed(kind, artifact, degraded) matches Ok(out) ==> {
            &&& only_stage_moved(job, out, p)
            &&& out.status == job.status
            &&& out.stages[p].artifact == Some(artifact)
            &&& degraded ==> out.stages[p].status == StageStatus::DoneDegraded
            &&& !degraded ==> out.stages[p].status == StageStatus::Done
        },
{
    lemma_stage_found(job.stages, kind, p, 0);
}

/// A stage in work that fails takes its job with it, and no other stage.
pub proof fn law_failed_stages_fail_the_job(job: JobView, kind: StageKind, p: int)
    requires
        stands_at_stage(job, kind, p),
    ensures
        job.stage_failed(kind) is Ok <==> job.stages[p].status == StageStatus::Running
            || job.stages[p].status == StageStatus::Retrying,
        job.stage_failed(kind) matches Ok(out) ==> only_stage_moved(job, out, p) && out.status
            == JobStatus::Failed && out.stages[p].status == StageStatus::Failed
            && out.stages[p].artifact == job.stages[p].artifact,
{
    lemma_stage_found(job.stages, kind, p, 0);
}

/// An edited transcript takes the place of the artifact of an ended stage. The
/// status of the stage and of the job stay.
pub proof fn law_revisions_replace_the_artifact(
    job: JobView,
    kind: StageKind,
    p: int,
    artifact: ArtifactRef,
)
    requires
        stands_at_stage(job, kind, p),
    ensures
        job.revision_recorded(kind, artifact) is Ok <==> artifact.stage == kind && (
        job.stages[p].status == StageStatus::Done || job.stages[p].status
            == StageStatus::DoneDegraded || job.stages[p].status == StageStatus::Failed
            || job.stages[p].status == StageStatus::Skipped || job.stages[p].status
            == StageStatus::Cancelled),
        job.revision_recorded(kind, artifact) matches Ok(out) ==> only_stage_moved(job, out, p)
            && out.status == job.status && out.stages[p].status == job.stages[p].status
            && out.stages[p].artifact == Some(artifact),
{
    lemma_stage_found(job.stages, kind, p, 0);
}

/// A job is finished when it runs and all its stages have ended. It failed where
/// a stage failed; else it lost something where a stage did; else it was
/// cancelled where a stage was; else it is done.
pub proof fn law_jobs_end_as_their_stages(job: JobView)
    ensures
        job.finished() is Ok <==> job.status == JobStatus::Running && forall|i: int|
            0 <= i < job.stages.len() ==> (#[trigger] job.stages[i]).status == StageStatus::Done
                || job.stages[i].status == StageStatus::DoneDegraded || job.stages[i].status
                == StageStatus::Failed || job.stages[i].status == StageStatus::Skipped
                || job.stages[i].status == StageStatus::Cancelled,
        job.finished() matches Ok(out) ==> {
            &&& out.stages == job.stages && out.cancel_requested == job.cancel_requested
            &&& out.status == JobStatus::Failed <==> exists|i: int|
                0 <= i < job.stages.len() && (#[trigger] job.stages[i]).status
                    == StageStatus::Failed
            &&& out.status == JobStatus::Done <==> forall|i: int|
                0 <= i < job.stages.len() ==> (#[trigger] job.stages[i]).status
                    == StageStatus::Done || job.stages[i].status == StageStatus::Skipped
            &&& out.status == JobStatus::DoneDegraded <==> (exists|i: int|
                0 <= i < job.stages.len() && (#[trigger] job.stages[i]).status
                    == StageStatus::DoneDegraded) && forall|i: int|
                0 <= i < job.stages.len() ==> (#[trigger] job.stages[i]).status
                    != StageStatus::Failed
            &&& out.status != JobStatus::Pending && out.status != JobStatus::Running
        },
{
    if job.finished() is Ok {
        let out = job.finished()->Ok_0;
        if out.status == JobStatus::DoneDegraded {
            let i = choose|i: int|
                0 <= i < job.stages.len() && (#[trigger] job.stages[i]).status
                    == StageStatus::DoneDegraded;
            assert(job.stages[i].status == StageStatus::DoneDegraded);
        }
        if out.status == JobStatus::Cancelled {
            let i = choose|i: int|
                0 <= i < job.stages.len() && (#[trigger] job.stages[i]).status
                    == StageStatus::Cancelled;
            assert(job.stages[i].status == StageStatus::Cancelled);
        }
    }
}

/// After a restart a job that was running waits again. The stages that were in
/// work wait too, and what is complete stays. Other jobs stay as they are.
pub proof fn law_interrupted_jobs_wait_again(job: JobView)
    ensures
        job.status != JobStatus::Running ==> job.recovered() == job,
        job.status == JobStatus::Running ==> {
            let out = job.recovered();
            &&& out.status == JobStatus::Pending
            &&& out.id == job.id && out.cancel_requested == job.cancel_requested
            &&& out.retry_attempt == job.retry_attempt && out.retry_generation
                == job.retry_generation
            &&& out.stages.len() == job.stages.len()
            &&& forall|i: int|
                0 <= i < job.stages.len() ==> {
                    let was = job.stages[i];
                    let is = #[trigger] out.stages[i];
                    if was.status == StageStatus::Running || was.status == StageStatus::Retrying {
                        is == StageState { kind: was.kind, status: StageStatus::Pending, artifact: was.artifact }
                    } else {
                        is == was
                    }
                }
        },
{
}

/// An artifact that cannot be used sends the job back to the stage it came from:
/// that stage and all behind it start anew, those before it stay.
pub proof fn law_invalid_artifacts_are_made_anew(job: JobView, kind: StageKind, p: int)
    requires
        stands_at_stage(job, kind, p),
    ensures
        job.invalidated(kind) matches Ok(out) && {
            &&& out.status == JobStatus::Pending
            &&& out.id == job.id && out.cancel_requested == job.cancel_requested
            &&& out.retry_attempt == job.retry_attempt && out.retry_generation
                == job.retry_generation
            &&& out.stages.len() == job.stages.len()
            &&& forall|i: int| 0 <= i < p ==> #[trigger] out.stages[i] == job.stages[i]
            &&& forall|i: int|
                p <= i < job.stages.len() ==> (#[trigger] out.stages[i]).kind == job.stages[i].kind
                    && out.stages[i].status == StageStatus::Pending && out.stages[i].artifact is None
        },
{
    lemma_stage_found(job.stages, kind, p, 0);
}

/// A job that has not ended can be cancelled: its stages that have not ended are
/// cancelled with it, and the others stay. A failure ends only the stages that
/// are in work. A wish to cancel changes nothing else.
pub proof fn law_open_jobs_can_be_stopped(job: JobView)
    ensures
        job.cancelled() is Ok <==> job.status == JobStatus::Pending || job.status
            == JobStatus::Running,
        job.failed() is Ok <==> job.status == JobStatus::Pending || job.status == JobStatus::Running,
        job.cancel_asked() is Ok <==> job.status == JobStatus::Pending || job.status
            == JobStatus::Running,
        job.cancel_asked() matches Ok(out) ==> out == (JobView { cancel_requested: true, ..job }),
        job.cancelled() matches Ok(out) ==> {
            &&& out.status == JobStatus::Cancelled && out.id == job.id
            &&& out.retry_attempt == job.retry_attempt && out.cancel_requested
                == job.cancel_requested
            &&& out.stages.len() == job.stages.len()
            &&& forall|i: int|
                0 <= i < job.stages.len() ==> {
                    let was = job.stages[i];
                    let is = #[trigger] out.stages[i];
                    if was.status == StageStatus::Done || was.status == StageStatus::DoneDegraded
                        || was.status == StageStatus::Failed || was.status == StageStatus::Skipped
                        || was.status == StageStatus::Cancelled {
                        is == was
                    } else {
                        is == StageState { kind: was.kind, status: StageStatus::Cancelled, artifact: was.artifact }
                    }
                }
        },
        job.failed() matches Ok(out) ==> {
            &&& out.status == JobStatus::Failed && out.id == job.id
            &&& out.stages.len() == job.stages.len()
            &&& forall|i: int|
                0 <= i < job.stages.len() ==> {
                    let was = job.stages[i];
                    let is = #[trigger] out.stages[i];
                    if was.status == StageStatus::Running || was.status == StageStatus::Retrying {
                        is == StageState { kind: was.kind, status: StageStatus::Failed, artifact: was.artifact }
                    } else {
                        is == was
                    }
                }
        },
{
}

proof fn lemma_retry_found(stages: Seq<StageState>, from: int)
    requires
        0 <= from,
    ensures
        match retry_position(stages, from) {
            Some(p) => {
                &&& from <= p < stages.len()
                &&& stages[p].status == StageStatus::Failed || stages[p].status
                    == StageStatus::Cancelled || stages[p].status == StageStatus::WaitingProvider
                &&& forall|i: int|
                    from <= i < p ==> (#[trigger] stages[i]).status != StageStatus::Failed
                        && stages[i].status != StageStatus::Cancelled && stages[i].status
                        != StageStatus::WaitingProvider
            },
            None => forall|i: int|
                from <= i < stages.len() ==> (#[trigger] stages[i]).status != StageStatus::Failed
                    && stages[i].status != StageStatus::Cancelled && stages[i].status
                    != StageStatus::WaitingProvider,
        },
    decreases stages.len() - from,
{
    if from < stages.len() {
        lemma_retry_found(stages, from + 1);
    }
}

/// A job that failed, lost something or was cancelled can be tried again: from
/// the stage that is named, or from the first that failed, was cancelled or
/// waits for a provider. The stages before it stay, the others start anew, and
/// the wish to cancel is forgotten.
pub proof fn law_ended_jobs_are_tried_again(job: JobView, from_stage: Option<StageKind>, p: int)
    requires
        0 <= p < job.stages.len(),
        from_stage matches Some(kind) ==> stands_at_stage(job, kind, p),
        from_stage is None ==> {
            &&& job.stages[p].status == StageStatus::Failed || job.stages[p].status
                == StageStatus::Cancelled || job.stages[p].status == StageStatus::WaitingProvider
            &&& forall|i: int|
                0 <= i < p ==> (#[trigger] job.stages[i]).status != StageStatus::Failed
                    && job.stages[i].status != StageStatus::Cancelled && job.stages[i].status
                    != StageStatus::WaitingProvider
        },
    ensures
        job.retried(from_stage) is Ok <==> job.status == JobStatus::Failed || job.status
            == JobStatus::DoneDegraded || job.status == JobStatus::Cancelled,
        job.retried(from_stage) matches Ok((out, kind)) ==> {
            &&& kind == job.stages[p].kind
            &&& out.status == JobStatus::Pending && !out.cancel_requested
            &&& out.id == job.id && out.batch_id == job.batch_id && out.source_path
                == job.source_path
            &&& job.retry_attempt < u32::MAX ==> out.retry_attempt == job.retry_attempt + 1
            &&& job.retry_generation < u32::MAX ==> out.retry_generation == job.retry_generation + 1
            &&& out.stages.len() == job.stages.len()
            &&& forall|i: int| 0 <= i < p ==> #[trigger] out.stages[i] == job.stages[i]
            &&& forall|i: int|
                p <= i < job.stages.len() ==> (#[trigger] out.stages[i]).kind == job.stages[i].kind
                    && out.stages[i].status == StageStatus::Pending && out.stages[i].artifact is None
        },
{
    match from_stage {
        Some(kind) => lemma_stage_found(job.stages, kind, p, 0),
        None => {
            lemma_retry_found(job.stages, 0);
            let q = retry_position(job.stages, 0);
            if q is None || q->0 < p {
                assert(job.stages[p].kind == job.stages[p].kind);
            }
            assert(q is Some);
            assert(job.stages[q->0].kind == job.stages[q->0].kind);
            assert(q->0 == p);
        },
    }
}

/// How a member ended is noted in its batch as it was.
pub proof fn law_members_are_recorded_as_they_ended()
    ensures
        ended_as(JobStatus::Done) == JobTerminalStatus::Done,
        ended_as(JobStatus::DoneDegraded) == JobTerminalStatus::DoneDegraded,
        ended_as(JobStatus::Failed) == JobTerminalStatus::Failed,
        ended_as(JobStatus::Cancelled) == JobTerminalStatus::Cancelled,
        ended_as(JobStatus::Pending) == JobTerminalStatus::Failed,
        ended_as(JobStatus::Running) == JobTerminalStatus::Failed,
{
}

/// A new batch waits, with its members in the given order and none ended.
pub proof fn law_new_batches_wait(
    id: BatchId,
    jobs: Seq<Seq<char>>,
    profile: BatchExecutionProfile,
)
    ensures
        ({
            let batch = BatchView::fresh(id, jobs, profile);
            &&& batch.id == id && batch.jobs == jobs && batch.profile == profile
            &&& batch.status == BatchStatus::Pending
            &&& !batch.cancel_requested && !batch.pause_requested
            &&& batch.ended.len() == 0 && !batch.terminal_event_emitted
        }),
{
}

/// When a batch can be started, paused, resumed or taken up after a restart, and
/// what then changes.
pub proof fn law_batches_are_started_and_paused(batch: BatchView)
    ensures
        batch.started() is Ok <==> batch.status == BatchStatus::Pending,
        batch.started() matches Ok(out) ==> out == (BatchView {
            status: BatchStatus::Running,
            ..batch
        }),
        batch.pause_asked() is Ok <==> batch.status == BatchStatus::Running
            && !batch.cancel_requested,
        batch.pause_asked() matches Ok(out) ==> out == (BatchView {
            pause_requested: true,
            ..batch
        }),
        batch.paused() is Ok <==> batch.status == BatchStatus::Running && batch.pause_requested,
        batch.paused() matches Ok(out) ==> out == (BatchView { status: BatchStatus::Paused, ..batch }),
        batch.resumed() is Ok <==> batch.status == BatchStatus::Running || batch.status
            == BatchStatus::Paused,
        batch.resumed() matches Ok(out) ==> out == (BatchView {
            status: BatchStatus::Running,
            pause_requested: false,
            ..batch
        }),
        batch.status == BatchStatus::Running ==> batch.recovered() == (BatchView {
            status: BatchStatus::Pending,
            ..batch
        }),
        batch.status != BatchStatus::Running ==> batch.recovered() == batch,
{
}

proof fn lemma_record_found(ended: Seq<(Seq<char>, JobTerminalStatus)>, id: Seq<char>, from: int)
    requires
        0 <= from,
    ensures
        match record_position(ended, id, from) {
            Some(p) => from <= p < ended.len() && ended[p].0 == id && forall|i: int|
                from <= i < p ==> (#[trigger] ended[i]).0 != id,
            None => forall|i: int| from <= i < ended.len() ==> (#[trigger] ended[i]).0 != id,
        },
    decreases ended.len() - from,
{
    if from < ended.len() {
        lemma_record_found(ended, id, from + 1);
    }
}

/// A running batch notes how a member ended, once for each member: a later note
/// takes the place of the earlier one, and notes of others stay.
pub proof fn law_ends_are_noted(batch: BatchView, id: Seq<char>, how: JobTerminalStatus)
    ensures
        batch.recorded(id, how) is Ok <==> batch.status == BatchStatus::Running && batch.jobs.contains(
            id,
        ),
        batch.recorded(id, how) matches Ok(out) ==> {
            &&& out == (BatchView { ended: out.ended, ..batch })
            &&& exists|p: int| 0 <= p < out.ended.len() && #[trigger] out.ended[p] == (id, how)
            &&& (forall|i: int| 0 <= i < batch.ended.len() ==> (#[trigger] batch.ended[i]).0 != id)
                ==> out.ended == batch.ended.push((id, how))
            &&& (exists|i: int| 0 <= i < batch.ended.len() && (#[trigger] batch.ended[i]).0 == id)
                ==> out.ended.len() == batch.ended.len()
            &&& forall|i: int|
                0 <= i < batch.ended.len() && (#[trigger] batch.ended[i]).0 != id ==> out.ended[i]
                    == batch.ended[i]
        },
        batch.has_record(id) <==> exists|i: int|
            0 <= i < batch.ended.len() && (#[trigger] batch.ended[i]).0 == id,
{
    lemma_record_found(batch.ended, id, 0);
    if let Ok(out) = batch.recorded(id, how) {
        match record_position(batch.ended, id, 0) {
            Some(p) => {
                assert(out.ended[p] == (id, how));
            },
            None => {
                assert(out.ended[batch.ended.len() as int] == (id, how));
            },
        }
    }
}

/// A batch ends once, when all its members have, as a batch can end: done,
/// failed or cancelled. The event names the batch and how it ended. A batch that
/// is cancelled need not wait for its members.
pub proof fn law_batches_end_once(batch: BatchView, status: BatchStatus)
    ensures
        batch.finished(status) is Ok <==> {
            &&& batch.status == BatchStatus::Running
            &&& batch.ended.len() == batch.jobs.len()
            &&& status == BatchStatus::Done || status == BatchStatus::Failed || status
                == BatchStatus::Cancelled
        },
        batch.finished(status) matches Ok((out, event)) ==> {
            &&& out == (BatchView { status, terminal_event_emitted: true, ..batch })
            &&& event == DomainEvent::BatchReachedTerminal { batch_id: batch.id, status }
        },
        batch.finished_cancelled() is Ok <==> batch.ended.len() == batch.jobs.len() && (batch.status
            == BatchStatus::Pending || batch.status == BatchStatus::Running || batch.status
            == BatchStatus::Paused),
        batch.cancelled() is Ok <==> batch.status == BatchStatus::Pending || batch.status
            == BatchStatus::Running || batch.status == BatchStatus::Paused,
        batch.finished_cancelled() is Ok ==> batch.finished_cancelled() == batch.cancelled(),
        batch.cancelled() matches Ok((out, event)) ==> {
            &&& out == (BatchView {
                status: BatchStatus::Cancelled,
                cancel_requested: true,
                terminal_event_emitted: true,
                ..batch
            })
            &&& event == DomainEvent::BatchReachedTerminal {
                batch_id: batch.id,
                status: BatchStatus::Cancelled,
            }
        },
        batch.cancel_asked() is Ok <==> batch.status == BatchStatus::Pending || batch.status
            == BatchStatus::Running || batch.status == BatchStatus::Paused,
        batch.cancel_asked() matches Ok(out) ==> out == (BatchView {
            cancel_requested: true,
            ..batch
        }),
{
}

/// A batch is opened again for a member unless it is at work. The note on that
/// member goes, the wishes to pause and to cancel are forgotten, and its end can
/// be announced anew.
pub proof fn law_batches_are_opened_again(batch: BatchView, id: Seq<char>)
    ensures
        batch.reopened(id) is Ok <==> batch.jobs.contains(id) && batch.status != BatchStatus::Running
            && batch.status != BatchStatus::Paused,
        batch.reopened(id) matches Ok(out) ==> {
            &&& out.status == BatchStatus::Pending
            &&& !out.cancel_requested && !out.pause_requested && !out.terminal_event_emitted
            &&& out.id == batch.id && out.jobs == batch.jobs && out.profile == batch.profile
            &&& (forall|i: int| 0 <= i < batch.ended.len() ==> (#[trigger] batch.ended[i]).0 != id)
                ==> out.ended == batch.ended
            &&& forall|p: int|
                0 <= p < batch.ended.len() && (#[trigger] batch.ended[p]).0 == id && (forall|i: int|
                    0 <= i < batch.ended.len() && i != p ==> (#[trigger] batch.ended[i]).0 != id)
                    ==> out.ended == batch.ended.take(p) + batch.ended.skip(p + 1)
        },
{
    lemma_record_found(batch.ended, id, 0);
    if let Ok(out) = batch.reopened(id) {
        assert forall|p: int|
            0 <= p < batch.ended.len() && (#[trigger] batch.ended[p]).0 == id && (forall|i: int|
                0 <= i < batch.ended.len() && i != p ==> (#[trigger] batch.ended[i]).0 != id)
            implies out.ended == batch.ended.take(p) + batch.ended.skip(p + 1) by {
            assert(record_position(batch.ended, id, 0) == Some(p));
            assert(batch.ended.remove(p) =~= batch.ended.take(p) + batch.ended.skip(p + 1));
        }
    }
}

/// A new work unit waits and has been tried by nobody.
pub proof fn law_new_units_wait(
    id: WorkUnitId,
    job_id: JobId,
    stage: StageKind,
    kind: Seq<char>,
    index: u32,
    hash: Seq<char>,
)
    ensures
        ({
            let unit = WorkUnitView::fresh(id, job_id, stage, kind, index, hash);
            &&& unit.id == id && unit.job_id == job_id && unit.stage == stage
            &&& unit.unit_kind == kind && unit.unit_index == index && unit.input_hash == hash
            &&& unit.status == WorkUnitStatus::Pending && unit.attempt == 0
            &&& unit.lease is None && unit.error_code is None && unit.artifact is None
            &&& unit.oom_strategy_retries == 0
        }),
{
}

/// A waiting unit is leased to one owner until a time that is yet to come, and
/// only a leased unit in work is completed, with an artifact of its stage. The
/// lease ends with the work.
pub proof fn law_units_are_leased_and_completed(
    unit: WorkUnitView,
    owner: Seq<char>,
    now_ms: u64,
    expires_at_ms: u64,
    artifact: ArtifactRef,
)
    ensures
        unit.leased(owner, now_ms, expires_at_ms) is Ok <==> unit.status == WorkUnitStatus::Pending
            && now_ms < expires_at_ms,
        unit.leased(owner, now_ms, expires_at_ms) matches Ok(out) ==> out == (WorkUnitView {
            status: WorkUnitStatus::Running,
            lease: Some(LeaseView { owner, expires_at_ms }),
            ..unit
        }),
        unit.completed(artifact) is Ok <==> unit.status == WorkUnitStatus::Running
            && unit.lease is Some && artifact.stage == unit.stage,
        unit.completed(artifact) matches Ok(out) ==> out == (WorkUnitView {
            status: WorkUnitStatus::Done,
            lease: None,
            artifact: Some(artifact),
            error_code: None,
            ..unit
        }),
{
}

/// A unit in work that fails goes back to the queue twice, and not at all where
/// the worker broke the protocol. The code of the failure stays with it.
pub proof fn law_failed_units_go_back_twice(unit: WorkUnitView, code: Seq<char>)
    ensures
        unit.failed(code) is Ok <==> unit.status == WorkUnitStatus::Running,
        unit.failed(code) matches Ok(out) ==> out == (WorkUnitView {
            status: WorkUnitStatus::Failed,
            lease: None,
            error_code: Some(code),
            ..unit
        }),
        unit.failed_or_requeued(code) is Ok <==> unit.status == WorkUnitStatus::Running,
        unit.failed_or_requeued(code) matches Ok((out, again)) ==> {
            &&& again <==> unit.attempt < 2 && code != "WORKER_PROTOCOL_ERROR"@
            &&& out.lease is None && out.error_code == Some(code)
            &&& again ==> out.status == WorkUnitStatus::Pending && out.attempt == unit.attempt + 1
            &&& !again ==> out.status == WorkUnitStatus::Failed && out.attempt == unit.attempt
            &&& out.artifact == unit.artifact && out.id == unit.id && out.oom_strategy_retries
                == unit.oom_strategy_retries
        },
{
}

/// A unit that ran out of memory goes back to the queue once, on its own account.
pub proof fn law_memory_is_short_once(unit: WorkUnitView)
    ensures
        unit.requeued_for_memory() is Ok <==> unit.status == WorkUnitStatus::Running,
        unit.requeued_for_memory() matches Ok((out, again)) ==> {
            &&& again <==> unit.oom_strategy_retries == 0
            &&& out.lease is None && out.attempt == unit.attempt && out.error_code
                == unit.error_code
            &&& again ==> out.status == WorkUnitStatus::Pending && out.oom_strategy_retries == 1
            &&& !again ==> out.status == WorkUnitStatus::Failed && out.oom_strategy_retries
                == unit.oom_strategy_retries
        },
{
}

/// A lease that has run out sends the unit back to the queue, one that has not
/// is kept. Failed and cancelled units are tried again on request, with nothing
/// left of the try before.
pub proof fn law_units_are_taken_up_again(unit: WorkUnitView, now_ms: u64, code: Seq<char>)
    ensures
        unit.recovered(now_ms) is Ok <==> unit.status == WorkUnitStatus::Running && (
        unit.lease matches Some(lease) && lease.expires_at_ms <= now_ms),
        unit.recovered(now_ms) matches Ok(out) ==> {
            &&& out.status == WorkUnitStatus::Pending && out.lease is None
            &&& unit.attempt < u32::MAX ==> out.attempt == unit.attempt + 1
            &&& out.error_code == unit.error_code && out.artifact == unit.artifact
        },
        unit.retried() is Ok <==> unit.status == WorkUnitStatus::Failed || unit.status
            == WorkUnitStatus::Cancelled,
        unit.retried() matches Ok(out) ==> {
            &&& out.status == WorkUnitStatus::Pending
            &&& unit.attempt < u32::MAX ==> out.attempt == unit.attempt + 1
            &&& out.error_code is None && out.artifact is None
            &&& out.id == unit.id && out.input_hash == unit.input_hash
        },
        unit.cancelled() is Ok <==> unit.status == WorkUnitStatus::Pending || unit.status
            == WorkUnitStatus::Running,
        unit.cancelled() matches Ok(out) ==> out == (WorkUnitView {
            status: WorkUnitStatus::Cancelled,
            lease: None,
            ..unit
        }),
        unit.invalidated(code) == (WorkUnitView {
            status: WorkUnitStatus::Pending,
            lease: None,
            artifact: None,
            error_code: Some(code),
            ..unit
        }),
{
}

/// The names under which statuses and stages are stored and shown.
pub proof fn law_statuses_have_their_names(status: JobStatus, kind: StageKind)
    ensures
        status is Pending ==> status.wire_text() == "pending"@,
        status is Running ==> status.wire_text() == "running"@,
        status is Done ==> status.wire_text() == "done"@,
        status is DoneDegraded ==> status.wire_text() == "done_degraded"@,
        status is Failed ==> status.wire_text() == "failed"@,
        status is Cancelled ==> status.wire_text() == "cancelled"@,
        kind is Probe ==> kind.text() == "probe"@,
        kind is ExtractAudio ==> kind.text() == "extract_audio"@,
        kind is Asr ==> kind.text() == "asr"@,
        kind is Split ==> kind.text() == "split"@,
        kind is Correct ==> kind.text() == "correct"@,
        kind is Translate ==> kind.text() == "translate"@,
        kind is Export ==> kind.text() == "export"@,
{
}

/// Which statuses are ends.
pub proof fn law_ends_are_final_statuses(job: JobStatus, stage: StageStatus, unit: WorkUnitStatus, batch: BatchStatus)
    ensures
        job.terminal() <==> job == JobStatus::Done || job == JobStatus::DoneDegraded || job
            == JobStatus::Failed || job == JobStatus::Cancelled,
        stage.terminal() <==> stage != StageStatus::Pending && stage != StageStatus::WaitingResource
            && stage != StageStatus::Running && stage != StageStatus::Retrying && stage
            != StageStatus::WaitingProvider,
        unit.terminal() <==> unit == WorkUnitStatus::Done || unit == WorkUnitStatus::Failed || unit
            == WorkUnitStatus::Cancelled,
        batch.terminal() <==> batch != BatchStatus::Pending && batch != BatchStatus::Running && batch
            != BatchStatus::Paused,
{
}

/// Two profiles agree where engine, model, device and number format do.
pub proof fn law_profiles_agree_in_all_parts(a: BatchExecutionProfile, b: BatchExecutionProfile)
    ensures
        a.same_as(a),
        a.same_as(b) == b.same_as(a),
        a.same_as(b) ==> a.asr_engine@ == b.asr_engine@ && a.asr_model@ == b.asr_model@ && a.device@
            == b.device@ && a.compute_type@ == b.compute_type@,
        a.asr_engine@ != b.asr_engine@ || a.asr_model@ != b.asr_model@ || a.device@ != b.device@
            || a.compute_type@ != b.compute_type@ ==> !a.same_as(b),
{
}

/// The stages follow each other from the probe to the export.
pub proof fn law_stages_have_an_order()
    ensures
        StageKind::Probe.position() < StageKind::ExtractAudio.position(),
        StageKind::ExtractAudio.position() < StageKind::Asr.position(),
        StageKind::Asr.position() < StageKind::Split.position(),
        StageKind::Split.position() < StageKind::Correct.position(),
        StageKind::Correct.position() < StageKind::Translate.position(),
        StageKind::Translate.position() < StageKind::Export.position(),
{
}

/// Batches agree only in everything.
pub proof fn law_batches_agree_in_all_parts(a: BatchView, b: BatchView)
    ensures
        a.agrees(a),
        a.agrees(b) ==> a.id@ == b.id@ && a.jobs == b.jobs && a.status == b.status
            && a.cancel_requested == b.cancel_requested && a.pause_requested == b.pause_requested
            && a.ended == b.ended && a.terminal_event_emitted == b.terminal_event_emitted
            && a.profile.asr_engine@ == b.profile.asr_engine@ && a.profile.asr_model@
            == b.profile.asr_model@ && a.profile.device@ == b.profile.device@
            && a.profile.compute_type@ == b.profile.compute_type@,
{
}

/// A refused step tells what was refused, from which status and to which.
pub proof fn law_refusals_tell_the_step(job: JobView, kind: StageKind, p: int, artifact: ArtifactRef)
    requires
        stands_at_stage(job, kind, p),
    ensures
        job.status == JobStatus::Pending ==> job.stage_started(kind) == Err::<
            JobView,
            DomainErrorView,
        >(
            DomainErrorView::IllegalTransition {
                aggregate: "Job"@,
                from: "Pending"@,
                to: "start_"@ + kind.name_text(),
            },
        ),
        job.status == JobStatus::Pending ==> job.stage_skipped(kind) == Err::<
            JobView,
            DomainErrorView,
        >(
            DomainErrorView::IllegalTransition {
                aggregate: "Job"@,
                from: "Pending"@,
                to: "skip_"@ + kind.name_text(),
            },
        ),
        job.stages[p].status == StageStatus::Pending ==> job.stage_completed(kind, artifact, false)
            == Err::<JobView, DomainErrorView>(
            DomainErrorView::IllegalTransition {
                aggregate: "Stage"@,
                from: "Pending"@,
                to: "Done"@,
            },
        ) && job.stage_failed(kind) == Err::<JobView, DomainErrorView>(
            DomainErrorView::IllegalTransition {
                aggregate: "Stage"@,
                from: "Pending"@,
                to: "Failed"@,
            },
        ),
        job.status == JobStatus::Done ==> job.cancelled() == Err::<JobView, DomainErrorView>(
            DomainErrorView::AlreadyTerminal { aggregate: "Job"@ },
        ),
        kind is Probe ==> kind.name_text() == "Probe"@,
        kind is ExtractAudio ==> kind.name_text() == "ExtractAudio"@,
        kind is Asr ==> kind.name_text() == "Asr"@,
        kind is Split ==> kind.name_text() == "Split"@,
        kind is Correct ==> kind.name_text() == "Correct"@,
        kind is Translate ==> kind.name_text() == "Translate"@,
        kind is Export ==> kind.name_text() == "Export"@,
{
    lemma_stage_found(job.stages, kind, p, 0);
}

/// Statuses are shown by their names.
pub proof fn law_statuses_are_shown_by_name(
    job: JobStatus,
    stage: StageStatus,
    unit: WorkUnitStatus,
    batch: BatchStatus,
)
    ensures
        job is Pending ==> job.name_text() == "Pending"@,
        job is Running ==> job.name_text() == "Running"@,
        job is Done ==> job.name_text() == "Done"@,
        job is DoneDegraded ==> job.name_text() == "DoneDegraded"@,
        job is Failed ==> job.name_text() == "Failed"@,
        job is Cancelled ==> job.name_text() == "Cancelled"@,
        stage is Pending ==> stage.name_text() == "Pending"@,
        stage is WaitingResource ==> stage.name_text() == "WaitingResource"@,
        stage is Running ==> stage.name_text() == "Running"@,
        stage is Retrying ==> stage.name_text() == "Retrying"@,
        stage is Done ==> stage.name_text() == "Done"@,
        stage is DoneDegraded ==> stage.name_text() == "DoneDegraded"@,
        stage is Failed ==> stage.name_text() == "Failed"@,
        stage is Skipped ==> stage.name_text() == "Skipped"@,
        stage is Cancelled ==> stage.name_text() == "Cancelled"@,
        stage is WaitingProvider ==> stage.name_text() == "WaitingProvider"@,
        unit is Pending ==> unit.name_text() == "Pending"@,
        unit is Running ==> unit.name_text() == "Running"@,
        unit is Done ==> unit.name_text() == "Done"@,
        unit is Failed ==> unit.name_text() == "Failed"@,
        unit is Cancelled ==> unit.name_text() == "Cancelled"@,
        batch is Pending ==> batch.name_text() == "Pending"@,
        batch is Running ==> batch.name_text() == "Running"@,
        batch is Paused ==> batch.name_text() == "Paused"@,
        batch is Done ==> batch.name_text() == "Done"@,
        batch is Failed ==> batch.name_text() == "Failed"@,
        batch is Cancelled ==> batch.name_text() == "Cancelled"@,
{
}

/// A batch has no member twice in a row.
pub proof fn law_neighbours_differ(ids: Seq<Seq<char>>, i: int)
    ensures
        0 <= i < ids.len() - 1 && ids[i] == ids[i + 1] ==> has_adjacent_duplicate(ids),
        (forall|k: int, l: int|
            0 <= k < l < ids.len() ==> #[trigger] ids[k] != #[trigger] ids[l])
            ==> !has_adjacent_duplicate(ids),
{
}

} // verus!
