//! What holds of batches, jobs and work units whatever is done to them.
use vstd::prelude::*;

use crate::error::DomainErrorView;

use super::batch::{record_position, BatchStatus, BatchView};
use super::event::JobTerminalStatus;
use super::job::{fresh_stage, kind_at, stage_position, JobView};
use super::stage::{ArtifactRef, JobStatus, StageKind, StageState, StageStatus};
use super::work_unit::{WorkUnitStatus, WorkUnitView, WORK_UNIT_DEFAULT_AUTO_RETRIES};
use crate::identity::{BatchId, JobId, UlidStr};

verus! {

/// The stages of the pipeline, each once and in order.
pub open spec fn well_formed(job: JobView) -> bool {
    &&& job.stages.len() == 7
    &&& forall|i: int| 0 <= i < 7 ==> (#[trigger] job.stages[i]).kind == kind_at(i)
}

/// The stage has been entered.
pub open spec fn reached(status: StageStatus) -> bool {
    status.satisfied() || status.in_flight() || status == StageStatus::Failed
}

/// No stage has been entered before all stages in front of it were complete.
pub open spec fn in_order(job: JobView) -> bool {
    forall|i: int, j: int|
        0 <= i < j < job.stages.len() && reached((#[trigger] job.stages[j]).status) ==> (
        #[trigger] job.stages[i]).status.satisfied()
}

/// A well-formed job that has passed through its stages in order.
pub open spec fn sound(job: JobView) -> bool {
    well_formed(job) && in_order(job)
}

proof fn lemma_position_from(job: JobView, kind: StageKind, from: int)
    requires
        well_formed(job),
        0 <= from <= kind.position(),
    ensures
        stage_position(job.stages, kind, from) == Some(kind.position()),
    decreases kind.position() - from,
{
    assert(job.stages[from].kind == kind_at(from));
    if from < kind.position() {
        lemma_position_from(job, kind, from + 1);
    }
}

/// In a well-formed job every stage is found at its place in the pipeline.
pub proof fn law_every_stage_is_found(job: JobView, kind: StageKind)
    requires
        well_formed(job),
    ensures
        job.position(kind) == Some(kind.position()),
{
    lemma_position_from(job, kind, 0);
}

/// A fresh job is sound.
pub proof fn law_fresh_job_is_sound(
    id: JobId,
    batch_id: Option<BatchId>,
    snapshot_id: Option<UlidStr>,
    profile_revision: UlidStr,
    source_path: Seq<char>,
)
    ensures
        sound(JobView::fresh(id, batch_id, snapshot_id, profile_revision, source_path)),
{
}

/// Starting or skipping a stage keeps a job sound, and is possible only when
/// every stage in front of it is complete.
pub proof fn law_entering_needs_all_prerequisites(job: JobView, kind: StageKind)
    requires
        sound(job),
    ensures
        job.stage_started(kind) matches Ok(next) ==> sound(next) && (forall|i: int|
            0 <= i < kind.position() ==> (#[trigger] job.stages[i]).status.satisfied()),
        job.stage_skipped(kind) matches Ok(next) ==> sound(next) && (forall|i: int|
            0 <= i < kind.position() ==> (#[trigger] job.stages[i]).status.satisfied()),
{
    law_every_stage_is_found(job, kind);
    let p = kind.position();
    if p > 0 && job.stages[p - 1].status.satisfied() {
        assert(reached(job.stages[p - 1].status));
        assert forall|i: int| 0 <= i < p implies (#[trigger] job.stages[i]).status.satisfied() by {}
    }
}

/// Ending a stage keeps a job sound.
pub proof fn law_ending_a_stage_keeps_order(
    job: JobView,
    kind: StageKind,
    artifact: ArtifactRef,
    degraded: bool,
)
    requires
        sound(job),
    ensures
        job.stage_completed(kind, artifact, degraded) matches Ok(next) ==> sound(next),
        job.stage_failed(kind) matches Ok(next) ==> sound(next),
        job.revision_recorded(kind, artifact) matches Ok(next) ==> sound(next),
{
    law_every_stage_is_found(job, kind);
}

/// Starting, ending, cancelling, failing and recovering a job keep it sound.
pub proof fn law_job_transitions_keep_order(job: JobView)
    requires
        sound(job),
    ensures
        job.started() matches Ok(next) ==> sound(next),
        job.finished() matches Ok(next) ==> sound(next),
        job.cancelled() matches Ok(next) ==> sound(next),
        job.cancel_asked() matches Ok(next) ==> sound(next),
        job.failed() matches Ok(next) ==> sound(next),
        sound(job.recovered()),
{
}

/// A retry keeps a job sound. What stands in front of the stage it begins at
/// is kept with its artifacts, everything from there on is pending without one.
pub proof fn law_retry_keeps_prerequisites(job: JobView, from_stage: Option<StageKind>)
    requires
        sound(job),
    ensures
        job.retried(from_stage) matches Ok((next, kind)) ==> {
            &&& sound(next)
            &&& next.status == JobStatus::Pending
            &&& from_stage matches Some(chosen) ==> kind == chosen
            &&& forall|i: int|
                0 <= i < kind.position() ==> #[trigger] next.stages[i] == job.stages[i]
            &&& forall|i: int|
                kind.position() <= i < 7 ==> #[trigger] next.stages[i] == fresh_stage(kind_at(i))
        },
{
    if let Some(chosen) = from_stage {
        law_every_stage_is_found(job, chosen);
    }
    if let Ok(p) = job.retry_start(from_stage) {
        lemma_retry_position(job.stages, 0);
        assert(kind_at(p).position() == p);
    }
}

proof fn lemma_retry_position(stages: Seq<StageState>, from: int)
    requires
        0 <= from,
    ensures
        super::job::retry_position(stages, from) matches Some(p) ==> from <= p < stages.len()
            && stages[p].status.needs_retry(),
    decreases stages.len() - from,
{
    if from < stages.len() {
        lemma_retry_position(stages, from + 1);
    }
}

/// Invalidation for recovery keeps what stands in front of the stage.
pub proof fn law_invalidation_keeps_prerequisites(job: JobView, kind: StageKind)
    requires
        sound(job),
    ensures
        job.invalidated(kind) matches Ok(next) && sound(next) && next.status == JobStatus::Pending
            && (forall|i: int|
            0 <= i < kind.position() ==> #[trigger] next.stages[i] == job.stages[i]) && (forall|
            i: int,
        |
            kind.position() <= i < 7 ==> #[trigger] next.stages[i] == fresh_stage(kind_at(i))),
{
    law_every_stage_is_found(job, kind);
}

/// Recovery after a restart keeps completed stages and all artifacts.
pub proof fn law_recovery_keeps_completed_stages(job: JobView)
    ensures
        job.recovered().stages.len() == job.stages.len(),
        forall|i: int|
            0 <= i < job.stages.len() ==> {
                &&& (#[trigger] job.recovered().stages[i]).artifact == job.stages[i].artifact
                &&& job.stages[i].status.terminal() ==> job.recovered().stages[i] == job.stages[i]
            },
        job.status == JobStatus::Running ==> forall|i: int|
            0 <= i < job.stages.len() ==> !(
            #[trigger] job.recovered().stages[i]).status.in_flight(),
        job.recovered().status != JobStatus::Running,
{
}

/// A job that has ended does not start, finish, fail or get cancelled again:
/// only an explicit retry or an invalidation opens it.
pub proof fn law_ended_job_stays_ended(job: JobView, kind: StageKind)
    requires
        job.status.terminal(),
    ensures
        job.started() is Err,
        job.finished() is Err,
        job.cancelled() is Err,
        job.cancel_asked() is Err,
        job.failed() is Err,
        job.stage_started(kind) is Err,
        job.stage_skipped(kind) is Err,
        job.recovered() == job,
{
}

/// After a cancellation nothing is left open, and what had ended is unchanged.
pub proof fn law_cancelled_job_has_no_open_stage(job: JobView)
    ensures
        job.cancelled() matches Ok(next) ==> {
            &&& next.status == JobStatus::Cancelled
            &&& forall|i: int|
                0 <= i < next.stages.len() ==> (#[trigger] next.stages[i]).status.terminal()
            &&& forall|i: int|
                0 <= i < job.stages.len() && (#[trigger] job.stages[i]).status.terminal()
                    ==> next.stages[i] == job.stages[i]
        },
{
}

/// A batch that has ended stays as it is until one of its jobs is retried.
pub proof fn law_ended_batch_stays_ended(
    batch: BatchView,
    id: Seq<char>,
    how: JobTerminalStatus,
    status: BatchStatus,
)
    requires
        batch.status.terminal(),
    ensures
        batch.started() is Err,
        batch.recorded(id, how) is Err,
        batch.finished(status) is Err,
        batch.finished_cancelled() is Err,
        batch.cancelled() is Err,
        batch.cancel_asked() is Err,
        batch.pause_asked() is Err,
        batch.paused() is Err,
        batch.resumed() is Err,
        batch.recovered() == batch,
{
}

/// The members that have ended are members, each recorded once.
pub open spec fn records_sound(batch: BatchView) -> bool {
    &&& forall|i: int| 0 <= i < batch.ended.len() ==> batch.jobs.contains((#[trigger] batch.ended[i]).0)
    &&& forall|i: int, j: int|
        0 <= i < j < batch.ended.len() ==> (#[trigger] batch.ended[i]).0 != (
        #[trigger] batch.ended[j]).0
}

proof fn lemma_record_position(
    ended: Seq<(Seq<char>, JobTerminalStatus)>,
    id: Seq<char>,
    from: int,
)
    requires
        0 <= from,
    ensures
        match record_position(ended, id, from) {
            Some(p) => from <= p < ended.len() && ended[p].0 == id,
            None => forall|k: int| from <= k < ended.len() ==> (#[trigger] ended[k]).0 != id,
        },
    decreases ended.len() - from,
{
    if from < ended.len() {
        lemma_record_position(ended, id, from + 1);
    }
}

/// Recording and reopening members keep the records sound, as does every other
/// transition, none of which touches them.
pub proof fn law_records_stay_sound(batch: BatchView, id: Seq<char>, how: JobTerminalStatus)
    requires
        records_sound(batch),
    ensures
        batch.recorded(id, how) matches Ok(next) ==> records_sound(next) && next.has_record(id),
        batch.reopened(id) matches Ok(next) ==> records_sound(next) && !next.has_record(id),
{
    lemma_record_position(batch.ended, id, 0);
    if let Ok(next) = batch.recorded(id, how) {
        lemma_record_position(next.ended, id, 0);
        match record_position(batch.ended, id, 0) {
            Some(p) => {
                assert(next.ended[p].0 == id);
            },
            None => {
                assert(next.ended[next.ended.len() - 1].0 == id);
            },
        }
    }
    if let Ok(next) = batch.reopened(id) {
        lemma_record_position(next.ended, id, 0);
        if let Some(p) = record_position(batch.ended, id, 0) {
            assert forall|k: int| 0 <= k < next.ended.len() implies (#[trigger] next.ended[k]).0
                != id && batch.jobs.contains(next.ended[k].0) by {
                if k < p {
                    assert(next.ended[k] == batch.ended[k]);
                } else {
                    assert(next.ended[k] == batch.ended[k + 1]);
                }
            }
        }
    }
}

/// Reopening one member keeps the records of all others.
pub proof fn law_reopening_keeps_other_records(batch: BatchView, id: Seq<char>, other: Seq<char>)
    requires
        records_sound(batch),
        other != id,
    ensures
        batch.reopened(id) matches Ok(next) ==> next.has_record(other) == batch.has_record(other)
            && next.status == BatchStatus::Pending && !next.terminal_event_emitted,
{
    if let Ok(next) = batch.reopened(id) {
        lemma_record_position(batch.ended, id, 0);
        lemma_record_position(batch.ended, other, 0);
        lemma_record_position(next.ended, other, 0);
        if let Some(p) = record_position(batch.ended, id, 0) {
            if let Some(q) = record_position(batch.ended, other, 0) {
                let r = if q < p {
                    q
                } else {
                    q - 1
                };
                assert(next.ended[r].0 == other);
            }
            if let Some(r) = record_position(next.ended, other, 0) {
                let q = if r < p {
                    r
                } else {
                    r + 1
                };
                assert(batch.ended[q].0 == other);
            }
        }
    }
}

/// A batch whose members are all different finishes only when every one of
/// them is recorded as ended.
pub proof fn law_finished_batch_has_every_member_ended(
    batch: BatchView,
    status: BatchStatus,
    id: Seq<char>,
)
    requires
        records_sound(batch),
        batch.jobs.no_duplicates(),
        batch.jobs.contains(id),
    ensures
        batch.finished(status) is Ok ==> batch.has_record(id),
        batch.finished_cancelled() is Ok ==> batch.has_record(id),
{
    if batch.ended.len() == batch.jobs.len() {
        let ids = Seq::new(batch.ended.len(), |i: int| batch.ended[i].0);
        assert(ids.no_duplicates());
        ids.unique_seq_to_set();
        batch.jobs.unique_seq_to_set();
        assert forall|x: Seq<char>| ids.to_set().contains(x) implies batch.jobs.to_set().contains(
            x,
        ) by {
            let i = choose|i: int| 0 <= i < ids.len() && ids[i] == x;
            assert(batch.jobs.contains(batch.ended[i].0));
        }
        vstd::set_lib::lemma_subset_equality(ids.to_set(), batch.jobs.to_set());
        assert(ids.to_set().contains(id));
        let i = choose|i: int| 0 <= i < ids.len() && ids[i] == id;
        lemma_record_position(batch.ended, id, 0);
        assert(batch.ended[i].0 == id);
    }
}

/// A batch emits its terminal event once: after it has finished, it cannot
/// finish or be cancelled again.
pub proof fn law_one_terminal_event(batch: BatchView, status: BatchStatus, again: BatchStatus)
    ensures
        batch.finished(status) matches Ok((next, event)) ==> {
            &&& event == batch.terminal_event(status)
            &&& next.terminal_event_emitted
            &&& next.finished(again) is Err
            &&& next.finished_cancelled() is Err
            &&& next.cancelled() is Err
        },
{
}

/// Asking for cancellation twice is the same as asking once, and a batch that
/// is to be cancelled cannot be paused.
pub proof fn law_cancellation_is_idempotent(batch: BatchView)
    ensures
        batch.cancel_asked() matches Ok(next) ==> {
            &&& next.status == batch.status
            &&& next.cancel_asked() == Ok::<BatchView, DomainErrorView>(next)
            &&& next.pause_asked() is Err
        },
{
}

/// A pause that is taken back leaves no trace.
pub proof fn law_resume_undoes_pause(batch: BatchView)
    requires
        !batch.pause_requested,
    ensures
        batch.pause_asked() matches Ok(asked) ==> {
            &&& asked.status == BatchStatus::Running
            &&& asked.resumed() == Ok::<BatchView, DomainErrorView>(batch)
            &&& asked.paused() matches Ok(paused) && paused.resumed() == Ok::<
                BatchView,
                DomainErrorView,
            >(batch)
        },
{
}

/// A unit goes back to the queue by itself a fixed number of times at most,
/// and never after an error that would come again.
pub proof fn law_auto_retries_are_bounded(unit: WorkUnitView, code: Seq<char>)
    ensures
        unit.failed_or_requeued(code) matches Ok((next, back)) ==> {
            &&& back ==> next.status == WorkUnitStatus::Pending && next.attempt == unit.attempt + 1
                && next.attempt <= WORK_UNIT_DEFAULT_AUTO_RETRIES
            &&& !back ==> next.status == WorkUnitStatus::Failed && next.attempt == unit.attempt
            &&& super::work_unit::deterministic_error(code) ==> !back
            &&& next.lease is None
        },
{
}

/// Only a running unit has a lease.
pub open spec fn lease_sound(unit: WorkUnitView) -> bool {
    unit.lease is Some <==> unit.status == WorkUnitStatus::Running
}

/// Every transition keeps the lease with the running state.
pub proof fn law_lease_belongs_to_running_unit(
    unit: WorkUnitView,
    owner: Seq<char>,
    now_ms: u64,
    expires_at_ms: u64,
    artifact: ArtifactRef,
    code: Seq<char>,
)
    requires
        lease_sound(unit),
    ensures
        unit.leased(owner, now_ms, expires_at_ms) matches Ok(next) ==> lease_sound(next),
        unit.completed(artifact) matches Ok(next) ==> lease_sound(next),
        unit.failed(code) matches Ok(next) ==> lease_sound(next),
        unit.failed_or_requeued(code) matches Ok((next, _)) ==> lease_sound(next),
        unit.requeued_for_memory() matches Ok((next, _)) ==> lease_sound(next),
        unit.cancelled() matches Ok(next) ==> lease_sound(next),
        unit.recovered(now_ms) matches Ok(next) ==> lease_sound(next),
        unit.retried() matches Ok(next) ==> lease_sound(next),
        lease_sound(unit.invalidated(code)),
{
}

/// A lease that has run out can be taken back, and the unit leased anew.
pub proof fn law_expired_lease_can_be_renewed(
    unit: WorkUnitView,
    owner: Seq<char>,
    now_ms: u64,
    expires_at_ms: u64,
)
    requires
        unit.status == WorkUnitStatus::Running,
        unit.lease matches Some(lease) && lease.expires_at_ms <= now_ms,
        now_ms < expires_at_ms,
    ensures
        unit.recovered(now_ms) matches Ok(next) && next.status == WorkUnitStatus::Pending
            && next.leased(owner, now_ms, expires_at_ms) is Ok,
{
}

} // verus!
