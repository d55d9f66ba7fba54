//! Cancellation of jobs and batches. A running job keeps its state until its
//! owner reaches a boundary between two pieces of work.
use vstd::prelude::*;
use vstd::string::*;

use crate::contracts::{AppResult, ApplicationError, ApplicationErrorView};
use crate::error::DomainErrorView;
use crate::identity::{BatchId, JobId};
use crate::json::{json_quoted, member, object, object_text, push_member, quoted};
use crate::ports::OutboxEvent;
use crate::text::text_views;
use crate::workflow::batch::{Batch, BatchStatus, BatchView};
use crate::workflow::event::{ended_as, terminal_status, JobTerminalStatus};
use crate::workflow::job::{Job, JobView};
use crate::workflow::stage::{JobStatus, StageStatus};
use crate::workflow::work_unit::{WorkUnit, WorkUnitStatus, WorkUnitView};

use super::run_batch::{about_batch, about_job, batch_error, job_error};

verus! {

/// What a request to cancel was answered.
#[derive(Debug, PartialEq, Eq)]
pub struct CancelResponse {
    /// Whether this request was the one that asked for it.
    pub cancel_requested: bool,
    pub job_id: Option<JobId>,
    pub batch_id: Option<BatchId>,
}

/// Why a job cannot be cancelled, if so.
pub open spec fn job_refusal(job_id: Seq<char>, job: Option<JobView>) -> Option<ApplicationErrorView> {
    match job {
        None => Some(about_job(job_id, " not found"@)),
        Some(job) => if job.status.terminal() && job.status != JobStatus::Cancelled {
            Some(about_job(job_id, " is already "@ + job.status.name_text()))
        } else {
            None
        },
    }
}

pub open spec fn job_view(job: Option<Job>) -> Option<JobView> {
    match job {
        Some(job) => Some(job@),
        None => None,
    }
}

/// The job that is to be cancelled.
pub fn admit_job(job_id: &JobId, job: Option<Job>) -> (result: AppResult<Job>)
    ensures
        match result {
            Ok(admitted) => job_refusal(job_id@, job_view(job)) is None && job == Some(admitted),
            Err(error) => job_refusal(job_id@, job_view(job)) == Some(error@),
        },
{
    let job = match job {
        Some(job) => job,
        None => {
            return Err(job_error(job_id.as_str(), " not found"));
        },
    };
    if job.status().is_terminal() && job.status() != JobStatus::Cancelled {
        let mut what = " is already ".to_owned();
        what.append(job.status().name());
        return Err(job_error(job_id.as_str(), what.as_str()));
    }
    Ok(job)
}

/// A unit of a cancelled job: one that waits is cancelled, one that runs is
/// left to its owner.
pub open spec fn unit_after_cancel(unit: WorkUnitView) -> WorkUnitView {
    if unit.status == WorkUnitStatus::Pending {
        WorkUnitView { status: WorkUnitStatus::Cancelled, lease: None, ..unit }
    } else {
        unit
    }
}

/// Cancel a unit that waits. Tells whether it has to be stored.
pub fn cancel_unit(unit: &mut WorkUnit) -> (changed: bool)
    ensures
        final(unit)@ == unit_after_cancel(old(unit)@),
        changed == (old(unit)@.status == WorkUnitStatus::Pending),
{
    if unit.status() == WorkUnitStatus::Pending {
        let cancelled = unit.cancel();
        assert(cancelled is Ok);
        true
    } else {
        false
    }
}

/// A job after a request to cancel it: one that waits ends at once, one that
/// runs is asked to.
pub open spec fn job_after_cancel(job: JobView) -> JobView {
    if job.status == JobStatus::Pending {
        match job.cancelled() {
            Ok(after) => after,
            Err(_) => job,
        }
    } else if job.status == JobStatus::Running {
        JobView { cancel_requested: true, ..job }
    } else {
        job
    }
}

/// Cancel a job. Tells whether it has to be stored.
pub fn cancel_job(job: &mut Job) -> (changed: bool)
    ensures
        final(job)@ == job_after_cancel(old(job)@),
        changed == (old(job)@.status == JobStatus::Pending || (old(job)@.status
            == JobStatus::Running && !old(job)@.cancel_requested)),
{
    if job.status() == JobStatus::Pending {
        let cancelled = job.cancel();
        assert(cancelled is Ok);
        true
    } else if job.status() == JobStatus::Running && !job.cancel_requested() {
        let asked = job.request_cancel();
        assert(asked is Ok);
        true
    } else {
        false
    }
}

/// The answer to a request to cancel a job, given the job before the request.
pub fn job_response(job: &Job) -> (response: CancelResponse)
    ensures
        response.cancel_requested == (job@.status != JobStatus::Cancelled),
        response.job_id == Some(job@.id),
        response.batch_id == job@.batch_id,
{
    let batch_id = match job.batch_id() {
        Some(id) => Some(id.clone()),
        None => None,
    };
    CancelResponse {
        cancel_requested: job.status() != JobStatus::Cancelled,
        job_id: Some(job.id().clone()),
        batch_id,
    }
}

/// The cancellation of a batch on its way through the members.
#[derive(Debug)]
pub struct CancelBatch {
    batch: Batch,
    ended: Vec<(JobId, JobTerminalStatus)>,
    all_ended: bool,
    was_requested: bool,
}

/// The state of a cancellation.
pub struct CancelBatchView {
    pub batch: BatchView,
    /// Members that have ended and are not recorded yet.
    pub ended: Seq<(Seq<char>, JobTerminalStatus)>,
    /// No member is known to go on.
    pub all_ended: bool,
    /// The batch was cancelled before, or had ended.
    pub was_requested: bool,
}

impl View for CancelBatch {
    type V = CancelBatchView;

    closed spec fn view(&self) -> CancelBatchView {
        CancelBatchView {
            batch: self.batch@,
            ended: crate::workflow::batch::ended_texts(self.ended@),
            all_ended: self.all_ended,
            was_requested: self.was_requested,
        }
    }
}

/// The batch once cancellation has been asked for.
pub open spec fn asked(batch: BatchView) -> BatchView {
    if batch.status.terminal() {
        batch
    } else {
        BatchView { cancel_requested: true, ..batch }
    }
}

/// The batch in a state in which members can be recorded as ended.
pub open spec fn awake(batch: BatchView) -> BatchView {
    if batch.status == BatchStatus::Pending {
        BatchView { status: BatchStatus::Running, ..batch }
    } else if batch.status == BatchStatus::Paused {
        BatchView { status: BatchStatus::Running, pause_requested: false, ..batch }
    } else {
        batch
    }
}

/// A member of a cancelled batch: one that has ended stays, one that waits ends,
/// one that runs is asked to.
pub open spec fn member_after_cancel(job: JobView) -> JobView {
    if job.status.terminal() {
        job
    } else {
        job_after_cancel(job)
    }
}

impl CancelBatchView {
    /// The cancellation after a member.
    pub open spec fn after(self, job: JobView) -> CancelBatchView {
        let after = member_after_cancel(job);
        if !after.status.terminal() {
            CancelBatchView { all_ended: false, ..self }
        } else if self.batch.has_record(job.id@) {
            self
        } else {
            CancelBatchView { ended: self.ended.push((job.id@, ended_as(after.status))), ..self }
        }
    }
}

/// The batch with members recorded, up to the first record that is refused.
pub open spec fn with_records(
    batch: BatchView,
    ended: Seq<(Seq<char>, JobTerminalStatus)>,
) -> Result<BatchView, DomainErrorView>
    decreases ended.len(),
{
    if ended.len() == 0 {
        Ok(batch)
    } else {
        match with_records(batch, ended.drop_last()) {
            Err(error) => Err(error),
            Ok(before) => before.recorded(ended.last().0, ended.last().1),
        }
    }
}

proof fn lemma_records_fail(
    batch: BatchView,
    ended: Seq<(Seq<char>, JobTerminalStatus)>,
    n: int,
)
    requires
        0 <= n <= ended.len(),
        with_records(batch, ended.take(n)) is Err,
    ensures
        with_records(batch, ended) == with_records(batch, ended.take(n)),
    decreases ended.len() - n,
{
    if n < ended.len() {
        assert(ended.take(n + 1).drop_last() =~= ended.take(n));
        lemma_records_fail(batch, ended, n + 1);
    } else {
        assert(ended.take(n) =~= ended);
    }
}

impl CancelBatchView {
    /// What becomes of the batch when all members have been visited, and
    /// whether it has to be stored.
    pub open spec fn ending(self) -> Result<(BatchView, bool), DomainErrorView> {
        match with_records(self.batch, self.ended) {
            Err(error) => Err(error),
            Ok(batch) => if self.all_ended && !batch.status.terminal() {
                match batch.finished_cancelled() {
                    Ok((after, _)) => Ok((after, true)),
                    Err(error) => Err(error),
                }
            } else {
                Ok((batch, false))
            },
        }
    }
}

/// The batch that is to be cancelled.
pub fn admit_batch(batch_id: &BatchId, batch: Option<Batch>) -> (result: AppResult<Batch>)
    ensures
        match result {
            Ok(admitted) => batch == Some(admitted),
            Err(error) => batch is None && error@ == about_batch(batch_id@, " not found"@),
        },
{
    match batch {
        Some(batch) => Ok(batch),
        None => Err(batch_error(batch_id.as_str(), " not found")),
    }
}

impl CancelBatch {
    /// Ask a batch to end. Tells whether it has to be stored before its members
    /// are visited.
    pub fn begin(batch: Batch) -> (begun: (Self, bool))
        ensures
            begun.0@ == (CancelBatchView {
                batch: awake(asked(batch@)),
                ended: seq![],
                all_ended: true,
                was_requested: batch@.cancel_requested || batch@.status.terminal(),
            }),
            begun.1 == (awake(asked(batch@)).status == BatchStatus::Running),
    {
        let mut batch = batch;
        let terminal = batch.status().is_terminal();
        let was_requested = batch.cancel_requested() || terminal;
        if !was_requested {
            let requested = batch.request_cancel();
            assert(requested is Ok);
        }
        if batch.status() == BatchStatus::Pending {
            let started = batch.start();
            assert(started is Ok);
        } else if batch.status() == BatchStatus::Paused {
            let resumed = batch.resume();
            assert(resumed is Ok);
        }
        let running = batch.status() == BatchStatus::Running;
        let begun = CancelBatch { batch, ended: Vec::new(), all_ended: true, was_requested };
        assert(begun@.ended =~= seq![]);
        (begun, running)
    }

    pub fn batch(&self) -> (batch: &Batch)
        ensures
            batch@ == self@.batch,
    {
        &self.batch
    }

    /// Visit a member. Tells whether it has to be stored.
    pub fn visit(&mut self, job: &mut Job) -> (changed: bool)
        ensures
            final(job)@ == member_after_cancel(old(job)@),
            final(self)@ == old(self)@.after(old(job)@),
            changed == !old(job)@.status.terminal(),
    {
        let mut changed = false;
        if !job.status().is_terminal() {
            if job.status() == JobStatus::Pending {
                let cancelled = job.cancel();
                assert(cancelled is Ok);
            } else {
                let requested = job.request_cancel();
                assert(requested is Ok);
            }
            changed = true;
            if !job.status().is_terminal() {
                self.all_ended = false;
                return changed;
            }
        }
        if !self.batch.has_terminal_record(job.id()) {
            let ghost before = self@.ended;
            self.ended.push((job.id().clone(), terminal_status(job.status())));
            assert(self@.ended =~= before.push((job@.id@, ended_as(job@.status))));
        }
        changed
    }

    /// A member is not stored, so the batch cannot end now. No further member
    /// is visited.
    pub fn lost(&mut self)
        ensures
            final(self)@ == (CancelBatchView { all_ended: false, ..old(self)@ }),
    {
        self.all_ended = false;
    }

    /// Record the members that have ended, and end the batch if all have.
    /// Gives the batch where it has to be stored.
    pub fn end(self) -> (result: AppResult<Option<Batch>>)
        ensures
            match result {
                Ok(Some(batch)) => self@.ending() == Ok::<(BatchView, bool), DomainErrorView>(
                    (batch@, true),
                ),
                Ok(None) => self@.ending() matches Ok((_, false)),
                Err(error) => error@ matches ApplicationErrorView::Domain(e) && self@.ending()
                    == Err::<(BatchView, bool), DomainErrorView>(e),
            },
    {
        let ghost start = self@;
        let mut batch = self.batch;
        let ended = self.ended;
        let mut i: usize = 0;
        assert(start.ended.take(0) =~= seq![]);
        while i < ended.len()
            invariant
                i <= ended.len(),
                start == self@,
                ended == self.ended,
                start.ended == crate::workflow::batch::ended_texts(ended@),
                with_records(start.batch, start.ended.take(i as int)) == Ok::<
                    BatchView,
                    DomainErrorView,
                >(batch@),
            decreases ended.len() - i,
        {
            proof {
                assert(start.ended.take(i + 1).drop_last() =~= start.ended.take(i as int));
                assert(start.ended.take(i + 1).last() == (
                    ended@[i as int].0@,
                    ended@[i as int].1,
                ));
            }
            match batch.record_job_terminal(&ended[i].0, ended[i].1) {
                Ok(_) => {},
                Err(error) => {
                    proof {
                        lemma_records_fail(start.batch, start.ended, i + 1);
                    }
                    return Err(ApplicationError::Domain(error));
                },
            }
            i += 1;
        }
        assert(start.ended.take(i as int) =~= start.ended);
        if self.all_ended && !batch.status().is_terminal() {
            match batch.finish_cancelled() {
                Ok(_) => Ok(Some(batch)),
                Err(error) => Err(ApplicationError::Domain(error)),
            }
        } else {
            Ok(None)
        }
    }

    /// The answer to the request.
    pub fn response(&self) -> (response: CancelResponse)
        ensures
            response.cancel_requested == !self@.was_requested,
            response.job_id is None,
            response.batch_id == Some(self@.batch.id),
    {
        CancelResponse {
            cancel_requested: !self.was_requested,
            job_id: None,
            batch_id: Some(self.batch.id().clone()),
        }
    }
}

/// What is told of a request to cancel.
pub open spec fn cancel_payload(aggregate_id: Seq<char>) -> Seq<char> {
    object(seq![member("aggregate_id"@, json_quoted(aggregate_id))])
}

/// The note of a request to cancel.
pub fn cancel_outbox_event(aggregate_type: &str, aggregate_id: &str, created_at: &str) -> (event:
    OutboxEvent)
    ensures
        event.aggregate_type@ == aggregate_type@,
        event.aggregate_id@ == aggregate_id@,
        event.event_type@ == "cancel_requested"@,
        event.payload_json@ == cancel_payload(aggregate_id@),
        event.created_at@ == created_at@,
{
    let mut members: Vec<String> = Vec::new();
    assert(text_views(members@) =~= seq![]);
    push_member(&mut members, "aggregate_id", quoted(aggregate_id).as_str());
    assert(text_views(members@) =~= seq![member("aggregate_id"@, json_quoted(aggregate_id@))]);
    OutboxEvent {
        aggregate_type: aggregate_type.to_owned(),
        aggregate_id: aggregate_id.to_owned(),
        event_type: "cancel_requested".to_owned(),
        payload_json: object_text(&members),
        created_at: created_at.to_owned(),
    }
}

/// The owner of a job has to stop it: the job or its batch was cancelled.
pub open spec fn stop_wanted(job: Option<JobView>, batch: Option<BatchView>) -> bool {
    ||| job matches Some(job) && (job.cancel_requested || job.status == JobStatus::Cancelled)
    ||| batch matches Some(batch) && (batch.cancel_requested || batch.status
        == BatchStatus::Cancelled)
}

/// Whether the owner of a job has to stop it, given what is stored. A job or a
/// batch that is missing asks for nothing.
pub fn is_stop_wanted(job: Option<&Job>, batch: Option<&Batch>) -> (answer: bool)
    ensures
        answer == stop_wanted(
            match job {
                Some(job) => Some(job@),
                None => None,
            },
            match batch {
                Some(batch) => Some(batch@),
                None => None,
            },
        ),
{
    let by_job = match job {
        Some(job) => job.cancel_requested() || job.status() == JobStatus::Cancelled,
        None => false,
    };
    let by_batch = match batch {
        Some(batch) => batch.cancel_requested() || batch.status() == BatchStatus::Cancelled,
        None => false,
    };
    by_job || by_batch
}

/// A second request to cancel changes nothing: neither a job, nor a unit, nor a
/// batch, nor a member of it.
pub proof fn law_cancelling_twice_is_cancelling_once(
    job: JobView,
    unit: WorkUnitView,
    batch: BatchView,
)
    ensures
        job_after_cancel(job_after_cancel(job)) == job_after_cancel(job),
        unit_after_cancel(unit_after_cancel(unit)) == unit_after_cancel(unit),
        member_after_cancel(member_after_cancel(job)) == member_after_cancel(job),
        asked(asked(batch)) == asked(batch),
{
}

/// A running job keeps its state and its stages when it is asked to end.
pub proof fn law_running_jobs_end_at_a_boundary(job: JobView)
    requires
        job.status == JobStatus::Running,
    ensures
        job_after_cancel(job).status == JobStatus::Running,
        job_after_cancel(job).stages == job.stages,
        stop_wanted(Some(job_after_cancel(job)), None),
{
}

/// A batch ends as cancelled only when every member has ended.
pub proof fn law_batches_end_after_their_members(state: CancelBatchView)
    requires
        !state.batch.status.terminal(),
    ensures
        state.ending() matches Ok((after, stored)) ==> {
            &&& stored ==> state.all_ended && after.status == BatchStatus::Cancelled
                && after.ended.len() == after.jobs.len()
            &&& !state.all_ended ==> !stored
        },
{
}

/// A waiting job is cancelled at once with all its open stages; a running one is
/// asked to end; others stay. Only waiting units are cancelled.
pub proof fn law_cancelling_in_plain_terms(job: JobView, unit: WorkUnitView)
    ensures
        job.status == JobStatus::Pending ==> {
            let after = job_after_cancel(job);
            &&& after.status == JobStatus::Cancelled && after.id == job.id
            &&& after.stages.len() == job.stages.len()
            &&& forall|i: int|
                0 <= i < job.stages.len() ==> {
                    let was = job.stages[i].status;
                    let is = (#[trigger] after.stages[i]).status;
                    if was == StageStatus::Done || was == StageStatus::DoneDegraded || was
                        == StageStatus::Failed || was == StageStatus::Skipped {
                        is == was
                    } else {
                        is == StageStatus::Cancelled
                    }
                }
        },
        job.status == JobStatus::Running ==> job_after_cancel(job) == (JobView {
            cancel_requested: true,
            ..job
        }),
        job.status != JobStatus::Pending && job.status != JobStatus::Running ==> job_after_cancel(
            job,
        ) == job,
        member_after_cancel(job) == job_after_cancel(job),
        unit.status == WorkUnitStatus::Pending ==> unit_after_cancel(unit).status
            == WorkUnitStatus::Cancelled && unit_after_cancel(unit).lease is None
            && unit_after_cancel(unit).id == unit.id,
        unit.status != WorkUnitStatus::Pending ==> unit_after_cancel(unit) == unit,
{
}

/// A request to cancel is refused where the job is unknown or has ended in
/// another way.
pub proof fn law_ended_jobs_are_not_cancelled(id: Seq<char>, job: JobView)
    ensures
        job_refusal(id, None) is Some,
        job_refusal(id, Some(job)) is None <==> job.status == JobStatus::Pending || job.status
            == JobStatus::Running || job.status == JobStatus::Cancelled,
{
}

/// A job stops where it or its batch was cancelled or asked to end, and goes on
/// otherwise.
pub proof fn law_jobs_stop_when_asked(job: JobView, batch: BatchView)
    ensures
        !stop_wanted(None, None),
        stop_wanted(Some(job), None) <==> job.cancel_requested || job.status == JobStatus::Cancelled,
        stop_wanted(None, Some(batch)) <==> batch.cancel_requested || batch.status
            == BatchStatus::Cancelled,
        stop_wanted(Some(job), Some(batch)) <==> job.cancel_requested || job.status
            == JobStatus::Cancelled || batch.cancel_requested || batch.status
            == BatchStatus::Cancelled,
{
}

/// A batch that has not ended is asked to end and taken to work, so that the
/// ends of its members can be noted. Every member that has ended is noted once;
/// one that goes on keeps the batch open.
pub proof fn law_cancelled_batches_wait_for_members(
    batch: BatchView,
    state: CancelBatchView,
    job: JobView,
)
    ensures
        batch.status == BatchStatus::Done || batch.status == BatchStatus::Failed || batch.status
            == BatchStatus::Cancelled ==> awake(asked(batch)) == batch,
        batch.status == BatchStatus::Pending || batch.status == BatchStatus::Running || batch.status
            == BatchStatus::Paused ==> {
            let open = awake(asked(batch));
            &&& open.status == BatchStatus::Running && open.cancel_requested
            &&& open.ended == batch.ended && open.jobs == batch.jobs
            &&& batch.status == BatchStatus::Paused ==> !open.pause_requested
        },
        job.status == JobStatus::Running ==> !state.after(job).all_ended && state.after(job).ended
            == state.ended,
        job.status == JobStatus::Pending && !state.batch.has_record(job.id@) ==> state.after(job)
            == (CancelBatchView {
            ended: state.ended.push((job.id@, JobTerminalStatus::Cancelled)),
            ..state
        }),
        job.status == JobStatus::Failed && !state.batch.has_record(job.id@) ==> state.after(job)
            == (CancelBatchView {
            ended: state.ended.push((job.id@, JobTerminalStatus::Failed)),
            ..state
        }),
        job.status == JobStatus::Done && !state.batch.has_record(job.id@) ==> state.after(job)
            == (CancelBatchView {
            ended: state.ended.push((job.id@, JobTerminalStatus::Done)),
            ..state
        }),
        job.status != JobStatus::Running && state.batch.has_record(job.id@) ==> state.after(job)
            == state,
{
}

/// When no member goes on and the end of each is noted, the batch is cancelled.
pub proof fn law_batches_without_open_members_are_cancelled(state: CancelBatchView)
    requires
        state.all_ended,
        state.ended.len() == 0,
        state.batch.status == BatchStatus::Running,
        state.batch.ended.len() == state.batch.jobs.len(),
    ensures
        state.ending() == Ok::<(BatchView, bool), DomainErrorView>(
            (
                BatchView {
                    status: BatchStatus::Cancelled,
                    cancel_requested: true,
                    terminal_event_emitted: true,
                    ..state.batch
                },
                true,
            ),
        ),
{
}

/// The ends of all members are noted in their order before the batch is ended.
pub proof fn law_records_are_added_in_order(
    batch: BatchView,
    ended: Seq<(Seq<char>, JobTerminalStatus)>,
    id: Seq<char>,
    how: JobTerminalStatus,
)
    ensures
        with_records(batch, seq![]) == Ok::<BatchView, DomainErrorView>(batch),
        with_records(batch, ended) matches Ok(before) ==> with_records(batch, ended.push((id, how)))
            == before.recorded(id, how),
        with_records(batch, ended) is Err ==> with_records(batch, ended.push((id, how))) is Err,
        cancel_payload(id) == object(seq![member("aggregate_id"@, json_quoted(id))]),
{
    assert(ended.push((id, how)).drop_last() =~= ended);
}

/// A refused request to cancel tells why.
pub proof fn law_refused_cancellations_tell_why(id: Seq<char>, job: JobView)
    ensures
        job_refusal(id, None) == Some(ApplicationErrorView::Invalid("Job "@ + id + " not found"@)),
        job.status == JobStatus::Done ==> job_refusal(id, Some(job)) == Some(
            ApplicationErrorView::Invalid("Job "@ + id + (" is already "@ + "Done"@)),
        ),
        job.status == JobStatus::Failed ==> job_refusal(id, Some(job)) == Some(
            ApplicationErrorView::Invalid("Job "@ + id + (" is already "@ + "Failed"@)),
        ),
{
}

} // verus!
