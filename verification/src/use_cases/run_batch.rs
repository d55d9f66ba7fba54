//! A batch on its way through its jobs: in order, one at a time, with a look at
//! the stored batch between any two of them.
use vstd::prelude::*;
use vstd::string::*;

use crate::contracts::{
    AppResult, ApplicationError, ApplicationErrorView, ErrorCode, VcError, VcErrorView,
};
use crate::error::DomainErrorView;
use crate::identity::JobId;
use crate::workflow::batch::{
    id_texts, record_position, Batch, BatchExecutionProfile, BatchStatus, BatchView,
};
use crate::workflow::event::{ended_as, terminal_status, DomainEvent, JobTerminalStatus};
use crate::workflow::job::{Job, JobView};
use crate::workflow::lifecycle::law_ends_are_noted;
use crate::workflow::stage::JobStatus;

use super::transcribe_job::command::TranscribeJobCommand;

verus! {

/// The job of a command, and the batch that it belongs to.
pub open spec fn member_of(command: TranscribeJobCommand) -> (Seq<char>, Option<Seq<char>>) {
    (
        command.job_id@,
        match command.batch_id {
            Some(id) => Some(id@),
            None => None,
        },
    )
}

pub open spec fn members_of(commands: Seq<TranscribeJobCommand>) -> Seq<
    (Seq<char>, Option<Seq<char>>),
> {
    Seq::new(commands.len(), |i: int| member_of(commands[i]))
}

pub open spec fn out_of_order() -> Seq<char> {
    "Batch jobs must be supplied in FIFO aggregate order"@
}

pub open spec fn foreign() -> Seq<char> {
    "Job command does not belong to the Batch"@
}

pub open spec fn outsider() -> Seq<char> {
    "retry subset contains a Job outside Batch membership order"@
}

pub open spec fn unfinished(id: Seq<char>) -> Seq<char> {
    "unselected Batch Job "@ + id + " must already be terminal before a subset retry"@
}

/// What is wrong, from the command number `i` on, with commands for all members.
pub open spec fn full_refusal(
    batch: BatchView,
    members: Seq<(Seq<char>, Option<Seq<char>>)>,
    i: int,
) -> Option<Seq<char>>
    decreases members.len() - i,
{
    if i < 0 || i >= members.len() {
        None
    } else if batch.jobs[i] != members[i].0 {
        Some(out_of_order())
    } else if members[i].1 != Some(batch.id@) {
        Some(foreign())
    } else {
        full_refusal(batch, members, i + 1)
    }
}

/// The first member from `m` on that has not ended.
pub open spec fn rest_refusal(batch: BatchView, m: int) -> Option<Seq<char>>
    decreases batch.jobs.len() - m,
{
    if m < 0 || m >= batch.jobs.len() {
        None
    } else if !batch.has_record(batch.jobs[m]) {
        Some(unfinished(batch.jobs[m]))
    } else {
        rest_refusal(batch, m + 1)
    }
}

/// What is wrong with commands for some members, from the command number `i`
/// and the member number `m` on: the members that are left out must have ended.
pub open spec fn subset_refusal(
    batch: BatchView,
    members: Seq<(Seq<char>, Option<Seq<char>>)>,
    i: int,
    m: int,
) -> Option<Seq<char>>
    decreases members.len() - i, batch.jobs.len() - m,
{
    if i < 0 || i >= members.len() {
        rest_refusal(batch, m)
    } else if members[i].1 != Some(batch.id@) {
        Some(foreign())
    } else if m < 0 || m >= batch.jobs.len() {
        Some(outsider())
    } else if batch.jobs[m] == members[i].0 {
        subset_refusal(batch, members, i + 1, m + 1)
    } else if !batch.has_record(batch.jobs[m]) {
        Some(unfinished(batch.jobs[m]))
    } else {
        subset_refusal(batch, members, i, m + 1)
    }
}

/// What is wrong with the commands of a batch, if anything.
pub open spec fn commands_refusal(
    batch: BatchView,
    members: Seq<(Seq<char>, Option<Seq<char>>)>,
) -> Option<Seq<char>> {
    if members.len() == 0 {
        Some("Batch execution requires at least one Job command"@)
    } else if members.len() == batch.jobs.len() {
        full_refusal(batch, members, 0)
    } else {
        subset_refusal(batch, members, 0, 0)
    }
}

fn belongs(command: &TranscribeJobCommand, batch: &Batch) -> (answer: bool)
    ensures
        answer == (member_of(*command).1 == Some(batch@.id@)),
{
    match &command.batch_id {
        Some(id) => id.same(batch.id()),
        None => false,
    }
}

fn unfinished_error(id: &JobId) -> (error: ApplicationError)
    ensures
        error@ == ApplicationErrorView::Invalid(unfinished(id@)),
{
    let mut text = "unselected Batch Job ".to_owned();
    text.append(id.as_str());
    text.append(" must already be terminal before a subset retry");
    assert(text@ =~= unfinished(id@));
    ApplicationError::invalid(text.as_str())
}

/// `result` says what is wrong with the commands, if anything.
pub open spec fn judged(result: AppResult<()>, refusal: Option<Seq<char>>) -> bool {
    match result {
        Ok(_) => refusal is None,
        Err(error) => refusal matches Some(text) && error@ == ApplicationErrorView::Invalid(text),
    }
}

fn validate_all(batch: &Batch, commands: &Vec<TranscribeJobCommand>) -> (result: AppResult<()>)
    requires
        commands@.len() == batch@.jobs.len(),
    ensures
        judged(result, full_refusal(batch@, members_of(commands@), 0)),
{
    let ids = batch.job_ids();
    let ghost members = members_of(commands@);
    let mut i: usize = 0;
    while i < commands.len()
        invariant
            i <= commands.len(),
            commands@.len() == batch@.jobs.len(),
            id_texts(ids@) == batch@.jobs,
            members == members_of(commands@),
            full_refusal(batch@, members, 0) == full_refusal(batch@, members, i as int),
        decreases commands.len() - i,
    {
        assert(batch@.jobs[i as int] == ids@[i as int]@);
        assert(members[i as int] == member_of(commands@[i as int]));
        if !ids[i].same(&commands[i].job_id) {
            return Err(
                ApplicationError::invalid("Batch jobs must be supplied in FIFO aggregate order"),
            );
        }
        if !belongs(&commands[i], batch) {
            return Err(ApplicationError::invalid("Job command does not belong to the Batch"));
        }
        i += 1;
    }
    Ok(())
}

fn validate_subset(batch: &Batch, commands: &Vec<TranscribeJobCommand>) -> (result: AppResult<()>)
    ensures
        judged(result, subset_refusal(batch@, members_of(commands@), 0, 0)),
{
    let ids = batch.job_ids();
    let ghost members = members_of(commands@);
    let mut i: usize = 0;
    let mut m: usize = 0;
    while i < commands.len()
        invariant
            i <= commands.len(),
            m <= ids@.len(),
            id_texts(ids@) == batch@.jobs,
            members == members_of(commands@),
            subset_refusal(batch@, members, 0, 0) == subset_refusal(
                batch@,
                members,
                i as int,
                m as int,
            ),
        decreases commands.len() - i, ids@.len() - m,
    {
        assert(members[i as int] == member_of(commands@[i as int]));
        if !belongs(&commands[i], batch) {
            return Err(ApplicationError::invalid("Job command does not belong to the Batch"));
        }
        if m >= ids.len() {
            return Err(
                ApplicationError::invalid(
                    "retry subset contains a Job outside Batch membership order",
                ),
            );
        }
        assert(batch@.jobs[m as int] == ids@[m as int]@);
        if ids[m].same(&commands[i].job_id) {
            i += 1;
        } else if !batch.has_terminal_record(&ids[m]) {
            return Err(unfinished_error(&ids[m]));
        }
        m += 1;
    }
    while m < ids.len()
        invariant
            m <= ids@.len(),
            id_texts(ids@) == batch@.jobs,
            members == members_of(commands@),
            subset_refusal(batch@, members, 0, 0) == rest_refusal(batch@, m as int),
        decreases ids@.len() - m,
    {
        assert(batch@.jobs[m as int] == ids@[m as int]@);
        if !batch.has_terminal_record(&ids[m]) {
            return Err(unfinished_error(&ids[m]));
        }
        m += 1;
    }
    Ok(())
}

/// Check the commands of a batch: those of all members in their order, or those
/// of some members while all others have ended.
pub fn validate_commands(batch: &Batch, commands: &Vec<TranscribeJobCommand>) -> (result: AppResult<
    (),
>)
    ensures
        judged(result, commands_refusal(batch@, members_of(commands@))),
{
    if commands.len() == 0 {
        return Err(
            ApplicationError::invalid("Batch execution requires at least one Job command"),
        );
    }
    let ids = batch.job_ids();
    assert(batch@.jobs.len() == ids@.len());
    if commands.len() == ids.len() {
        validate_all(batch, commands)
    } else {
        validate_subset(batch, commands)
    }
}

/// A sentence on a batch.
pub open spec fn about_batch(id: Seq<char>, what: Seq<char>) -> ApplicationErrorView {
    ApplicationErrorView::Invalid("Batch "@ + id + what)
}

pub(crate) fn batch_error(id: &str, what: &str) -> (error: ApplicationError)
    ensures
        error@ == about_batch(id@, what@),
{
    let mut text = "Batch ".to_owned();
    text.append(id);
    text.append(what);
    ApplicationError::invalid(text.as_str())
}

/// A sentence on a job.
pub open spec fn about_job(id: Seq<char>, what: Seq<char>) -> ApplicationErrorView {
    ApplicationErrorView::Invalid("Job "@ + id + what)
}

pub(crate) fn job_error(id: &str, what: &str) -> (error: ApplicationError)
    ensures
        error@ == about_job(id@, what@),
{
    let mut text = "Job ".to_owned();
    text.append(id);
    text.append(what);
    ApplicationError::invalid(text.as_str())
}

/// Why a batch is not run as it was asked for, if so.
pub open spec fn identity_refusal(
    requested: BatchView,
    stored: Option<BatchView>,
    profile: BatchExecutionProfile,
) -> Option<ApplicationErrorView> {
    match stored {
        None => Some(about_batch(requested.id@, " must be persisted before execution"@)),
        Some(stored) => if !stored.agrees(requested) {
            Some(about_batch(requested.id@, " does not match its persisted identity"@))
        } else if !stored.profile.same_as(profile) {
            Some(ApplicationErrorView::Domain(DomainErrorView::BatchProfileMismatch))
        } else {
            None
        },
    }
}

pub open spec fn batch_view(batch: Option<Batch>) -> Option<BatchView> {
    match batch {
        Some(batch) => Some(batch@),
        None => None,
    }
}

/// The stored batch, if it is the one that is asked for.
pub fn match_batch(requested: &Batch, stored: Option<Batch>, profile: &BatchExecutionProfile) -> (result:
    AppResult<Batch>)
    ensures
        match result {
            Ok(batch) => identity_refusal(requested@, batch_view(stored), *profile) is None
                && stored == Some(batch),
            Err(error) => identity_refusal(requested@, batch_view(stored), *profile) == Some(
                error@,
            ),
        },
{
    let batch = match stored {
        Some(batch) => batch,
        None => {
            return Err(
                batch_error(requested.id().as_str(), " must be persisted before execution"),
            );
        },
    };
    if !batch.same(requested) {
        return Err(batch_error(requested.id().as_str(), " does not match its persisted identity"));
    }
    match batch.require_profile(profile) {
        Ok(_) => Ok(batch),
        Err(error) => Err(ApplicationError::Domain(error)),
    }
}

/// The error of a member that is not stored.
pub fn missing_member(id: &JobId) -> (error: ApplicationError)
    ensures
        error@ == about_job(id@, " must be persisted before Batch execution"@),
{
    job_error(id.as_str(), " must be persisted before Batch execution")
}

/// A batch that is about to run.
pub open spec fn begun(batch: BatchView) -> Result<BatchView, ApplicationErrorView> {
    if batch.status == BatchStatus::Pending {
        Ok(BatchView { status: BatchStatus::Running, ..batch })
    } else if batch.status.terminal() {
        Err(about_batch(batch.id@, " is already "@ + batch.status.name_text()))
    } else {
        Ok(batch)
    }
}

/// Start a pending batch. Tells whether it has to be stored.
pub fn begin_batch(batch: &mut Batch) -> (result: AppResult<bool>)
    ensures
        match result {
            Ok(changed) => begun(old(batch)@) == Ok::<BatchView, ApplicationErrorView>(
                final(batch)@,
            ) && changed == (old(batch)@.status == BatchStatus::Pending),
            Err(error) => begun(old(batch)@) == Err::<BatchView, ApplicationErrorView>(error@)
                && final(batch)@ == old(batch)@,
        },
{
    if batch.status() == BatchStatus::Pending {
        match batch.start() {
            Ok(_) => Ok(true),
            Err(error) => Err(ApplicationError::Domain(error)),
        }
    } else if batch.status().is_terminal() {
        let mut what = " is already ".to_owned();
        what.append(batch.status().name());
        Err(batch_error(batch.id().as_str(), what.as_str()))
    } else {
        Ok(false)
    }
}

/// A job of a batch that could not be completed.
#[derive(Debug, PartialEq, Eq)]
pub struct RunBatchFailure {
    pub job_id: String,
    pub error: VcError,
}

/// A batch between two of its jobs.
#[derive(Debug)]
pub struct RunBatch {
    commands: usize,
    next: usize,
    failures: Vec<RunBatchFailure>,
}

/// The state of a run.
pub struct RunBatchView {
    /// How many commands there are.
    pub commands: int,
    /// The number of the command that comes next.
    pub next: int,
    pub failures: Seq<(Seq<char>, VcErrorView)>,
}

pub open spec fn failure_views(failures: Seq<RunBatchFailure>) -> Seq<(Seq<char>, VcErrorView)> {
    Seq::new(failures.len(), |i: int| (failures[i].job_id@, failures[i].error@))
}

impl View for RunBatch {
    type V = RunBatchView;

    closed spec fn view(&self) -> RunBatchView {
        RunBatchView {
            commands: self.commands as int,
            next: self.next as int,
            failures: failure_views(self.failures@),
        }
    }
}

/// What to do between two jobs.
#[derive(Debug, Clone, Copy, PartialEq, Eq, Structural)]
pub enum Boundary {
    /// All commands are done with.
    Finished,
    /// The batch has ended elsewhere; nothing is replayed.
    Stop,
    /// The batch was cancelled: end the jobs that are left.
    Cancel,
    /// The batch is paused. `mark` asks for the pause to take effect.
    Wait { mark: bool },
    /// Go on with the command of this number.
    Proceed(usize),
}

impl RunBatchView {
    pub open spec fn fresh(commands: int) -> RunBatchView {
        RunBatchView { commands, next: 0, failures: seq![] }
    }

    /// What to do next, given the batch as it is stored now.
    pub open spec fn boundary(self, batch: BatchView) -> Boundary {
        if self.next >= self.commands {
            Boundary::Finished
        } else if batch.status.terminal() {
            Boundary::Stop
        } else if batch.cancel_requested {
            Boundary::Cancel
        } else if batch.pause_requested || batch.status == BatchStatus::Paused {
            Boundary::Wait { mark: batch.status == BatchStatus::Running }
        } else {
            Boundary::Proceed(self.next as usize)
        }
    }

    /// The run behind the next command.
    pub open spec fn advanced(self) -> RunBatchView {
        RunBatchView { next: self.next + 1, ..self }
    }

    /// The run with a failure noted, unless the job was cancelled.
    pub open spec fn noted(self, job_id: Seq<char>, error: VcErrorView) -> RunBatchView {
        if error.code == ErrorCode::Cancelled {
            self
        } else {
            RunBatchView { failures: self.failures.push((job_id, error)), ..self }
        }
    }
}

/// The batch with a member recorded as ended, unless it has ended itself.
pub open spec fn after_member(batch: BatchView, id: Seq<char>, how: JobTerminalStatus) -> Result<
    BatchView,
    DomainErrorView,
> {
    if batch.status.terminal() {
        Ok(batch)
    } else {
        batch.recorded(id, how)
    }
}

/// The batch with a member recorded as ended, unless it is already.
pub open spec fn after_ended_member(
    batch: BatchView,
    id: Seq<char>,
    how: JobTerminalStatus,
) -> Result<BatchView, DomainErrorView> {
    if batch.has_record(id) {
        Ok(batch)
    } else {
        batch.recorded(id, how)
    }
}

/// An operation on a batch that also yields a value: the new state and the
/// value, or the error and no change.
pub open spec fn changes<S, T>(
    result: AppResult<T>,
    before: S,
    after: S,
    expected: Result<(S, T), ApplicationErrorView>,
) -> bool {
    match expected {
        Ok((state, value)) => result matches Ok(v) && v == value && after == state,
        Err(error) => result matches Err(e) && e@ == error && after == before,
    }
}

/// A domain error as an application error, and a value beside a state.
pub open spec fn lifted<S, T>(result: Result<S, DomainErrorView>, value: T) -> Result<
    (S, T),
    ApplicationErrorView,
> {
    match result {
        Ok(state) => Ok((state, value)),
        Err(error) => Err(ApplicationErrorView::Domain(error)),
    }
}

/// Record that a member has ended, unless the batch has. Tells whether the
/// batch has to be stored.
fn record_member(batch: &mut Batch, id: &JobId, how: JobTerminalStatus) -> (result: AppResult<bool>)
    ensures
        changes(
            result,
            old(batch)@,
            final(batch)@,
            lifted(after_member(old(batch)@, id@, how), !old(batch)@.status.terminal()),
        ),
{
    if batch.status().is_terminal() {
        return Ok(false);
    }
    match batch.record_job_terminal(id, how) {
        Ok(_) => Ok(true),
        Err(error) => Err(ApplicationError::Domain(error)),
    }
}

impl RunBatch {
    /// A run of so many commands.
    pub fn new(commands: usize) -> (run: Self)
        ensures
            run@ == RunBatchView::fresh(commands as int),
    {
        let run = RunBatch { commands, next: 0, failures: Vec::new() };
        assert(run@.failures =~= seq![]);
        run
    }

    /// What to do next, given the batch as it is stored now.
    pub fn boundary(&self, batch: &Batch) -> (next: Boundary)
        ensures
            next == self@.boundary(batch@),
    {
        if self.next >= self.commands {
            Boundary::Finished
        } else if batch.status().is_terminal() {
            Boundary::Stop
        } else if batch.cancel_requested() {
            Boundary::Cancel
        } else if batch.pause_requested() || batch.status() == BatchStatus::Paused {
            Boundary::Wait { mark: batch.status() == BatchStatus::Running }
        } else {
            Boundary::Proceed(self.next)
        }
    }

    /// Pass over a job that has ended before. Tells whether the batch has to be
    /// stored; `None` where the job is still to be run.
    pub fn pass_over(&mut self, batch: &mut Batch, job: &Job) -> (result: AppResult<Option<bool>>)
        requires
            old(self)@.next < old(self)@.commands,
        ensures
            if !job@.status.terminal() {
                result == Ok::<Option<bool>, ApplicationError>(None) && final(self)@ == old(self)@
                    && final(batch)@ == old(batch)@
            } else {
                &&& changes(
                    result,
                    old(batch)@,
                    final(batch)@,
                    lifted(
                        after_ended_member(old(batch)@, job@.id@, ended_as(job@.status)),
                        Some(!old(batch)@.has_record(job@.id@)),
                    ),
                )
                &&& final(self)@ == (if result is Ok {
                    old(self)@.advanced()
                } else {
                    old(self)@
                })
            },
    {
        if !job.status().is_terminal() {
            return Ok(None);
        }
        let mut changed = false;
        if !batch.has_terminal_record(job.id()) {
            match batch.record_job_terminal(job.id(), terminal_status(job.status())) {
                Ok(_) => {
                    changed = true;
                },
                Err(error) => {
                    return Err(ApplicationError::Domain(error));
                },
            }
        }
        self.next = self.next + 1;
        Ok(Some(changed))
    }

    /// Take note of a job that has run to its end. Tells whether the batch has
    /// to be stored.
    pub fn succeeded(&mut self, batch: &mut Batch, job_id: &JobId, status: JobStatus) -> (result:
        AppResult<bool>)
        requires
            old(self)@.next < old(self)@.commands,
        ensures
            changes(
                result,
                old(batch)@,
                final(batch)@,
                lifted(
                    after_member(old(batch)@, job_id@, ended_as(status)),
                    !old(batch)@.status.terminal(),
                ),
            ),
            final(self)@ == (if result is Ok {
                old(self)@.advanced()
            } else {
                old(self)@
            }),
    {
        match record_member(batch, job_id, terminal_status(status)) {
            Ok(changed) => {
                self.next = self.next + 1;
                Ok(changed)
            },
            Err(error) => Err(error),
        }
    }

    /// Take note of a job that could not be completed. Later jobs run all the
    /// same. Tells whether the batch has to be stored.
    pub fn failed(
        &mut self,
        batch: &mut Batch,
        job_id: &JobId,
        error: VcError,
        stored: Option<JobStatus>,
    ) -> (result: AppResult<bool>)
        requires
            old(self)@.next < old(self)@.commands,
        ensures
            changes(
                result,
                old(batch)@,
                final(batch)@,
                lifted(
                    after_member(
                        old(batch)@,
                        job_id@,
                        match stored {
                            Some(status) => ended_as(status),
                            None => JobTerminalStatus::Failed,
                        },
                    ),
                    !old(batch)@.status.terminal(),
                ),
            ),
            final(self)@ == (if result is Ok {
                old(self)@.noted(job_id@, error@).advanced()
            } else {
                old(self)@.noted(job_id@, error@)
            }),
    {
        let how = match stored {
            Some(status) => terminal_status(status),
            None => JobTerminalStatus::Failed,
        };
        if error.code != ErrorCode::Cancelled {
            let ghost before = self.failures@;
            let failure = RunBatchFailure { job_id: job_id.as_str().to_owned(), error };
            self.failures.push(failure);
            assert(failure_views(self.failures@) =~= failure_views(before).push(
                (job_id@, failure.error@),
            ));
        }
        match record_member(batch, job_id, how) {
            Ok(changed) => {
                self.next = self.next + 1;
                Ok(changed)
            },
            Err(error) => Err(error),
        }
    }

    /// The failures, in the order in which they came.
    pub fn finish(self) -> (failures: Vec<RunBatchFailure>)
        ensures
            failure_views(failures@) == self@.failures,
    {
        self.failures
    }
}

/// A job that has not ended, cancelled.
pub open spec fn cancelled_member(job: JobView) -> Result<JobView, DomainErrorView> {
    if job.status.terminal() {
        Ok(job)
    } else {
        job.cancelled()
    }
}

/// End a job of a batch that was cancelled, and record it. Tells whether the
/// job has to be stored.
pub fn cancel_member(batch: &mut Batch, job: &mut Job) -> (result: AppResult<bool>)
    ensures
        match result {
            Ok(changed) => {
                &&& cancelled_member(old(job)@) == Ok::<JobView, DomainErrorView>(final(job)@)
                &&& changed == !old(job)@.status.terminal()
                &&& after_ended_member(
                    old(batch)@,
                    old(job)@.id@,
                    ended_as(final(job)@.status),
                ) == Ok::<BatchView, DomainErrorView>(final(batch)@)
            },
            Err(error) => {
                &&& cancelled_member(old(job)@) == Ok::<JobView, DomainErrorView>(final(job)@)
                &&& final(batch)@ == old(batch)@
                &&& after_ended_member(
                    old(batch)@,
                    old(job)@.id@,
                    ended_as(final(job)@.status),
                ) matches Err(e) && error@ == ApplicationErrorView::Domain(e)
            },
        },
{
    let mut changed = false;
    if !job.status().is_terminal() {
        match job.cancel() {
            Ok(_) => {
                changed = true;
            },
            Err(error) => {
                return Err(ApplicationError::Domain(error));
            },
        }
    }
    if !batch.has_terminal_record(job.id()) {
        match batch.record_job_terminal(job.id(), terminal_status(job.status())) {
            Ok(_) => {},
            Err(error) => {
                return Err(ApplicationError::Domain(error));
            },
        }
    }
    Ok(changed)
}

/// All members have ended.
pub open spec fn all_recorded(batch: BatchView) -> bool {
    forall|i: int| 0 <= i < batch.jobs.len() ==> batch.has_record(#[trigger] batch.jobs[i])
}

pub fn is_all_recorded(batch: &Batch) -> (answer: bool)
    ensures
        answer == all_recorded(batch@),
{
    let ids = batch.job_ids();
    let mut i: usize = 0;
    assert(ids@.len() == batch@.jobs.len());
    while i < ids.len()
        invariant
            i <= ids@.len(),
            id_texts(ids@) == batch@.jobs,
            forall|k: int| 0 <= k < i ==> batch@.has_record(#[trigger] batch@.jobs[k]),
        decreases ids@.len() - i,
    {
        assert(batch@.jobs[i as int] == ids@[i as int]@);
        if !batch.has_terminal_record(&ids[i]) {
            return false;
        }
        i += 1;
    }
    assert(ids@.len() == batch@.jobs.len());
    true
}

/// A member has failed.
pub open spec fn some_member_failed(batch: BatchView, jobs: Seq<Job>) -> bool {
    exists|i: int|
        0 <= i < jobs.len() && (#[trigger] jobs[i])@.status == JobStatus::Failed
            && batch.jobs.contains(jobs[i]@.id@)
}

/// Whether a member has failed, given jobs of this batch and of others.
pub fn has_failed_member(batch: &Batch, jobs: &Vec<Job>) -> (answer: bool)
    ensures
        answer == some_member_failed(batch@, jobs@),
{
    let ids = batch.job_ids();
    assert(ids@.len() == batch@.jobs.len());
    let mut i: usize = 0;
    while i < jobs.len()
        invariant
            i <= jobs@.len(),
            id_texts(ids@) == batch@.jobs,
            ids@.len() == batch@.jobs.len(),
            forall|k: int|
                0 <= k < i ==> !((#[trigger] jobs@[k])@.status == JobStatus::Failed
                    && batch@.jobs.contains(jobs@[k]@.id@)),
        decreases jobs@.len() - i,
    {
        if jobs[i].status() == JobStatus::Failed {
            let mut k: usize = 0;
            while k < ids.len()
                invariant
                    i < jobs@.len(),
                    k <= ids@.len(),
                    id_texts(ids@) == batch@.jobs,
                    ids@.len() == batch@.jobs.len(),
                    jobs@[i as int]@.status == JobStatus::Failed,
                    forall|m: int| 0 <= m < k ==> #[trigger] batch@.jobs[m] != jobs@[i as int]@.id@,
                decreases ids@.len() - k,
            {
                assert(batch@.jobs[k as int] == ids@[k as int]@);
                if ids[k].same(jobs[i].id()) {
                    assert(batch@.jobs.contains(jobs@[i as int]@.id@));
                    return true;
                }
                k += 1;
            }
        }
        i += 1;
    }
    false
}

/// How a batch ends.
pub open spec fn final_status(batch: BatchView, any_failed: bool) -> BatchStatus {
    if batch.cancel_requested {
        BatchStatus::Cancelled
    } else if !any_failed {
        BatchStatus::Done
    } else {
        BatchStatus::Failed
    }
}

/// A batch that does not wait any more.
pub open spec fn awake(batch: BatchView) -> BatchView {
    if batch.status == BatchStatus::Paused {
        BatchView { status: BatchStatus::Running, pause_requested: false, ..batch }
    } else {
        batch
    }
}

/// The batch at the end of a run: it stays open while members have not ended,
/// and it ends once.
pub open spec fn concluded(batch: BatchView, any_failed: bool) -> Result<
    (BatchView, Option<DomainEvent>),
    ApplicationErrorView,
> {
    if !all_recorded(batch) || batch.status.terminal() {
        Ok((batch, None))
    } else {
        match awake(batch).finished(final_status(batch, any_failed)) {
            Ok((ended, event)) => Ok((ended, Some(event))),
            Err(error) => Err(ApplicationErrorView::Domain(error)),
        }
    }
}

/// End a batch whose members have ended. Gives the event to publish; without
/// one the batch stays as it is.
pub fn conclude(batch: &mut Batch, any_failed: bool) -> (result: AppResult<Option<DomainEvent>>)
    ensures
        match result {
            Ok(event) => concluded(old(batch)@, any_failed) == Ok::<
                (BatchView, Option<DomainEvent>),
                ApplicationErrorView,
            >((final(batch)@, event)),
            Err(error) => concluded(old(batch)@, any_failed) == Err::<
                (BatchView, Option<DomainEvent>),
                ApplicationErrorView,
            >(error@) && final(batch)@ == awake(old(batch)@),
        },
{
    if !is_all_recorded(batch) || batch.status().is_terminal() {
        return Ok(None);
    }
    if batch.status() == BatchStatus::Paused {
        match batch.resume() {
            Ok(_) => {},
            Err(error) => {
                return Err(ApplicationError::Domain(error));
            },
        }
    }
    let status = if batch.cancel_requested() {
        BatchStatus::Cancelled
    } else if !any_failed {
        BatchStatus::Done
    } else {
        BatchStatus::Failed
    };
    match batch.finish(status) {
        Ok(event) => Ok(Some(event)),
        Err(error) => Err(ApplicationError::Domain(error)),
    }
}

/// A batch without a recognizer, before its jobs are ended.
pub open spec fn opened(batch: BatchView) -> BatchView {
    if batch.status == BatchStatus::Pending {
        BatchView { status: BatchStatus::Running, ..batch }
    } else if batch.status == BatchStatus::Paused {
        BatchView { status: BatchStatus::Running, pause_requested: false, ..batch }
    } else {
        batch
    }
}

/// Prepare a batch whose recognizer cannot be opened, so that its jobs can be
/// ended.
pub fn open_batch(batch: &mut Batch)
    ensures
        final(batch)@ == opened(old(batch)@),
{
    if batch.status() == BatchStatus::Pending {
        let started = batch.start();
        assert(started is Ok);
    } else if batch.status() == BatchStatus::Paused {
        let resumed = batch.resume();
        assert(resumed is Ok);
    }
}

/// End a job whose batch has no recognizer. Tells whether the job has to be
/// stored.
pub fn fail_member(batch: &mut Batch, job: &mut Job) -> (result: AppResult<bool>)
    ensures
        match result {
            Ok(changed) => if old(job)@.status.terminal() {
                !changed && final(job)@ == old(job)@ && final(batch)@ == old(batch)@
            } else {
                &&& changed
                &&& old(job)@.failed() == Ok::<JobView, DomainErrorView>(final(job)@)
                &&& old(batch)@.recorded(old(job)@.id@, JobTerminalStatus::Failed) == Ok::<
                    BatchView,
                    DomainErrorView,
                >(final(batch)@)
            },
            Err(error) => {
                &&& !old(job)@.status.terminal()
                &&& old(job)@.failed() == Ok::<JobView, DomainErrorView>(final(job)@)
                &&& final(batch)@ == old(batch)@
                &&& old(batch)@.recorded(
                    old(job)@.id@,
                    JobTerminalStatus::Failed,
                ) matches Err(e) && error@ == ApplicationErrorView::Domain(e)
            },
        },
{
    if job.status().is_terminal() {
        return Ok(false);
    }
    match job.fail() {
        Ok(_) => {},
        Err(error) => {
            return Err(ApplicationError::Domain(error));
        },
    }
    match batch.record_job_terminal(job.id(), JobTerminalStatus::Failed) {
        Ok(_) => Ok(true),
        Err(error) => Err(ApplicationError::Domain(error)),
    }
}

/// The batch after its jobs have been ended for want of a recognizer.
pub open spec fn given_up_batch(batch: BatchView) -> Result<BatchView, DomainErrorView> {
    if all_recorded(batch) {
        match batch.finished(BatchStatus::Failed) {
            Ok((ended, _)) => Ok(ended),
            Err(error) => Err(error),
        }
    } else {
        Ok(batch)
    }
}

/// End a batch whose recognizer could not be opened, once its jobs have ended.
pub fn give_up_batch(batch: &mut Batch) -> (result: AppResult<()>)
    ensures
        match given_up_batch(old(batch)@) {
            Ok(after) => result is Ok && final(batch)@ == after,
            Err(e) => result matches Err(error) && error@ == ApplicationErrorView::Domain(e)
                && final(batch)@ == old(batch)@,
        },
{
    if is_all_recorded(batch) {
        match batch.finish(BatchStatus::Failed) {
            Ok(_) => {},
            Err(error) => {
                return Err(ApplicationError::Domain(error));
            },
        }
    }
    Ok(())
}

proof fn lemma_full_order(
    batch: BatchView,
    members: Seq<(Seq<char>, Option<Seq<char>>)>,
    i: int,
    k: int,
)
    requires
        0 <= i <= k < members.len(),
        full_refusal(batch, members, i) is None,
    ensures
        batch.jobs[k] == members[k].0,
        members[k].1 == Some(batch.id@),
    decreases k - i,
{
    if i < k {
        lemma_full_order(batch, members, i + 1, k);
    }
}

/// Accepted commands for all members stand in the order of the members, and
/// all of them belong to the batch.
pub proof fn law_full_runs_follow_the_batch(
    batch: BatchView,
    members: Seq<(Seq<char>, Option<Seq<char>>)>,
    k: int,
)
    requires
        members.len() == batch.jobs.len(),
        commands_refusal(batch, members) is None,
        0 <= k < members.len(),
    ensures
        members[k].0 == batch.jobs[k],
        members[k].1 == Some(batch.id@),
{
    lemma_full_order(batch, members, 0, k);
}

proof fn lemma_rest_recorded(batch: BatchView, m: int, k: int)
    requires
        0 <= m <= k < batch.jobs.len(),
        rest_refusal(batch, m) is None,
    ensures
        batch.has_record(batch.jobs[k]),
    decreases k - m,
{
    if m < k {
        lemma_rest_recorded(batch, m + 1, k);
    }
}

proof fn lemma_subset_recorded(
    batch: BatchView,
    members: Seq<(Seq<char>, Option<Seq<char>>)>,
    i: int,
    m: int,
    k: int,
)
    requires
        0 <= i <= members.len(),
        0 <= m <= k < batch.jobs.len(),
        subset_refusal(batch, members, i, m) is None,
        !batch.has_record(batch.jobs[k]),
    ensures
        exists|c: int| i <= c < members.len() && (#[trigger] members[c]).0 == batch.jobs[k],
    decreases members.len() - i, batch.jobs.len() - m,
{
    if i >= members.len() {
        lemma_rest_recorded(batch, m, k);
    } else if batch.jobs[m] == members[i].0 {
        if m < k {
            lemma_subset_recorded(batch, members, i + 1, m + 1, k);
            let c = choose|c: int|
                i + 1 <= c < members.len() && (#[trigger] members[c]).0 == batch.jobs[k];
            assert(members[c].0 == batch.jobs[k]);
        } else {
            assert(members[i].0 == batch.jobs[k]);
        }
    } else if m < k {
        lemma_subset_recorded(batch, members, i, m + 1, k);
    }
}

/// Accepted commands for some members leave no member behind: each one that has
/// not ended is among them.
pub proof fn law_subset_runs_leave_nobody_behind(
    batch: BatchView,
    members: Seq<(Seq<char>, Option<Seq<char>>)>,
    k: int,
)
    requires
        members.len() != batch.jobs.len(),
        commands_refusal(batch, members) is None,
        0 <= k < batch.jobs.len(),
        !batch.has_record(batch.jobs[k]),
    ensures
        exists|c: int| 0 <= c < members.len() && (#[trigger] members[c]).0 == batch.jobs[k],
{
    lemma_subset_recorded(batch, members, 0, 0, k);
}

/// A batch that has ended is never run again: its commands are left alone, and
/// it gets no second event.
pub proof fn law_ended_batches_are_left_alone(
    run: RunBatchView,
    batch: BatchView,
    any_failed: bool,
    id: Seq<char>,
    how: JobTerminalStatus,
)
    requires
        batch.status.terminal(),
    ensures
        run.boundary(batch) is Finished || run.boundary(batch) is Stop,
        after_member(batch, id, how) == Ok::<BatchView, DomainErrorView>(batch),
        concluded(batch, any_failed) == Ok::<
            (BatchView, Option<DomainEvent>),
            ApplicationErrorView,
        >((batch, None)),
        begun(batch) is Err,
{
}

/// A request to cancel comes before one to pause, and both come before the
/// next job.
pub proof fn law_requests_come_before_jobs(run: RunBatchView, batch: BatchView)
    requires
        run.next < run.commands,
        !batch.status.terminal(),
    ensures
        batch.cancel_requested ==> run.boundary(batch) is Cancel,
        !batch.cancel_requested && batch.pause_requested ==> run.boundary(batch) is Wait,
        run.boundary(batch) is Proceed ==> !batch.cancel_requested && !batch.pause_requested,
{
}

/// A batch ends with one event, which tells how: as cancelled where that was
/// asked for, otherwise as done unless a job has failed.
pub proof fn law_runs_end_with_one_event(batch: BatchView, any_failed: bool)
    requires
        all_recorded(batch),
        batch.status == BatchStatus::Running || batch.status == BatchStatus::Paused,
        batch.ended.len() == batch.jobs.len(),
    ensures
        concluded(batch, any_failed) matches Ok((after, event)) && {
            &&& after.terminal_event_emitted
            &&& after.status == final_status(batch, any_failed)
            &&& event == Some(
                DomainEvent::BatchReachedTerminal { batch_id: batch.id, status: after.status },
            )
            &&& concluded(after, any_failed) == Ok::<
                (BatchView, Option<DomainEvent>),
                ApplicationErrorView,
            >((after, None))
        },
{
}

/// Between two jobs: nothing more to do behind the last; a batch that has ended
/// stops the run; a wish to cancel comes next, then a pause, which is marked
/// once; else the next job is run.
pub proof fn law_what_comes_between_two_jobs(run: RunBatchView, batch: BatchView)
    requires
        0 <= run.next <= usize::MAX,
    ensures
        run.next >= run.commands ==> run.boundary(batch) == Boundary::Finished,
        run.next < run.commands && (batch.status == BatchStatus::Done || batch.status
            == BatchStatus::Failed || batch.status == BatchStatus::Cancelled) ==> run.boundary(batch)
            == Boundary::Stop,
        run.next < run.commands && (batch.status == BatchStatus::Pending || batch.status
            == BatchStatus::Running || batch.status == BatchStatus::Paused) ==> {
            &&& batch.cancel_requested ==> run.boundary(batch) == Boundary::Cancel
            &&& !batch.cancel_requested && batch.status == BatchStatus::Paused ==> run.boundary(
                batch,
            ) == (Boundary::Wait { mark: false })
            &&& !batch.cancel_requested && batch.pause_requested && batch.status
                == BatchStatus::Running ==> run.boundary(batch) == (Boundary::Wait { mark: true })
            &&& !batch.cancel_requested && !batch.pause_requested && batch.status
                != BatchStatus::Paused ==> run.boundary(batch) == Boundary::Proceed(
                run.next as usize,
            )
        },
{
}

/// A batch that is at work is ended when the end of every member is noted: as
/// cancelled where that was asked for, else as failed where a job failed, else
/// as done. Before that it goes on as it is.
pub proof fn law_batches_end_as_their_jobs(batch: BatchView, any_failed: bool, open: int)
    requires
        batch.status == BatchStatus::Running || batch.status == BatchStatus::Paused,
    ensures
        0 <= open < batch.jobs.len() && (forall|k: int|
            0 <= k < batch.ended.len() ==> (#[trigger] batch.ended[k]).0 != batch.jobs[open])
            ==> concluded(batch, any_failed) == Ok::<
            (BatchView, Option<DomainEvent>),
            ApplicationErrorView,
        >((batch, None)),
        batch.ended.len() == batch.jobs.len() && (forall|i: int|
            0 <= i < batch.jobs.len() ==> (#[trigger] batch.ended[i]).0 == batch.jobs[i]) ==> {
            &&& concluded(batch, any_failed) matches Ok((after, event))
            &&& batch.cancel_requested ==> after.status == BatchStatus::Cancelled
            &&& !batch.cancel_requested && any_failed ==> after.status == BatchStatus::Failed
            &&& !batch.cancel_requested && !any_failed ==> after.status == BatchStatus::Done
            &&& event == Some(
                DomainEvent::BatchReachedTerminal { batch_id: batch.id, status: after.status },
            )
            &&& after.ended == batch.ended && after.jobs == batch.jobs
            &&& after.terminal_event_emitted
        },
{
    if 0 <= open < batch.jobs.len() && (forall|k: int|
        0 <= k < batch.ended.len() ==> (#[trigger] batch.ended[k]).0 != batch.jobs[open]) {
        lemma_no_record(batch.ended, batch.jobs[open], 0);
        assert(!batch.has_record(batch.jobs[open]));
    }
    if batch.ended.len() == batch.jobs.len() && (forall|i: int|
        0 <= i < batch.jobs.len() ==> (#[trigger] batch.ended[i]).0 == batch.jobs[i]) {
        assert forall|i: int| 0 <= i < batch.jobs.len() implies batch.has_record(
            #[trigger] batch.jobs[i],
        ) by {
            assert(batch.ended[i].0 == batch.jobs[i]);
            lemma_some_record(batch.ended, batch.jobs[i], i, 0);
        }
    }
}

proof fn lemma_no_record(ended: Seq<(Seq<char>, JobTerminalStatus)>, id: Seq<char>, from: int)
    requires
        0 <= from,
        forall|k: int| 0 <= k < ended.len() ==> (#[trigger] ended[k]).0 != id,
    ensures
        record_position(ended, id, from) is None,
    decreases ended.len() - from,
{
    if from < ended.len() {
        assert(ended[from].0 != id);
        lemma_no_record(ended, id, from + 1);
    }
}

proof fn lemma_some_record(
    ended: Seq<(Seq<char>, JobTerminalStatus)>,
    id: Seq<char>,
    k: int,
    from: int,
)
    requires
        0 <= from <= k < ended.len(),
        ended[k].0 == id,
    ensures
        record_position(ended, id, from) is Some,
    decreases k - from,
{
    if from < k && ended[from].0 != id {
        lemma_some_record(ended, id, k, from + 1);
    }
}

proof fn lemma_full_accepted(
    batch: BatchView,
    members: Seq<(Seq<char>, Option<Seq<char>>)>,
    i: int,
)
    requires
        0 <= i,
        members.len() == batch.jobs.len(),
        forall|k: int|
            0 <= k < members.len() ==> (#[trigger] members[k]).0 == batch.jobs[k] && members[k].1
                == Some(batch.id@),
    ensures
        full_refusal(batch, members, i) is None,
    decreases members.len() - i,
{
    if i < members.len() {
        assert(members[i].0 == batch.jobs[i]);
        lemma_full_accepted(batch, members, i + 1);
    }
}

proof fn lemma_subset_accepted(
    batch: BatchView,
    members: Seq<(Seq<char>, Option<Seq<char>>)>,
    at: Seq<int>,
    i: int,
    m: int,
)
    requires
        0 <= i <= members.len(),
        0 <= m <= batch.jobs.len(),
        at.len() == members.len(),
        forall|k: int|
            0 <= k < members.len() ==> (#[trigger] members[k]).1 == Some(batch.id@) && 0 <= at[k]
                < batch.jobs.len() && batch.jobs[at[k]] == members[k].0,
        forall|k: int, l: int|
            0 <= k < l < members.len() ==> #[trigger] at[k] < #[trigger] at[l],
        forall|j: int, l: int|
            0 <= j < l < batch.jobs.len() ==> #[trigger] batch.jobs[j] != #[trigger] batch.jobs[l],
        forall|j: int|
            0 <= j < batch.jobs.len() ==> batch.has_record(#[trigger] batch.jobs[j])
                || at.contains(j),
        i < members.len() ==> m <= at[i],
        forall|k: int| 0 <= k < i ==> #[trigger] at[k] < m,
    ensures
        subset_refusal(batch, members, i, m) is None,
    decreases members.len() - i, batch.jobs.len() - m,
{
    if i >= members.len() {
        lemma_rest_accepted(batch, at, m);
    } else {
        assert(members[i].1 == Some(batch.id@));
        assert(0 <= at[i] < batch.jobs.len());
        if m == at[i] {
            if i + 1 < members.len() {
                assert(at[i] < at[i + 1]);
            }
            lemma_subset_accepted(batch, members, at, i + 1, m + 1);
        } else {
            assert(batch.jobs[m] != batch.jobs[at[i]]);
            if at.contains(m) {
                let k = choose|k: int| 0 <= k < at.len() && at[k] == m;
                if i < k {
                    assert(at[i] < at[k]);
                }
            }
            assert(batch.has_record(batch.jobs[m]));
            lemma_subset_accepted(batch, members, at, i, m + 1);
        }
    }
}

proof fn lemma_rest_accepted(batch: BatchView, at: Seq<int>, m: int)
    requires
        0 <= m <= batch.jobs.len(),
        forall|j: int|
            0 <= j < batch.jobs.len() ==> batch.has_record(#[trigger] batch.jobs[j])
                || at.contains(j),
        forall|k: int| 0 <= k < at.len() ==> #[trigger] at[k] < m,
    ensures
        rest_refusal(batch, m) is None,
    decreases batch.jobs.len() - m,
{
    if m < batch.jobs.len() {
        if at.contains(m) {
            let k = choose|k: int| 0 <= k < at.len() && at[k] == m;
            assert(at[k] < m);
        }
        assert(batch.has_record(batch.jobs[m]));
        lemma_rest_accepted(batch, at, m + 1);
    }
}

/// Commands of the batch in the order of its members are accepted, for all of
/// them or for some where the others have ended.
pub proof fn law_commands_in_order_are_accepted(
    batch: BatchView,
    members: Seq<(Seq<char>, Option<Seq<char>>)>,
    at: Seq<int>,
)
    requires
        members.len() > 0,
        at.len() == members.len(),
        forall|k: int|
            0 <= k < members.len() ==> (#[trigger] members[k]).1 == Some(batch.id@) && 0 <= at[k]
                < batch.jobs.len() && batch.jobs[at[k]] == members[k].0,
        forall|k: int, l: int|
            0 <= k < l < members.len() ==> #[trigger] at[k] < #[trigger] at[l],
        forall|j: int, l: int|
            0 <= j < l < batch.jobs.len() ==> #[trigger] batch.jobs[j] != #[trigger] batch.jobs[l],
        forall|j: int|
            0 <= j < batch.jobs.len() ==> batch.has_record(#[trigger] batch.jobs[j])
                || at.contains(j),
        members.len() == batch.jobs.len() ==> forall|k: int|
            0 <= k < members.len() ==> #[trigger] at[k] == k,
    ensures
        commands_refusal(batch, members) is None,
{
    if members.len() == batch.jobs.len() {
        assert forall|k: int| 0 <= k < members.len() implies (#[trigger] members[k]).0
            == batch.jobs[k] && members[k].1 == Some(batch.id@) by {
            assert(at[k] == k);
        }
        lemma_full_accepted(batch, members, 0);
    } else {
        lemma_subset_accepted(batch, members, at, 0, 0);
    }
}

proof fn lemma_subset_members(
    batch: BatchView,
    members: Seq<(Seq<char>, Option<Seq<char>>)>,
    i: int,
    m: int,
    c: int,
)
    requires
        0 <= i <= c < members.len(),
        0 <= m,
        subset_refusal(batch, members, i, m) is None,
    ensures
        members[c].1 == Some(batch.id@),
        exists|j: int| m <= j < batch.jobs.len() && #[trigger] batch.jobs[j] == members[c].0,
    decreases members.len() - i, batch.jobs.len() - m,
{
    if batch.jobs[m] == members[i].0 {
        if i < c {
            lemma_subset_members(batch, members, i + 1, m + 1, c);
            let j = choose|j: int|
                m + 1 <= j < batch.jobs.len() && #[trigger] batch.jobs[j] == members[c].0;
            assert(batch.jobs[j] == members[c].0);
        }
    } else {
        lemma_subset_members(batch, members, i, m + 1, c);
        let j = choose|j: int|
            m + 1 <= j < batch.jobs.len() && #[trigger] batch.jobs[j] == members[c].0;
        assert(batch.jobs[j] == members[c].0);
    }
}

/// Every accepted command belongs to the batch and names one of its members.
/// Without commands there is no run.
pub proof fn law_commands_name_members(
    batch: BatchView,
    members: Seq<(Seq<char>, Option<Seq<char>>)>,
    c: int,
)
    requires
        commands_refusal(batch, members) is None,
    ensures
        members.len() > 0,
        0 <= c < members.len() ==> members[c].1 == Some(batch.id@) && batch.jobs.contains(
            members[c].0,
        ),
{
    if 0 <= c < members.len() {
        if members.len() == batch.jobs.len() {
            lemma_full_order(batch, members, 0, c);
            assert(batch.jobs[c] == members[c].0);
        } else {
            lemma_subset_members(batch, members, 0, 0, c);
        }
    }
}

/// A failed job is reported with its error, a cancelled one is not.
pub proof fn law_failures_are_reported(run: RunBatchView, id: Seq<char>, error: VcErrorView)
    ensures
        error.code == ErrorCode::Cancelled ==> run.noted(id, error).failures == run.failures,
        error.code != ErrorCode::Cancelled ==> run.noted(id, error).failures == run.failures.push(
            (id, error),
        ),
        run.noted(id, error).next == run.next && run.noted(id, error).commands == run.commands,
        run.advanced().next == run.next + 1 && run.advanced().failures == run.failures
            && run.advanced().commands == run.commands,
{
}

/// A waiting batch is begun, one at work goes on, and one that has ended is
/// refused. A batch is opened for a failure where it waits or is paused.
pub proof fn law_batches_are_begun(batch: BatchView)
    ensures
        batch.status == BatchStatus::Pending ==> begun(batch) == Ok::<
            BatchView,
            ApplicationErrorView,
        >(BatchView { status: BatchStatus::Running, ..batch }),
        batch.status == BatchStatus::Running || batch.status == BatchStatus::Paused ==> begun(batch)
            == Ok::<BatchView, ApplicationErrorView>(batch),
        batch.status == BatchStatus::Done || batch.status == BatchStatus::Failed || batch.status
            == BatchStatus::Cancelled ==> begun(batch) is Err,
        batch.status == BatchStatus::Pending || batch.status == BatchStatus::Running ==> opened(
            batch,
        ) == (BatchView { status: BatchStatus::Running, ..batch }),
        batch.status == BatchStatus::Paused ==> opened(batch) == (BatchView {
            status: BatchStatus::Running,
            pause_requested: false,
            ..batch
        }),
        batch.status == BatchStatus::Done || batch.status == BatchStatus::Failed || batch.status
            == BatchStatus::Cancelled ==> opened(batch) == batch,
{
}

/// A batch runs as it was stored: one that was never stored, that differs from
/// what was stored, or that asks for another recognizer is refused.
pub proof fn law_batches_run_as_stored(
    requested: BatchView,
    stored: BatchView,
    profile: BatchExecutionProfile,
)
    ensures
        identity_refusal(requested, None, profile) is Some,
        identity_refusal(requested, Some(stored), profile) is None ==> stored.id@ == requested.id@
            && stored.jobs == requested.jobs && stored.status == requested.status
            && stored.ended == requested.ended && stored.profile.asr_engine@ == profile.asr_engine@
            && stored.profile.asr_model@ == profile.asr_model@ && stored.profile.device@
            == profile.device@ && stored.profile.compute_type@ == profile.compute_type@,
        identity_refusal(stored, Some(stored), stored.profile) is None,
{
}

/// The end of a member is noted once where it is found ended, and at the end of
/// its run unless the batch has ended by then.
pub proof fn law_members_are_noted(batch: BatchView, id: Seq<char>, how: JobTerminalStatus)
    requires
        batch.jobs.contains(id),
        batch.status == BatchStatus::Running,
    ensures
        after_member(batch, id, how) matches Ok(after) && after.status == BatchStatus::Running
            && exists|p: int| 0 <= p < after.ended.len() && #[trigger] after.ended[p] == (id, how),
        (exists|p: int| 0 <= p < batch.ended.len() && (#[trigger] batch.ended[p]).0 == id)
            ==> after_ended_member(batch, id, how) == Ok::<BatchView, DomainErrorView>(batch),
        (forall|p: int| 0 <= p < batch.ended.len() ==> (#[trigger] batch.ended[p]).0 != id)
            ==> after_ended_member(batch, id, how) == Ok::<BatchView, DomainErrorView>(
            BatchView { ended: batch.ended.push((id, how)), ..batch },
        ),
{
    law_ends_are_noted(batch, id, how);
}

/// A member that is left when a batch is cancelled is cancelled with it, and one
/// that has ended stays as it is.
pub proof fn law_left_members_are_cancelled(job: JobView)
    ensures
        cancelled_member(job) is Ok,
        job.status == JobStatus::Pending || job.status == JobStatus::Running ==> cancelled_member(
            job,
        )->Ok_0.status == JobStatus::Cancelled,
        job.status != JobStatus::Pending && job.status != JobStatus::Running ==> cancelled_member(
            job,
        )->Ok_0 == job,
{
}

/// A batch has failed where one of its own members has, and no other job counts.
pub proof fn law_failed_members_fail_the_batch(batch: BatchView, jobs: Seq<Job>, i: int)
    ensures
        0 <= i < jobs.len() && jobs[i]@.status == JobStatus::Failed && batch.jobs.contains(
            jobs[i]@.id@,
        ) ==> some_member_failed(batch, jobs),
        (forall|k: int|
            0 <= k < jobs.len() ==> (#[trigger] jobs[k])@.status != JobStatus::Failed
                || !batch.jobs.contains(jobs[k]@.id@)) ==> !some_member_failed(batch, jobs),
{
}

/// A batch whose start failed is ended as failed when the end of every member is
/// noted.
pub proof fn law_given_up_batches_fail(batch: BatchView)
    requires
        batch.status == BatchStatus::Running,
    ensures
        all_recorded(batch) && batch.ended.len() == batch.jobs.len() ==> given_up_batch(batch)
            == Ok::<BatchView, DomainErrorView>(
            BatchView { status: BatchStatus::Failed, terminal_event_emitted: true, ..batch },
        ),
        !all_recorded(batch) ==> given_up_batch(batch) == Ok::<BatchView, DomainErrorView>(batch),
        all_recorded(batch) <==> forall|i: int|
            0 <= i < batch.jobs.len() ==> batch.has_record(#[trigger] batch.jobs[i]),
{
}

/// A refusal tells what is wrong: commands out of order, commands of another
/// batch, jobs that are no members, members that have not ended.
pub proof fn law_refusals_tell_what_is_wrong(
    batch: BatchView,
    members: Seq<(Seq<char>, Option<Seq<char>>)>,
)
    ensures
        members.len() == 0 ==> commands_refusal(batch, members) == Some(
            "Batch execution requires at least one Job command"@,
        ),
        members.len() > 0 && members.len() == batch.jobs.len() && batch.jobs[0] != members[0].0
            ==> commands_refusal(batch, members) == Some(
            "Batch jobs must be supplied in FIFO aggregate order"@,
        ),
        members.len() > 0 && members.len() == batch.jobs.len() && batch.jobs[0] == members[0].0
            && members[0].1 != Some(batch.id@) ==> commands_refusal(batch, members) == Some(
            "Job command does not belong to the Batch"@,
        ),
        members.len() > batch.jobs.len() && batch.jobs.len() == 0 && members[0].1 == Some(batch.id@)
            ==> commands_refusal(batch, members) == Some(
            "retry subset contains a Job outside Batch membership order"@,
        ),
        0 < members.len() < batch.jobs.len() && members[0].1 == Some(batch.id@) && members[0].0
            != batch.jobs[0] && !batch.has_record(batch.jobs[0]) ==> commands_refusal(
            batch,
            members,
        ) == Some(
            "unselected Batch Job "@ + batch.jobs[0]
                + " must already be terminal before a subset retry"@,
        ),
{
}

/// A command is a member by its job, in the batch that it names.
pub proof fn law_commands_are_members_by_their_job(commands: Seq<TranscribeJobCommand>, i: int)
    requires
        0 <= i < commands.len(),
    ensures
        members_of(commands).len() == commands.len(),
        members_of(commands)[i].0 == commands[i].job_id@,
        commands[i].batch_id matches Some(id) ==> members_of(commands)[i].1 == Some(id@),
        commands[i].batch_id is None ==> members_of(commands)[i].1 is None,
{
}

/// A batch that waited goes on and is not asked to wait any more before it is
/// ended. A batch that did not wait stays as it is. Nothing else of either changes.
pub proof fn law_waiting_batches_go_on(batch: BatchView)
    ensures
        ({
            let after = awake(batch);
            &&& after.id == batch.id && after.jobs == batch.jobs && after.ended == batch.ended
            &&& after.cancel_requested == batch.cancel_requested
            &&& batch.status == BatchStatus::Paused ==> after.status == BatchStatus::Running
                && !after.pause_requested
            &&& batch.status != BatchStatus::Paused ==> after == batch
            &&& after.status != BatchStatus::Paused
        }),
        ({
            let after = opened(batch);
            &&& after.id == batch.id && after.jobs == batch.jobs && after.ended == batch.ended
            &&& after.cancel_requested == batch.cancel_requested
            &&& batch.status == BatchStatus::Pending ==> after.status == BatchStatus::Running
                && after.pause_requested == batch.pause_requested
            &&& batch.status == BatchStatus::Paused ==> after.status == BatchStatus::Running
                && !after.pause_requested
            &&& batch.status != BatchStatus::Pending && batch.status != BatchStatus::Paused ==> after
                == batch
        }),
{
}

} // verus!
