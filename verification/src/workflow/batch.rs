//! A batch of jobs that share one recognizer, from its start to its single
//! terminal event.
use vstd::prelude::*;
use vstd::string::*;

use crate::error::{moves, moves_with, outcome, DomainError, DomainErrorView, DomainResult};
use crate::identity::{BatchId, JobId};

use super::event::{DomainEvent, JobTerminalStatus};

verus! {

/// The recognizer settings that all jobs of a batch run under.
#[derive(Debug, PartialEq, Eq)]
pub struct BatchExecutionProfile {
    pub asr_engine: String,
    pub asr_model: String,
    pub device: String,
    pub compute_type: String,
}

impl Clone for BatchExecutionProfile {
    fn clone(&self) -> (copy: Self)
        ensures
            copy == *self,
    {
        BatchExecutionProfile {
            asr_engine: self.asr_engine.clone(),
            asr_model: self.asr_model.clone(),
            device: self.device.clone(),
            compute_type: self.compute_type.clone(),
        }
    }
}

impl BatchExecutionProfile {
    pub open spec fn same_as(self, other: Self) -> bool {
        &&& self.asr_engine@ == other.asr_engine@
        &&& self.asr_model@ == other.asr_model@
        &&& self.device@ == other.device@
        &&& self.compute_type@ == other.compute_type@
    }

    pub fn same_asr_profile(&self, other: &Self) -> (answer: bool)
        ensures
            answer == self.same_as(*other),
    {
        self.asr_engine == other.asr_engine && self.asr_model == other.asr_model && self.device
            == other.device && self.compute_type == other.compute_type
    }
}

#[derive(Debug, Clone, Copy, PartialEq, Eq, Structural)]
pub enum BatchStatus {
    Pending,
    Running,
    Paused,
    Done,
    Failed,
    Cancelled,
}

impl BatchStatus {
    pub open spec fn terminal(self) -> bool {
        ||| self == BatchStatus::Done
        ||| self == BatchStatus::Failed
        ||| self == BatchStatus::Cancelled
    }

    pub fn is_terminal(self) -> (answer: bool)
        ensures
            answer == self.terminal(),
    {
        matches!(self, BatchStatus::Done | BatchStatus::Failed | BatchStatus::Cancelled)
    }

    /// The name of the variant.
    pub open spec fn name_text(self) -> Seq<char> {
        match self {
            BatchStatus::Pending => "Pending"@,
            BatchStatus::Running => "Running"@,
            BatchStatus::Paused => "Paused"@,
            BatchStatus::Done => "Done"@,
            BatchStatus::Failed => "Failed"@,
            BatchStatus::Cancelled => "Cancelled"@,
        }
    }

    pub fn name(self) -> (name: &'static str)
        ensures
            name@ == self.name_text(),
    {
        match self {
            BatchStatus::Pending => "Pending",
            BatchStatus::Running => "Running",
            BatchStatus::Paused => "Paused",
            BatchStatus::Done => "Done",
            BatchStatus::Failed => "Failed",
            BatchStatus::Cancelled => "Cancelled",
        }
    }
}

#[derive(Debug, PartialEq, Eq)]
pub struct Batch {
    id: BatchId,
    job_ids: Vec<JobId>,
    execution_profile: BatchExecutionProfile,
    status: BatchStatus,
    cancel_requested: bool,
    pause_requested: bool,
    terminal_jobs: Vec<(JobId, JobTerminalStatus)>,
    terminal_event_emitted: bool,
}

/// The state of a batch.
#[verifier::ext_equal]
pub struct BatchView {
    pub id: BatchId,
    /// The members in the order in which they run.
    pub jobs: Seq<Seq<char>>,
    pub profile: BatchExecutionProfile,
    pub status: BatchStatus,
    pub cancel_requested: bool,
    pub pause_requested: bool,
    /// The members that have ended, in the order in which they did.
    pub ended: Seq<(Seq<char>, JobTerminalStatus)>,
    pub terminal_event_emitted: bool,
}

/// The texts of identifiers.
pub open spec fn id_texts(ids: Seq<JobId>) -> Seq<Seq<char>> {
    Seq::new(ids.len(), |i: int| ids[i]@)
}

/// The texts of identifiers beside how their jobs ended.
pub open spec fn ended_texts(ended: Seq<(JobId, JobTerminalStatus)>) -> Seq<
    (Seq<char>, JobTerminalStatus),
> {
    Seq::new(ended.len(), |i: int| (ended[i].0@, ended[i].1))
}

impl View for Batch {
    type V = BatchView;

    closed spec fn view(&self) -> BatchView {
        BatchView {
            id: self.id,
            jobs: id_texts(self.job_ids@),
            profile: self.execution_profile,
            status: self.status,
            cancel_requested: self.cancel_requested,
            pause_requested: self.pause_requested,
            ended: ended_texts(self.terminal_jobs@),
            terminal_event_emitted: self.terminal_event_emitted,
        }
    }
}

/// The position of the first record of `id`, from `from` on.
pub open spec fn record_position(
    ended: Seq<(Seq<char>, JobTerminalStatus)>,
    id: Seq<char>,
    from: int,
) -> Option<int>
    decreases ended.len() - from,
{
    if from < 0 || from >= ended.len() {
        None
    } else if ended[from].0 == id {
        Some(from)
    } else {
        record_position(ended, id, from + 1)
    }
}

/// Two neighbours are the same.
pub open spec fn has_adjacent_duplicate(ids: Seq<Seq<char>>) -> bool {
    exists|i: int| 0 <= i < ids.len() - 1 && #[trigger] ids[i] == ids[i + 1]
}

pub open spec fn illegal_batch(from: BatchStatus, to: Seq<char>) -> DomainErrorView {
    DomainErrorView::IllegalTransition { aggregate: "Batch"@, from: from.name_text(), to }
}

impl BatchView {
    /// A fresh batch.
    pub open spec fn fresh(
        id: BatchId,
        jobs: Seq<Seq<char>>,
        profile: BatchExecutionProfile,
    ) -> BatchView {
        BatchView {
            id,
            jobs,
            profile,
            status: BatchStatus::Pending,
            cancel_requested: false,
            pause_requested: false,
            ended: seq![],
            terminal_event_emitted: false,
        }
    }

    pub open spec fn has_record(self, id: Seq<char>) -> bool {
        record_position(self.ended, id, 0) is Some
    }

    pub open spec fn started(self) -> Result<BatchView, DomainErrorView> {
        if self.status == BatchStatus::Pending {
            Ok(BatchView { status: BatchStatus::Running, ..self })
        } else {
            Err(illegal_batch(self.status, "Running"@))
        }
    }

    /// A member has ended; a later record of it replaces an earlier one.
    pub open spec fn recorded(self, id: Seq<char>, how: JobTerminalStatus) -> Result<
        BatchView,
        DomainErrorView,
    > {
        if self.status != BatchStatus::Running {
            Err(illegal_batch(self.status, "record_job_terminal"@))
        } else if !self.jobs.contains(id) {
            Err(DomainErrorView::MemberNotFound { aggregate: "Batch"@, id })
        } else {
            match record_position(self.ended, id, 0) {
                Some(p) => Ok(BatchView { ended: self.ended.update(p, (id, how)), ..self }),
                None => Ok(BatchView { ended: self.ended.push((id, how)), ..self }),
            }
        }
    }

    pub open spec fn ended_in(self, status: BatchStatus) -> BatchView {
        BatchView { status, terminal_event_emitted: true, ..self }
    }

    pub open spec fn terminal_event(self, status: BatchStatus) -> DomainEvent {
        DomainEvent::BatchReachedTerminal { batch_id: self.id, status }
    }

    pub open spec fn finished(self, status: BatchStatus) -> Result<
        (BatchView, DomainEvent),
        DomainErrorView,
    > {
        if !status.terminal() {
            Err(DomainErrorView::InvalidArgument("batch finish status must be terminal"@))
        } else if self.status != BatchStatus::Running {
            Err(DomainErrorView::AlreadyTerminal { aggregate: "Batch"@ })
        } else if self.ended.len() != self.jobs.len() {
            Err(
                DomainErrorView::InvalidArgument(
                    "all batch jobs must be terminal before the batch finishes"@,
                ),
            )
        } else {
            Ok((self.ended_in(status), self.terminal_event(status)))
        }
    }

    pub open spec fn finished_cancelled(self) -> Result<(BatchView, DomainEvent), DomainErrorView> {
        if self.status.terminal() {
            Err(DomainErrorView::AlreadyTerminal { aggregate: "Batch"@ })
        } else if self.ended.len() != self.jobs.len() {
            Err(
                DomainErrorView::InvalidArgument(
                    "all batch jobs must be terminal before the batch finishes"@,
                ),
            )
        } else {
            Ok(
                (
                    BatchView { cancel_requested: true, ..self }.ended_in(BatchStatus::Cancelled),
                    self.terminal_event(BatchStatus::Cancelled),
                ),
            )
        }
    }

    pub open spec fn cancelled(self) -> Result<(BatchView, DomainEvent), DomainErrorView> {
        if self.status.terminal() {
            Err(DomainErrorView::AlreadyTerminal { aggregate: "Batch"@ })
        } else {
            Ok(
                (
                    BatchView { cancel_requested: true, ..self }.ended_in(BatchStatus::Cancelled),
                    self.terminal_event(BatchStatus::Cancelled),
                ),
            )
        }
    }

    pub open spec fn cancel_asked(self) -> Result<BatchView, DomainErrorView> {
        if self.status.terminal() {
            Err(DomainErrorView::AlreadyTerminal { aggregate: "Batch"@ })
        } else {
            Ok(BatchView { cancel_requested: true, ..self })
        }
    }

    pub open spec fn pause_asked(self) -> Result<BatchView, DomainErrorView> {
        if self.status != BatchStatus::Running || self.cancel_requested {
            Err(illegal_batch(self.status, "request_pause"@))
        } else {
            Ok(BatchView { pause_requested: true, ..self })
        }
    }

    pub open spec fn paused(self) -> Result<BatchView, DomainErrorView> {
        if self.status != BatchStatus::Running || !self.pause_requested {
            Err(illegal_batch(self.status, "Paused"@))
        } else {
            Ok(BatchView { status: BatchStatus::Paused, ..self })
        }
    }

    pub open spec fn resumed(self) -> Result<BatchView, DomainErrorView> {
        if self.status == BatchStatus::Running || self.status == BatchStatus::Paused {
            Ok(BatchView { status: BatchStatus::Running, pause_requested: false, ..self })
        } else {
            Err(illegal_batch(self.status, "resume"@))
        }
    }

    /// One member is to run again; the records of the others stay.
    pub open spec fn reopened(self, id: Seq<char>) -> Result<BatchView, DomainErrorView> {
        if self.status == BatchStatus::Running || self.status == BatchStatus::Paused {
            Err(illegal_batch(self.status, "retry"@))
        } else if !self.jobs.contains(id) {
            Err(DomainErrorView::MemberNotFound { aggregate: "Batch"@, id })
        } else {
            Ok(
                BatchView {
                    status: BatchStatus::Pending,
                    cancel_requested: false,
                    pause_requested: false,
                    ended: match record_position(self.ended, id, 0) {
                        Some(p) => self.ended.remove(p),
                        None => self.ended,
                    },
                    terminal_event_emitted: false,
                    ..self
                },
            )
        }
    }

    pub open spec fn recovered(self) -> BatchView {
        if self.status == BatchStatus::Running {
            BatchView { status: BatchStatus::Pending, ..self }
        } else {
            self
        }
    }
}

impl Clone for Batch {
    fn clone(&self) -> (copy: Self)
        ensures
            copy@ == self@,
    {
        let job_ids = self.job_ids.clone();
        let mut terminal_jobs: Vec<(JobId, JobTerminalStatus)> = Vec::new();
        let mut i: usize = 0;
        while i < self.terminal_jobs.len()
            invariant
                i <= self.terminal_jobs.len(),
                terminal_jobs@ == self.terminal_jobs@.take(i as int),
            decreases self.terminal_jobs.len() - i,
        {
            terminal_jobs.push((self.terminal_jobs[i].0.clone(), self.terminal_jobs[i].1));
            i += 1;
            assert(terminal_jobs@ =~= self.terminal_jobs@.take(i as int));
        }
        assert(terminal_jobs@ =~= self.terminal_jobs@);
        assert(job_ids@ =~= self.job_ids@);
        Batch {
            id: self.id.clone(),
            job_ids,
            execution_profile: self.execution_profile.clone(),
            status: self.status,
            cancel_requested: self.cancel_requested,
            pause_requested: self.pause_requested,
            terminal_jobs,
            terminal_event_emitted: self.terminal_event_emitted,
        }
    }
}

impl Batch {
    pub fn new(
        id: BatchId,
        job_ids: Vec<JobId>,
        execution_profile: BatchExecutionProfile,
    ) -> (result: DomainResult<Self>)
        ensures
            match result {
                Ok(batch) => job_ids@.len() > 0 && !has_adjacent_duplicate(id_texts(job_ids@))
                    && batch@ == BatchView::fresh(id, id_texts(job_ids@), execution_profile),
                Err(error) => if job_ids@.len() == 0 {
                    error@ == DomainErrorView::InvalidArgument(
                        "a batch must contain at least one job"@,
                    )
                } else {
                    has_adjacent_duplicate(id_texts(job_ids@)) && error@
                        == DomainErrorView::InvalidArgument(
                        "a batch cannot contain duplicate jobs"@,
                    )
                },
            },
    {
        if job_ids.len() == 0 {
            return Err(DomainError::invalid("a batch must contain at least one job"));
        }
        let ghost texts = id_texts(job_ids@);
        let mut i: usize = 1;
        while i < job_ids.len()
            invariant
                1 <= i <= job_ids.len(),
                texts == id_texts(job_ids@),
                forall|k: int| 0 <= k < i - 1 ==> #[trigger] texts[k] != texts[k + 1],
            decreases job_ids.len() - i,
        {
            if job_ids[i - 1].same(&job_ids[i]) {
                assert(texts[i - 1] == texts[(i - 1) + 1]);
                return Err(DomainError::invalid("a batch cannot contain duplicate jobs"));
            }
            i += 1;
        }
        let batch = Batch {
            id,
            job_ids,
            execution_profile,
            status: BatchStatus::Pending,
            cancel_requested: false,
            pause_requested: false,
            terminal_jobs: Vec::new(),
            terminal_event_emitted: false,
        };
        assert(batch@.ended =~= seq![]);
        Ok(batch)
    }

    pub fn id(&self) -> (id: &BatchId)
        ensures
            *id == self@.id,
    {
        &self.id
    }

    pub fn job_ids(&self) -> (ids: &[JobId])
        ensures
            id_texts(ids@) == self@.jobs,
    {
        self.job_ids.as_slice()
    }

    pub fn execution_profile(&self) -> (profile: &BatchExecutionProfile)
        ensures
            *profile == self@.profile,
    {
        &self.execution_profile
    }

    pub fn status(&self) -> (status: BatchStatus)
        ensures
            status == self@.status,
    {
        self.status
    }

    pub fn cancel_requested(&self) -> (answer: bool)
        ensures
            answer == self@.cancel_requested,
    {
        self.cancel_requested
    }

    pub fn pause_requested(&self) -> (answer: bool)
        ensures
            answer == self@.pause_requested,
    {
        self.pause_requested
    }

    pub fn terminal_event_emitted(&self) -> (answer: bool)
        ensures
            answer == self@.terminal_event_emitted,
    {
        self.terminal_event_emitted
    }

    pub fn start(&mut self) -> (result: DomainResult<()>)
        ensures
            moves(result, old(self)@, final(self)@, old(self)@.started()),
    {
        if self.status != BatchStatus::Pending {
            return Err(DomainError::illegal("Batch", self.status.name(), "Running"));
        }
        self.status = BatchStatus::Running;
        Ok(())
    }

    /// Refuse to run under other recognizer settings than the batch has.
    pub fn require_profile(&self, profile: &BatchExecutionProfile) -> (result: DomainResult<()>)
        ensures
            outcome(result) == (if self@.profile.same_as(*profile) {
                Ok(())
            } else {
                Err(DomainErrorView::BatchProfileMismatch)
            }),
    {
        if self.execution_profile.same_asr_profile(profile) {
            Ok(())
        } else {
            Err(DomainError::BatchProfileMismatch)
        }
    }

    fn is_member(&self, job_id: &JobId) -> (answer: bool)
        ensures
            answer == self@.jobs.contains(job_id@),
    {
        let mut i: usize = 0;
        while i < self.job_ids.len()
            invariant
                i <= self.job_ids.len(),
                forall|k: int| 0 <= k < i ==> #[trigger] self@.jobs[k] != job_id@,
            decreases self.job_ids.len() - i,
        {
            if self.job_ids[i].same(job_id) {
                assert(self@.jobs[i as int] == job_id@);
                return true;
            }
            i += 1;
        }
        false
    }

    fn find_record(&self, job_id: &JobId) -> (position: Option<usize>)
        ensures
            match position {
                Some(p) => p < self.terminal_jobs@.len() && record_position(
                    self@.ended,
                    job_id@,
                    0,
                ) == Some(p as int),
                None => record_position(self@.ended, job_id@, 0) is None,
            },
    {
        let mut i: usize = 0;
        while i < self.terminal_jobs.len()
            invariant
                i <= self.terminal_jobs.len(),
                record_position(self@.ended, job_id@, 0) == record_position(
                    self@.ended,
                    job_id@,
                    i as int,
                ),
            decreases self.terminal_jobs.len() - i,
        {
            if self.terminal_jobs[i].0.same(job_id) {
                return Some(i);
            }
            i += 1;
        }
        None
    }

    /// Whether the member is recorded as ended.
    pub fn has_terminal_record(&self, job_id: &JobId) -> (answer: bool)
        ensures
            answer == self@.has_record(job_id@),
    {
        self.find_record(job_id).is_some()
    }

    pub fn record_job_terminal(&mut self, job_id: &JobId, status: JobTerminalStatus) -> (result:
        DomainResult<()>)
        ensures
            moves(result, old(self)@, final(self)@, old(self)@.recorded(job_id@, status)),
    {
        if self.status != BatchStatus::Running {
            return Err(DomainError::illegal("Batch", self.status.name(), "record_job_terminal"));
        }
        if !self.is_member(job_id) {
            return Err(
                DomainError::MemberNotFound { aggregate: "Batch", id: job_id.as_str().to_owned() },
            );
        }
        let ghost before = self@;
        match self.find_record(job_id) {
            Some(p) => {
                self.terminal_jobs.set(p, (job_id.clone(), status));
                assert(self@.ended =~= before.ended.update(p as int, (job_id@, status)));
            },
            None => {
                self.terminal_jobs.push((job_id.clone(), status));
                assert(self@.ended =~= before.ended.push((job_id@, status)));
            },
        }
        Ok(())
    }

    /// End the batch, once, when all its members have ended.
    pub fn finish(&mut self, status: BatchStatus) -> (result: DomainResult<DomainEvent>)
        ensures
            moves_with(result, old(self)@, final(self)@, old(self)@.finished(status)),
    {
        if !status.is_terminal() {
            return Err(DomainError::invalid("batch finish status must be terminal"));
        }
        if self.status != BatchStatus::Running {
            return Err(DomainError::AlreadyTerminal { aggregate: "Batch" });
        }
        if self.terminal_jobs.len() != self.job_ids.len() {
            return Err(
                DomainError::invalid("all batch jobs must be terminal before the batch finishes"),
            );
        }
        self.status = status;
        self.terminal_event_emitted = true;
        Ok(DomainEvent::BatchReachedTerminal { batch_id: self.id.clone(), status })
    }

    /// End a batch that was cancelled, when all its members have ended.
    pub fn finish_cancelled(&mut self) -> (result: DomainResult<DomainEvent>)
        ensures
            moves_with(result, old(self)@, final(self)@, old(self)@.finished_cancelled()),
    {
        if self.status.is_terminal() {
            return Err(DomainError::AlreadyTerminal { aggregate: "Batch" });
        }
        if self.terminal_jobs.len() != self.job_ids.len() {
            return Err(
                DomainError::invalid("all batch jobs must be terminal before the batch finishes"),
            );
        }
        self.cancel_requested = true;
        self.status = BatchStatus::Cancelled;
        self.terminal_event_emitted = true;
        Ok(
            DomainEvent::BatchReachedTerminal {
                batch_id: self.id.clone(),
                status: BatchStatus::Cancelled,
            },
        )
    }

    /// End the batch at once as cancelled.
    pub fn cancel(&mut self) -> (result: DomainResult<DomainEvent>)
        ensures
            moves_with(result, old(self)@, final(self)@, old(self)@.cancelled()),
    {
        if self.status.is_terminal() {
            return Err(DomainError::AlreadyTerminal { aggregate: "Batch" });
        }
        self.cancel_requested = true;
        self.status = BatchStatus::Cancelled;
        self.terminal_event_emitted = true;
        Ok(
            DomainEvent::BatchReachedTerminal {
                batch_id: self.id.clone(),
                status: BatchStatus::Cancelled,
            },
        )
    }

    /// Ask for cancellation. The batch ends only when its members have.
    pub fn request_cancel(&mut self) -> (result: DomainResult<()>)
        ensures
            moves(result, old(self)@, final(self)@, old(self)@.cancel_asked()),
    {
        if self.status.is_terminal() {
            return Err(DomainError::AlreadyTerminal { aggregate: "Batch" });
        }
        self.cancel_requested = true;
        Ok(())
    }

    /// Ask for a pause, which takes effect between two jobs.
    pub fn request_pause(&mut self) -> (result: DomainResult<()>)
        ensures
            moves(result, old(self)@, final(self)@, old(self)@.pause_asked()),
    {
        if self.status != BatchStatus::Running || self.cancel_requested {
            return Err(DomainError::illegal("Batch", self.status.name(), "request_pause"));
        }
        self.pause_requested = true;
        Ok(())
    }

    /// The pause that was asked for takes effect.
    pub fn mark_paused(&mut self) -> (result: DomainResult<()>)
        ensures
            moves(result, old(self)@, final(self)@, old(self)@.paused()),
    {
        if self.status != BatchStatus::Running || !self.pause_requested {
            return Err(DomainError::illegal("Batch", self.status.name(), "Paused"));
        }
        self.status = BatchStatus::Paused;
        Ok(())
    }

    /// Take back a pause, whether it has taken effect or not.
    pub fn resume(&mut self) -> (result: DomainResult<()>)
        ensures
            moves(result, old(self)@, final(self)@, old(self)@.resumed()),
    {
        if self.status != BatchStatus::Running && self.status != BatchStatus::Paused {
            return Err(DomainError::illegal("Batch", self.status.name(), "resume"));
        }
        self.status = BatchStatus::Running;
        self.pause_requested = false;
        Ok(())
    }

    /// Open the batch again so that one member can run once more.
    pub fn prepare_retry(&mut self, job_id: &JobId) -> (result: DomainResult<()>)
        ensures
            moves(result, old(self)@, final(self)@, old(self)@.reopened(job_id@)),
    {
        if self.status == BatchStatus::Running || self.status == BatchStatus::Paused {
            return Err(DomainError::illegal("Batch", self.status.name(), "retry"));
        }
        if !self.is_member(job_id) {
            return Err(
                DomainError::MemberNotFound { aggregate: "Batch", id: job_id.as_str().to_owned() },
            );
        }
        let ghost before = self@;
        match self.find_record(job_id) {
            Some(p) => {
                self.terminal_jobs.remove(p);
                assert(self@.ended =~= before.ended.remove(p as int));
            },
            None => {},
        }
        self.status = BatchStatus::Pending;
        self.cancel_requested = false;
        self.pause_requested = false;
        self.terminal_event_emitted = false;
        Ok(())
    }

    /// A running batch has no owner after a restart of the process. It goes
    /// back to pending, so that it can be resumed explicitly.
    pub fn recover_after_restart(&mut self) -> (result: DomainResult<()>)
        ensures
            result is Ok,
            final(self)@ == old(self)@.recovered(),
    {
        if self.status == BatchStatus::Running {
            self.status = BatchStatus::Pending;
        }
        Ok(())
    }

    /// Whether both batches are in the same state, field by field.
    pub fn same(&self, other: &Batch) -> (answer: bool)
        ensures
            answer == self@.agrees(other@),
    {
        assert(self@.jobs.len() == self.job_ids@.len() && other@.jobs.len() == other.job_ids@.len());
        assert(self@.ended.len() == self.terminal_jobs@.len() && other@.ended.len()
            == other.terminal_jobs@.len());
        if !(self.id.same(&other.id) && self.execution_profile.same_asr_profile(
            &other.execution_profile,
        ) && self.status == other.status && self.cancel_requested == other.cancel_requested
            && self.pause_requested == other.pause_requested && self.terminal_event_emitted
            == other.terminal_event_emitted && self.job_ids.len() == other.job_ids.len()
            && self.terminal_jobs.len() == other.terminal_jobs.len()) {
            return false;
        }
        let mut i: usize = 0;
        while i < self.job_ids.len()
            invariant
                i <= self.job_ids.len() == other.job_ids.len(),
                forall|k: int| 0 <= k < i ==> #[trigger] self@.jobs[k] == other@.jobs[k],
            decreases self.job_ids.len() - i,
        {
            if !self.job_ids[i].same(&other.job_ids[i]) {
                assert(self@.jobs[i as int] != other@.jobs[i as int]);
                return false;
            }
            i += 1;
        }
        let mut i: usize = 0;
        while i < self.terminal_jobs.len()
            invariant
                i <= self.terminal_jobs.len() == other.terminal_jobs.len(),
                forall|k: int| 0 <= k < i ==> #[trigger] self@.ended[k] == other@.ended[k],
            decreases self.terminal_jobs.len() - i,
        {
            if !(self.terminal_jobs[i].0.same(&other.terminal_jobs[i].0) && self.terminal_jobs[i].1
                == other.terminal_jobs[i].1) {
                assert(self@.ended[i as int] != other@.ended[i as int]);
                return false;
            }
            i += 1;
        }
        assert(self@.jobs =~= other@.jobs);
        assert(self@.ended =~= other@.ended);
        true
    }
}

impl BatchView {
    /// Both batches are in the same state.
    pub open spec fn agrees(self, other: BatchView) -> bool {
        &&& self.id@ == other.id@
        &&& self.jobs == other.jobs
        &&& self.profile.same_as(other.profile)
        &&& self.status == other.status
        &&& self.cancel_requested == other.cancel_requested
        &&& self.pause_requested == other.pause_requested
        &&& self.ended == other.ended
        &&& self.terminal_event_emitted == other.terminal_event_emitted
    }
}

} // verus!
