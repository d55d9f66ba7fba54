//! One media file on its way through the stages of the pipeline.
use vstd::prelude::*;
use vstd::string::*;

use crate::error::{moves, moves_with, DomainError, DomainErrorView, DomainResult};
use crate::identity::{BatchId, JobId, UlidStr};

use super::stage::{ArtifactRef, JobStatus, StageKind, StageState, StageStatus};

verus! {

#[derive(Debug, PartialEq, Eq)]
pub struct Job {
    id: JobId,
    batch_id: Option<BatchId>,
    execution_snapshot_id: Option<UlidStr>,
    profile_revision: UlidStr,
    source_path: String,
    stages: Vec<StageState>,
    status: JobStatus,
    cancel_requested: bool,
    retry_attempt: u32,
    retry_generation: u32,
}

/// The state of a job.
#[verifier::ext_equal]
pub struct JobView {
    pub id: JobId,
    pub batch_id: Option<BatchId>,
    pub execution_snapshot_id: Option<UlidStr>,
    pub profile_revision: UlidStr,
    pub source_path: Seq<char>,
    pub stages: Seq<StageState>,
    pub status: JobStatus,
    pub cancel_requested: bool,
    /// Number of explicit retries.
    pub retry_attempt: u32,
    /// Grows with every retry, so that a new attempt can be told from an old one.
    pub retry_generation: u32,
}

impl View for Job {
    type V = JobView;

    closed spec fn view(&self) -> JobView {
        JobView {
            id: self.id,
            batch_id: self.batch_id,
            execution_snapshot_id: self.execution_snapshot_id,
            profile_revision: self.profile_revision,
            source_path: self.source_path@,
            stages: self.stages@,
            status: self.status,
            cancel_requested: self.cancel_requested,
            retry_attempt: self.retry_attempt,
            retry_generation: self.retry_generation,
        }
    }
}

/// A count one higher, or the same where there is none higher.
pub open spec fn counted(n: u32) -> u32 {
    if n < u32::MAX {
        (n + 1) as u32
    } else {
        n
    }
}

/// The stage at a position of the pipeline.
pub open spec fn kind_at(i: int) -> StageKind {
    if i == 0 {
        StageKind::Probe
    } else if i == 1 {
        StageKind::ExtractAudio
    } else if i == 2 {
        StageKind::Asr
    } else if i == 3 {
        StageKind::Split
    } else if i == 4 {
        StageKind::Correct
    } else if i == 5 {
        StageKind::Translate
    } else {
        StageKind::Export
    }
}

pub open spec fn fresh_stage(kind: StageKind) -> StageState {
    StageState { kind, status: StageStatus::Pending, artifact: None }
}

/// The position of the first state of `kind`, from `from` on.
pub open spec fn stage_position(stages: Seq<StageState>, kind: StageKind, from: int) -> Option<int>
    decreases stages.len() - from,
{
    if from < 0 || from >= stages.len() {
        None
    } else if stages[from].kind == kind {
        Some(from)
    } else {
        stage_position(stages, kind, from + 1)
    }
}

/// The position of the first stage that a retry starts at, from `from` on.
pub open spec fn retry_position(stages: Seq<StageState>, from: int) -> Option<int>
    decreases stages.len() - from,
{
    if from < 0 || from >= stages.len() {
        None
    } else if stages[from].status.needs_retry() {
        Some(from)
    } else {
        retry_position(stages, from + 1)
    }
}

pub open spec fn no_such_stage(kind: StageKind) -> DomainErrorView {
    DomainErrorView::MemberNotFound { aggregate: "Job"@, id: "stage::"@ + kind.name_text() }
}

pub open spec fn illegal_job(from: JobStatus, to: Seq<char>) -> DomainErrorView {
    DomainErrorView::IllegalTransition { aggregate: "Job"@, from: from.name_text(), to }
}

pub open spec fn illegal_stage(from: StageStatus, to: Seq<char>) -> DomainErrorView {
    DomainErrorView::IllegalTransition { aggregate: "Stage"@, from: from.name_text(), to }
}

pub open spec fn with_status(stages: Seq<StageState>, p: int, status: StageStatus) -> Seq<
    StageState,
> {
    stages.update(p, StageState { status, ..stages[p] })
}

/// The stages with those from `start` on as if they had never run.
pub open spec fn reset_from(stages: Seq<StageState>, start: int) -> Seq<StageState> {
    Seq::new(
        stages.len(),
        |i: int|
            if i >= start {
                fresh_stage(stages[i].kind)
            } else {
                stages[i]
            },
    )
}

/// The stages with those that are in flight put into `status`.
pub open spec fn in_flight_to(stages: Seq<StageState>, status: StageStatus) -> Seq<StageState> {
    Seq::new(
        stages.len(),
        |i: int|
            if stages[i].status.in_flight() {
                StageState { status, ..stages[i] }
            } else {
                stages[i]
            },
    )
}

/// The stages with those that have not ended cancelled.
pub open spec fn open_to_cancelled(stages: Seq<StageState>) -> Seq<StageState> {
    Seq::new(
        stages.len(),
        |i: int|
            if stages[i].status.terminal() {
                stages[i]
            } else {
                StageState { status: StageStatus::Cancelled, ..stages[i] }
            },
    )
}

/// Some stage has the status.
pub open spec fn some_stage(stages: Seq<StageState>, status: StageStatus) -> bool {
    exists|i: int| 0 <= i < stages.len() && (#[trigger] stages[i]).status == status
}

/// Every stage has ended.
pub open spec fn all_ended(stages: Seq<StageState>) -> bool {
    forall|i: int| 0 <= i < stages.len() ==> (#[trigger] stages[i]).status.terminal()
}

/// How a job ends whose stages have ended in these states.
pub open spec fn ended_status(stages: Seq<StageState>) -> JobStatus {
    if some_stage(stages, StageStatus::Failed) {
        JobStatus::Failed
    } else if some_stage(stages, StageStatus::DoneDegraded) {
        JobStatus::DoneDegraded
    } else if some_stage(stages, StageStatus::Cancelled) {
        JobStatus::Cancelled
    } else {
        JobStatus::Done
    }
}

impl JobView {
    /// A fresh job with all stages pending.
    pub open spec fn fresh(
        id: JobId,
        batch_id: Option<BatchId>,
        execution_snapshot_id: Option<UlidStr>,
        profile_revision: UlidStr,
        source_path: Seq<char>,
    ) -> JobView {
        JobView {
            id,
            batch_id,
            execution_snapshot_id,
            profile_revision,
            source_path,
            stages: Seq::new(7, |i: int| fresh_stage(kind_at(i))),
            status: JobStatus::Pending,
            cancel_requested: false,
            retry_attempt: 0,
            retry_generation: 0,
        }
    }

    pub open spec fn position(self, kind: StageKind) -> Option<int> {
        stage_position(self.stages, kind, 0)
    }

    pub open spec fn with_stage(self, p: int, status: StageStatus) -> JobView {
        JobView { stages: with_status(self.stages, p, status), ..self }
    }

    /// A newly committed transcript takes the place of the stage's artifact.
    pub open spec fn revision_recorded(self, kind: StageKind, artifact: ArtifactRef) -> Result<
        JobView,
        DomainErrorView,
    > {
        if artifact.stage != kind {
            Err(
                DomainErrorView::InvalidArgument("transcript revision artifact stage does not match"@),
            )
        } else {
            match self.position(kind) {
                None => Err(no_such_stage(kind)),
                Some(p) => if !self.stages[p].status.terminal() {
                    Err(illegal_stage(self.stages[p].status, "record_transcript_revision"@))
                } else {
                    Ok(
                        JobView {
                            stages: self.stages.update(
                                p,
                                StageState { artifact: Some(artifact), ..self.stages[p] },
                            ),
                            ..self
                        },
                    )
                },
            }
        }
    }

    pub open spec fn started(self) -> Result<JobView, DomainErrorView> {
        if self.status != JobStatus::Pending {
            Err(illegal_job(self.status, "Running"@))
        } else {
            Ok(JobView { status: JobStatus::Running, ..self })
        }
    }

    /// A pending stage of a running job is left for `status`, which is open to
    /// it once the stage in front of it is complete.
    pub open spec fn entered(
        self,
        kind: StageKind,
        verb: Seq<char>,
        status: StageStatus,
    ) -> Result<JobView, DomainErrorView> {
        if self.status != JobStatus::Running {
            Err(illegal_job(self.status, verb + kind.name_text()))
        } else {
            match self.position(kind) {
                None => Err(no_such_stage(kind)),
                Some(p) => if p > 0 && !self.stages[p - 1].status.satisfied() {
                    Err(
                        DomainErrorView::InvalidArgument(
                            "stage "@ + kind.name_text() + " prerequisite is not complete"@,
                        ),
                    )
                } else if self.stages[p].status != StageStatus::Pending {
                    Err(illegal_stage(self.stages[p].status, status.name_text()))
                } else {
                    Ok(self.with_stage(p, status))
                },
            }
        }
    }

    pub open spec fn stage_started(self, kind: StageKind) -> Result<JobView, DomainErrorView> {
        self.entered(kind, "start_"@, StageStatus::Running)
    }

    pub open spec fn stage_skipped(self, kind: StageKind) -> Result<JobView, DomainErrorView> {
        self.entered(kind, "skip_"@, StageStatus::Skipped)
    }

    pub open spec fn stage_completed(
        self,
        kind: StageKind,
        artifact: ArtifactRef,
        degraded: bool,
    ) -> Result<JobView, DomainErrorView> {
        match self.position(kind) {
            None => Err(no_such_stage(kind)),
            Some(p) => if self.stages[p].status != StageStatus::Running {
                Err(illegal_stage(self.stages[p].status, "Done"@))
            } else if artifact.stage != kind {
                Err(
                    DomainErrorView::InvalidArgument(
                        "artifact stage does not match the completed stage"@,
                    ),
                )
            } else {
                Ok(
                    JobView {
                        stages: self.stages.update(
                            p,
                            StageState {
                                kind: self.stages[p].kind,
                                status: if degraded {
                                    StageStatus::DoneDegraded
                                } else {
                                    StageStatus::Done
                                },
                                artifact: Some(artifact),
                            },
                        ),
                        ..self
                    },
                )
            },
        }
    }

    pub open spec fn stage_failed(self, kind: StageKind) -> Result<JobView, DomainErrorView> {
        match self.position(kind) {
            None => Err(no_such_stage(kind)),
            Some(p) => if !self.stages[p].status.in_flight() {
                Err(illegal_stage(self.stages[p].status, "Failed"@))
            } else {
                Ok(
                    JobView {
                        status: JobStatus::Failed,
                        ..self.with_stage(p, StageStatus::Failed)
                    },
                )
            },
        }
    }

    pub open spec fn finished(self) -> Result<JobView, DomainErrorView> {
        if self.status != JobStatus::Running {
            Err(illegal_job(self.status, "terminal"@))
        } else if !all_ended(self.stages) {
            Err(
                DomainErrorView::InvalidArgument(
                    "all job stages must be terminal before the job finishes"@,
                ),
            )
        } else {
            Ok(JobView { status: ended_status(self.stages), ..self })
        }
    }

    /// After a restart of the process: what was in flight is pending again,
    /// what was complete stays.
    pub open spec fn recovered(self) -> JobView {
        if self.status == JobStatus::Running {
            JobView {
                status: JobStatus::Pending,
                stages: in_flight_to(self.stages, StageStatus::Pending),
                ..self
            }
        } else {
            self
        }
    }

    pub open spec fn invalidated(self, kind: StageKind) -> Result<JobView, DomainErrorView> {
        match self.position(kind) {
            None => Err(no_such_stage(kind)),
            Some(p) => Ok(
                JobView {
                    status: JobStatus::Pending,
                    stages: reset_from(self.stages, p),
                    ..self
                },
            ),
        }
    }

    pub open spec fn cancelled(self) -> Result<JobView, DomainErrorView> {
        if self.status.terminal() {
            Err(DomainErrorView::AlreadyTerminal { aggregate: "Job"@ })
        } else {
            Ok(
                JobView {
                    status: JobStatus::Cancelled,
                    stages: open_to_cancelled(self.stages),
                    ..self
                },
            )
        }
    }

    pub open spec fn cancel_asked(self) -> Result<JobView, DomainErrorView> {
        if self.status.terminal() {
            Err(DomainErrorView::AlreadyTerminal { aggregate: "Job"@ })
        } else {
            Ok(JobView { cancel_requested: true, ..self })
        }
    }

    pub open spec fn failed(self) -> Result<JobView, DomainErrorView> {
        if self.status.terminal() {
            Err(DomainErrorView::AlreadyTerminal { aggregate: "Job"@ })
        } else {
            Ok(
                JobView {
                    status: JobStatus::Failed,
                    stages: in_flight_to(self.stages, StageStatus::Failed),
                    ..self
                },
            )
        }
    }

    /// The job may be retried.
    pub open spec fn retryable(self) -> bool {
        ||| self.status == JobStatus::Failed
        ||| self.status == JobStatus::DoneDegraded
        ||| self.status == JobStatus::Cancelled
    }

    /// Where a retry begins: at the chosen stage, or at the first that needs one.
    pub open spec fn retry_start(self, from_stage: Option<StageKind>) -> Result<
        int,
        DomainErrorView,
    > {
        match from_stage {
            Some(kind) => match self.position(kind) {
                None => Err(no_such_stage(kind)),
                Some(p) => Ok(p),
            },
            None => match retry_position(self.stages, 0) {
                None => Err(
                    DomainErrorView::InvalidArgument(
                        "prepare_retry requires from_stage when no failed stage is present"@,
                    ),
                ),
                Some(p) => Ok(p),
            },
        }
    }

    pub open spec fn retried_from(self, p: int) -> JobView {
        JobView {
            status: JobStatus::Pending,
            stages: reset_from(self.stages, p),
            cancel_requested: false,
            retry_attempt: counted(self.retry_attempt),
            retry_generation: counted(self.retry_generation),
            ..self
        }
    }

    pub open spec fn retried(self, from_stage: Option<StageKind>) -> Result<
        (JobView, StageKind),
        DomainErrorView,
    > {
        if !self.retryable() {
            Err(illegal_job(self.status, "retry"@))
        } else {
            match self.retry_start(from_stage) {
                Err(error) => Err(error),
                Ok(p) => Ok((self.retried_from(p), self.stages[p].kind)),
            }
        }
    }
}

impl Clone for Job {
    fn clone(&self) -> (copy: Self)
        ensures
            copy@ == self@,
    {
        let stages = self.stages.clone();
        assert(stages@ =~= self.stages@);
        Job {
            id: self.id.clone(),
            batch_id: self.batch_id.clone(),
            execution_snapshot_id: self.execution_snapshot_id.clone(),
            profile_revision: self.profile_revision.clone(),
            source_path: self.source_path.clone(),
            stages,
            status: self.status,
            cancel_requested: self.cancel_requested,
            retry_attempt: self.retry_attempt,
            retry_generation: self.retry_generation,
        }
    }
}

fn new_stage(kind: StageKind) -> (stage: StageState)
    ensures
        stage == fresh_stage(kind),
{
    StageState { kind, status: StageStatus::Pending, artifact: None }
}

fn joined(a: &str, b: &str) -> (text: String)
    ensures
        text@ == a@ + b@,
{
    let mut text = a.to_owned();
    text.append(b);
    text
}

impl Job {
    pub fn new(
        id: JobId,
        batch_id: Option<BatchId>,
        profile_revision: UlidStr,
        source_path: &str,
    ) -> (job: Self)
        ensures
            job@ == JobView::fresh(id, batch_id, None, profile_revision, source_path@),
    {
        let mut stages: Vec<StageState> = Vec::new();
        stages.push(new_stage(StageKind::Probe));
        stages.push(new_stage(StageKind::ExtractAudio));
        stages.push(new_stage(StageKind::Asr));
        stages.push(new_stage(StageKind::Split));
        stages.push(new_stage(StageKind::Correct));
        stages.push(new_stage(StageKind::Translate));
        stages.push(new_stage(StageKind::Export));
        assert(stages@ =~= Seq::new(7, |i: int| fresh_stage(kind_at(i))));
        Job {
            id,
            batch_id,
            execution_snapshot_id: None,
            profile_revision,
            source_path: source_path.to_owned(),
            stages,
            status: JobStatus::Pending,
            cancel_requested: false,
            retry_attempt: 0,
            retry_generation: 0,
        }
    }

    pub fn new_with_snapshot(
        id: JobId,
        batch_id: Option<BatchId>,
        execution_snapshot_id: UlidStr,
        profile_revision: UlidStr,
        source_path: &str,
    ) -> (job: Self)
        ensures
            job@ == JobView::fresh(
                id,
                batch_id,
                Some(execution_snapshot_id),
                profile_revision,
                source_path@,
            ),
    {
        let mut job = Job::new(id, batch_id, profile_revision, source_path);
        job.execution_snapshot_id = Some(execution_snapshot_id);
        job
    }

    pub fn id(&self) -> (id: &JobId)
        ensures
            *id == self@.id,
    {
        &self.id
    }

    pub fn batch_id(&self) -> (id: Option<&BatchId>)
        ensures
            match id {
                Some(id) => self@.batch_id == Some(*id),
                None => self@.batch_id is None,
            },
    {
        self.batch_id.as_ref()
    }

    pub fn execution_snapshot_id(&self) -> (id: Option<&UlidStr>)
        ensures
            match id {
                Some(id) => self@.execution_snapshot_id == Some(*id),
                None => self@.execution_snapshot_id is None,
            },
    {
        self.execution_snapshot_id.as_ref()
    }

    pub fn profile_revision(&self) -> (revision: &UlidStr)
        ensures
            *revision == self@.profile_revision,
    {
        &self.profile_revision
    }

    pub fn source_path(&self) -> (path: &str)
        ensures
            path@ == self@.source_path,
    {
        self.source_path.as_str()
    }

    pub fn status(&self) -> (status: JobStatus)
        ensures
            status == self@.status,
    {
        self.status
    }

    pub fn stages(&self) -> (stages: &[StageState])
        ensures
            stages@ == self@.stages,
    {
        self.stages.as_slice()
    }

    pub fn cancel_requested(&self) -> (answer: bool)
        ensures
            answer == self@.cancel_requested,
    {
        self.cancel_requested
    }

    pub fn retry_attempt(&self) -> (n: u32)
        ensures
            n == self@.retry_attempt,
    {
        self.retry_attempt
    }

    pub fn retry_generation(&self) -> (n: u32)
        ensures
            n == self@.retry_generation,
    {
        self.retry_generation
    }

    fn stage_index(&self, kind: StageKind) -> (result: DomainResult<usize>)
        ensures
            match result {
                Ok(p) => p < self@.stages.len() && self@.position(kind) == Some(p as int),
                Err(error) => self@.position(kind) is None && error@ == no_such_stage(kind),
            },
    {
        let mut i: usize = 0;
        while i < self.stages.len()
            invariant
                i <= self.stages.len(),
                self@.position(kind) == stage_position(self@.stages, kind, i as int),
            decreases self.stages.len() - i,
        {
            if self.stages[i].kind == kind {
                return Ok(i);
            }
            i += 1;
        }
        Err(DomainError::MemberNotFound { aggregate: "Job", id: joined("stage::", kind.name()) })
    }

    fn set_status(&mut self, p: usize, status: StageStatus)
        requires
            p < old(self)@.stages.len(),
        ensures
            final(self)@ == old(self)@.with_stage(p as int, status),
    {
        let mut stage = self.stages[p].clone();
        stage.status = status;
        self.stages.set(p, stage);
    }

    /// Point the stage at a newly committed transcript. The file before it
    /// stays addressable through its own reference.
    pub fn record_transcript_revision(&mut self, kind: StageKind, artifact: ArtifactRef) -> (result:
        DomainResult<()>)
        ensures
            moves(result, old(self)@, final(self)@, old(self)@.revision_recorded(kind, artifact)),
    {
        if artifact.stage != kind {
            return Err(DomainError::invalid("transcript revision artifact stage does not match"));
        }
        let p: usize = self.stage_index(kind)?;
        let mut stage = self.stages[p].clone();
        if !stage.status.is_terminal() {
            return Err(
                DomainError::illegal("Stage", stage.status.name(), "record_transcript_revision"),
            );
        }
        stage.artifact = Some(artifact);
        self.stages.set(p, stage);
        Ok(())
    }

    pub fn start(&mut self) -> (result: DomainResult<()>)
        ensures
            moves(result, old(self)@, final(self)@, old(self)@.started()),
    {
        if self.status != JobStatus::Pending {
            return Err(DomainError::illegal("Job", self.status.name(), "Running"));
        }
        self.status = JobStatus::Running;
        Ok(())
    }

    fn enter_stage(&mut self, kind: StageKind, verb: &str, status: StageStatus) -> (result:
        DomainResult<()>)
        ensures
            moves(result, old(self)@, final(self)@, old(self)@.entered(kind, verb@, status)),
    {
        if self.status != JobStatus::Running {
            let to = joined(verb, kind.name());
            return Err(DomainError::illegal("Job", self.status.name(), to.as_str()));
        }
        let p: usize = self.stage_index(kind)?;
        if p > 0 && !self.stages[p - 1].status.prerequisite_satisfied() {
            let mut text = joined("stage ", kind.name());
            text.append(" prerequisite is not complete");
            return Err(DomainError::InvalidArgument(text));
        }
        if self.stages[p].status != StageStatus::Pending {
            return Err(DomainError::illegal("Stage", self.stages[p].status.name(), status.name()));
        }
        self.set_status(p, status);
        Ok(())
    }

    pub fn start_stage(&mut self, kind: StageKind) -> (result: DomainResult<()>)
        ensures
            moves(result, old(self)@, final(self)@, old(self)@.stage_started(kind)),
    {
        self.enter_stage(kind, "start_", StageStatus::Running)
    }

    pub fn skip_stage(&mut self, kind: StageKind) -> (result: DomainResult<()>)
        ensures
            moves(result, old(self)@, final(self)@, old(self)@.stage_skipped(kind)),
    {
        self.enter_stage(kind, "skip_", StageStatus::Skipped)
    }

    pub fn complete_stage(&mut self, kind: StageKind, artifact: ArtifactRef, degraded: bool) -> (result:
        DomainResult<()>)
        ensures
            moves(
                result,
                old(self)@,
                final(self)@,
                old(self)@.stage_completed(kind, artifact, degraded),
            ),
    {
        let p: usize = self.stage_index(kind)?;
        let status = self.stages[p].status;
        if status != StageStatus::Running {
            return Err(DomainError::illegal("Stage", status.name(), "Done"));
        }
        if artifact.stage != kind {
            return Err(DomainError::invalid("artifact stage does not match the completed stage"));
        }
        let ended = if degraded {
            StageStatus::DoneDegraded
        } else {
            StageStatus::Done
        };
        let stage = StageState {
            kind: self.stages[p].kind,
            status: ended,
            artifact: Some(artifact),
        };
        self.stages.set(p, stage);
        Ok(())
    }

    pub fn fail_stage(&mut self, kind: StageKind) -> (result: DomainResult<()>)
        ensures
            moves(result, old(self)@, final(self)@, old(self)@.stage_failed(kind)),
    {
        let p: usize = self.stage_index(kind)?;
        let status = self.stages[p].status;
        if !status.is_in_flight() {
            return Err(DomainError::illegal("Stage", status.name(), "Failed"));
        }
        self.set_status(p, StageStatus::Failed);
        self.status = JobStatus::Failed;
        Ok(())
    }

    fn has_stage_in(&self, status: StageStatus) -> (answer: bool)
        ensures
            answer == some_stage(self@.stages, status),
    {
        let mut i: usize = 0;
        while i < self.stages.len()
            invariant
                i <= self.stages.len(),
                forall|k: int| 0 <= k < i ==> (#[trigger] self@.stages[k]).status != status,
            decreases self.stages.len() - i,
        {
            if self.stages[i].status == status {
                assert(self@.stages[i as int].status == status);
                return true;
            }
            i += 1;
        }
        false
    }

    fn stages_ended(&self) -> (answer: bool)
        ensures
            answer == all_ended(self@.stages),
    {
        let mut i: usize = 0;
        while i < self.stages.len()
            invariant
                i <= self.stages.len(),
                forall|k: int| 0 <= k < i ==> (#[trigger] self@.stages[k]).status.terminal(),
            decreases self.stages.len() - i,
        {
            if !self.stages[i].status.is_terminal() {
                assert(!self@.stages[i as int].status.terminal());
                return false;
            }
            i += 1;
        }
        true
    }

    /// End the job when every stage has ended.
    pub fn finish(&mut self) -> (result: DomainResult<()>)
        ensures
            moves(result, old(self)@, final(self)@, old(self)@.finished()),
    {
        if self.status != JobStatus::Running {
            return Err(DomainError::illegal("Job", self.status.name(), "terminal"));
        }
        if !self.stages_ended() {
            return Err(
                DomainError::invalid("all job stages must be terminal before the job finishes"),
            );
        }
        if self.has_stage_in(StageStatus::Failed) {
            self.status = JobStatus::Failed;
        } else if self.has_stage_in(StageStatus::DoneDegraded) {
            self.status = JobStatus::DoneDegraded;
        } else if self.has_stage_in(StageStatus::Cancelled) {
            self.status = JobStatus::Cancelled;
        } else {
            self.status = JobStatus::Done;
        }
        Ok(())
    }

    fn move_in_flight(&mut self, status: StageStatus)
        ensures
            final(self)@ == (JobView {
                stages: in_flight_to(old(self)@.stages, status),
                ..old(self)@
            }),
    {
        let ghost before = self@;
        let mut i: usize = 0;
        while i < self.stages.len()
            invariant
                i <= self.stages.len(),
                self@ == (JobView { stages: self@.stages, ..before }),
                self@.stages.len() == before.stages.len(),
                forall|k: int|
                    0 <= k < self@.stages.len() ==> #[trigger] self@.stages[k] == (if k < i {
                        in_flight_to(before.stages, status)[k]
                    } else {
                        before.stages[k]
                    }),
            decreases self.stages.len() - i,
        {
            if self.stages[i].status.is_in_flight() {
                self.set_status(i, status);
            }
            i += 1;
        }
        assert(self@.stages =~= in_flight_to(before.stages, status));
    }

    fn reset_stages(&mut self, start: usize)
        ensures
            final(self)@ == (JobView {
                stages: reset_from(old(self)@.stages, start as int),
                ..old(self)@
            }),
    {
        let ghost before = self@;
        let mut i: usize = start;
        while i < self.stages.len()
            invariant
                start <= i,
                self@ == (JobView { stages: self@.stages, ..before }),
                self@.stages.len() == before.stages.len(),
                forall|k: int|
                    0 <= k < self@.stages.len() ==> #[trigger] self@.stages[k] == (if k < i {
                        reset_from(before.stages, start as int)[k]
                    } else {
                        before.stages[k]
                    }),
            decreases self.stages.len() - i,
        {
            let stage = new_stage(self.stages[i].kind);
            self.stages.set(i, stage);
            i += 1;
        }
        assert(self@.stages =~= reset_from(before.stages, start as int));
    }

    /// Turn a job in flight into one that can be started again after the
    /// process has died. Completed stages and their artifacts stay.
    pub fn recover_after_restart(&mut self) -> (result: DomainResult<()>)
        ensures
            result is Ok,
            final(self)@ == old(self)@.recovered(),
    {
        if self.status != JobStatus::Running {
            return Ok(());
        }
        self.move_in_flight(StageStatus::Pending);
        self.status = JobStatus::Pending;
        Ok(())
    }

    /// Forget this stage and every later one, because its artifact could not
    /// be verified.
    pub fn invalidate_stage_for_recovery(&mut self, kind: StageKind) -> (result: DomainResult<()>)
        ensures
            moves(result, old(self)@, final(self)@, old(self)@.invalidated(kind)),
    {
        let p: usize = self.stage_index(kind)?;
        self.reset_stages(p);
        self.status = JobStatus::Pending;
        Ok(())
    }

    pub fn cancel(&mut self) -> (result: DomainResult<()>)
        ensures
            moves(result, old(self)@, final(self)@, old(self)@.cancelled()),
    {
        if self.status.is_terminal() {
            return Err(DomainError::AlreadyTerminal { aggregate: "Job" });
        }
        let ghost before = self@;
        let mut i: usize = 0;
        while i < self.stages.len()
            invariant
                i <= self.stages.len(),
                self@ == (JobView { stages: self@.stages, ..before }),
                self@.stages.len() == before.stages.len(),
                forall|k: int|
                    0 <= k < self@.stages.len() ==> #[trigger] self@.stages[k] == (if k < i {
                        open_to_cancelled(before.stages)[k]
                    } else {
                        before.stages[k]
                    }),
            decreases self.stages.len() - i,
        {
            if !self.stages[i].status.is_terminal() {
                self.set_status(i, StageStatus::Cancelled);
            }
            i += 1;
        }
        assert(self@.stages =~= open_to_cancelled(before.stages));
        self.status = JobStatus::Cancelled;
        Ok(())
    }

    /// Ask for cancellation. The owner of the job acts on it at the next
    /// boundary between two pieces of work.
    pub fn request_cancel(&mut self) -> (result: DomainResult<()>)
        ensures
            moves(result, old(self)@, final(self)@, old(self)@.cancel_asked()),
    {
        if self.status.is_terminal() {
            return Err(DomainError::AlreadyTerminal { aggregate: "Job" });
        }
        self.cancel_requested = true;
        Ok(())
    }

    /// End the job as failed, with whatever stage was in flight.
    pub fn fail(&mut self) -> (result: DomainResult<()>)
        ensures
            moves(result, old(self)@, final(self)@, old(self)@.failed()),
    {
        if self.status.is_terminal() {
            return Err(DomainError::AlreadyTerminal { aggregate: "Job" });
        }
        self.move_in_flight(StageStatus::Failed);
        self.status = JobStatus::Failed;
        Ok(())
    }

    /// Prepare an explicit retry. The stages in front of the one it begins at
    /// stay reusable, that one and all later ones are forgotten. Without a
    /// chosen stage it begins at the first that failed, was cancelled or waits
    /// for a provider; there is no fallback to the beginning.
    pub fn prepare_retry(&mut self, from_stage: Option<StageKind>) -> (result: DomainResult<
        StageKind,
    >)
        ensures
            moves_with(result, old(self)@, final(self)@, old(self)@.retried(from_stage)),
    {
        if !matches!(
            self.status,
            JobStatus::Failed | JobStatus::DoneDegraded | JobStatus::Cancelled
        ) {
            return Err(DomainError::illegal("Job", self.status.name(), "retry"));
        }
        let p: usize = match from_stage {
            Some(kind) => self.stage_index(kind)?,
            None => {
                let mut i: usize = 0;
                while i < self.stages.len() && !self.stages[i].status.is_retry_start()
                    invariant
                        i <= self.stages.len(),
                        retry_position(self@.stages, 0) == retry_position(
                            self@.stages,
                            i as int,
                        ),
                    decreases self.stages.len() - i,
                {
                    i += 1;
                }
                if i >= self.stages.len() {
                    return Err(
                        DomainError::invalid(
                            "prepare_retry requires from_stage when no failed stage is present",
                        ),
                    );
                }
                i
            },
        };
        let kind = self.stages[p].kind;
        self.reset_stages(p);
        self.cancel_requested = false;
        self.retry_attempt = self.retry_attempt.saturating_add(1);
        self.retry_generation = self.retry_generation.saturating_add(1);
        self.status = JobStatus::Pending;
        Ok(kind)
    }
}

} // verus!
