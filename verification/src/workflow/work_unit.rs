//! The smallest piece of work that is leased, retried and committed by itself.
use vstd::prelude::*;
use vstd::string::*;

use crate::error::{moves, moves_with, DomainError, DomainErrorView, DomainResult};
use crate::identity::{JobId, WorkUnitId};
use crate::text::same_text;

use super::job::counted;
use super::stage::{ArtifactRef, StageKind};

verus! {

/// How often a failed unit goes back to the queue by itself.
pub const WORK_UNIT_DEFAULT_AUTO_RETRIES: u32 = 2;

/// How often a unit may run again under a strategy that needs less memory.
pub const WORK_UNIT_OOM_STRATEGY_RETRIES: u32 = 1;

#[derive(Debug, Clone, Copy, PartialEq, Eq, Structural)]
pub enum WorkUnitStatus {
    Pending,
    Running,
    Done,
    Failed,
    Cancelled,
}

impl WorkUnitStatus {
    pub open spec fn terminal(self) -> bool {
        self != WorkUnitStatus::Pending && self != WorkUnitStatus::Running
    }

    pub fn is_terminal(self) -> (answer: bool)
        ensures
            answer == self.terminal(),
    {
        matches!(self, WorkUnitStatus::Done | WorkUnitStatus::Failed | WorkUnitStatus::Cancelled)
    }

    /// The name of the variant.
    pub open spec fn name_text(self) -> Seq<char> {
        match self {
            WorkUnitStatus::Pending => "Pending"@,
            WorkUnitStatus::Running => "Running"@,
            WorkUnitStatus::Done => "Done"@,
            WorkUnitStatus::Failed => "Failed"@,
            WorkUnitStatus::Cancelled => "Cancelled"@,
        }
    }

    pub fn name(self) -> (name: &'static str)
        ensures
            name@ == self.name_text(),
    {
        match self {
            WorkUnitStatus::Pending => "Pending",
            WorkUnitStatus::Running => "Running",
            WorkUnitStatus::Done => "Done",
            WorkUnitStatus::Failed => "Failed",
            WorkUnitStatus::Cancelled => "Cancelled",
        }
    }
}

#[derive(Debug, PartialEq, Eq)]
pub struct Lease {
    pub owner: String,
    pub expires_at_ms: u64,
}

impl Clone for Lease {
    fn clone(&self) -> (copy: Self)
        ensures
            copy == *self,
    {
        Lease { owner: self.owner.clone(), expires_at_ms: self.expires_at_ms }
    }
}

#[derive(Debug, PartialEq, Eq)]
pub struct WorkUnit {
    id: WorkUnitId,
    job_id: JobId,
    stage: StageKind,
    unit_kind: String,
    unit_index: u32,
    input_hash: String,
    status: WorkUnitStatus,
    attempt: u32,
    lease: Option<Lease>,
    error_code: Option<String>,
    artifact: Option<ArtifactRef>,
    oom_strategy_retries: u32,
}

/// Who holds a unit, and until when.
pub struct LeaseView {
    pub owner: Seq<char>,
    pub expires_at_ms: u64,
}

/// The state of a work unit.
pub struct WorkUnitView {
    pub id: WorkUnitId,
    pub job_id: JobId,
    pub stage: StageKind,
    pub unit_kind: Seq<char>,
    pub unit_index: u32,
    pub input_hash: Seq<char>,
    pub status: WorkUnitStatus,
    pub attempt: u32,
    pub lease: Option<LeaseView>,
    pub error_code: Option<Seq<char>>,
    pub artifact: Option<ArtifactRef>,
    pub oom_strategy_retries: u32,
}

impl View for WorkUnit {
    type V = WorkUnitView;

    closed spec fn view(&self) -> WorkUnitView {
        WorkUnitView {
            id: self.id,
            job_id: self.job_id,
            stage: self.stage,
            unit_kind: self.unit_kind@,
            unit_index: self.unit_index,
            input_hash: self.input_hash@,
            status: self.status,
            attempt: self.attempt,
            lease: match self.lease {
                Some(lease) => Some(
                    LeaseView { owner: lease.owner@, expires_at_ms: lease.expires_at_ms },
                ),
                None => None,
            },
            error_code: match self.error_code {
                Some(code) => Some(code@),
                None => None,
            },
            artifact: self.artifact,
            oom_strategy_retries: self.oom_strategy_retries,
        }
    }
}

/// The error would come again on the same input.
pub open spec fn deterministic_error(code: Seq<char>) -> bool {
    code == "WORKER_PROTOCOL_ERROR"@
}

pub fn is_deterministic_work_unit_error(code: &str) -> (answer: bool)
    ensures
        answer == deterministic_error(code@),
{
    same_text(code, "WORKER_PROTOCOL_ERROR")
}

pub open spec fn illegal_unit(from: WorkUnitStatus, to: Seq<char>) -> DomainErrorView {
    DomainErrorView::IllegalTransition { aggregate: "WorkUnit"@, from: from.name_text(), to }
}

impl WorkUnitView {
    /// A fresh unit.
    pub open spec fn fresh(
        id: WorkUnitId,
        job_id: JobId,
        stage: StageKind,
        unit_kind: Seq<char>,
        unit_index: u32,
        input_hash: Seq<char>,
    ) -> WorkUnitView {
        WorkUnitView {
            id,
            job_id,
            stage,
            unit_kind,
            unit_index,
            input_hash,
            status: WorkUnitStatus::Pending,
            attempt: 0,
            lease: None,
            error_code: None,
            artifact: None,
            oom_strategy_retries: 0,
        }
    }

    pub open spec fn leased(self, owner: Seq<char>, now_ms: u64, expires_at_ms: u64) -> Result<
        WorkUnitView,
        DomainErrorView,
    > {
        if self.status != WorkUnitStatus::Pending {
            Err(illegal_unit(self.status, "Running"@))
        } else if expires_at_ms <= now_ms {
            Err(DomainErrorView::InvalidArgument("work unit lease must expire in the future"@))
        } else {
            Ok(
                WorkUnitView {
                    status: WorkUnitStatus::Running,
                    lease: Some(LeaseView { owner, expires_at_ms }),
                    ..self
                },
            )
        }
    }

    pub open spec fn completed(self, artifact: ArtifactRef) -> Result<
        WorkUnitView,
        DomainErrorView,
    > {
        if self.status != WorkUnitStatus::Running {
            Err(illegal_unit(self.status, "Done"@))
        } else if self.lease is None {
            Err(DomainErrorView::LeaseRequired)
        } else if artifact.stage != self.stage {
            Err(DomainErrorView::InvalidArgument("artifact stage does not match work unit stage"@))
        } else {
            Ok(
                WorkUnitView {
                    status: WorkUnitStatus::Done,
                    lease: None,
                    artifact: Some(artifact),
                    error_code: None,
                    ..self
                },
            )
        }
    }

    pub open spec fn failed(self, code: Seq<char>) -> Result<WorkUnitView, DomainErrorView> {
        if self.status != WorkUnitStatus::Running {
            Err(illegal_unit(self.status, "Failed"@))
        } else {
            Ok(
                WorkUnitView {
                    status: WorkUnitStatus::Failed,
                    lease: None,
                    error_code: Some(code),
                    ..self
                },
            )
        }
    }

    /// The failure may pass by itself, and the unit has attempts left.
    pub open spec fn goes_back(self, code: Seq<char>) -> bool {
        !deterministic_error(code) && self.attempt < WORK_UNIT_DEFAULT_AUTO_RETRIES
    }

    pub open spec fn failed_or_requeued(self, code: Seq<char>) -> Result<
        (WorkUnitView, bool),
        DomainErrorView,
    > {
        if self.status != WorkUnitStatus::Running {
            Err(illegal_unit(self.status, "Failed"@))
        } else if self.goes_back(code) {
            Ok(
                (
                    WorkUnitView {
                        status: WorkUnitStatus::Pending,
                        lease: None,
                        error_code: Some(code),
                        attempt: (self.attempt + 1) as u32,
                        ..self
                    },
                    true,
                ),
            )
        } else {
            Ok(
                (
                    WorkUnitView {
                        status: WorkUnitStatus::Failed,
                        lease: None,
                        error_code: Some(code),
                        ..self
                    },
                    false,
                ),
            )
        }
    }

    pub open spec fn requeued_for_memory(self) -> Result<(WorkUnitView, bool), DomainErrorView> {
        if self.status != WorkUnitStatus::Running {
            Err(illegal_unit(self.status, "Pending"@))
        } else if self.oom_strategy_retries < WORK_UNIT_OOM_STRATEGY_RETRIES {
            Ok(
                (
                    WorkUnitView {
                        status: WorkUnitStatus::Pending,
                        lease: None,
                        oom_strategy_retries: (self.oom_strategy_retries + 1) as u32,
                        ..self
                    },
                    true,
                ),
            )
        } else {
            Ok((WorkUnitView { status: WorkUnitStatus::Failed, lease: None, ..self }, false))
        }
    }

    pub open spec fn cancelled(self) -> Result<WorkUnitView, DomainErrorView> {
        if self.status.terminal() {
            Err(DomainErrorView::AlreadyTerminal { aggregate: "WorkUnit"@ })
        } else {
            Ok(WorkUnitView { status: WorkUnitStatus::Cancelled, lease: None, ..self })
        }
    }

    pub open spec fn recovered(self, now_ms: u64) -> Result<WorkUnitView, DomainErrorView> {
        match self.lease {
            None => Err(DomainErrorView::LeaseRequired),
            Some(lease) => if self.status != WorkUnitStatus::Running || lease.expires_at_ms > now_ms {
                Err(DomainErrorView::LeaseConflict("work unit lease has not expired"@))
            } else {
                Ok(
                    WorkUnitView {
                        status: WorkUnitStatus::Pending,
                        lease: None,
                        attempt: counted(self.attempt),
                        ..self
                    },
                )
            },
        }
    }

    pub open spec fn invalidated(self, code: Seq<char>) -> WorkUnitView {
        WorkUnitView {
            status: WorkUnitStatus::Pending,
            lease: None,
            artifact: None,
            error_code: Some(code),
            ..self
        }
    }

    pub open spec fn retried(self) -> Result<WorkUnitView, DomainErrorView> {
        if self.status != WorkUnitStatus::Failed && self.status != WorkUnitStatus::Cancelled {
            Err(illegal_unit(self.status, "Pending"@))
        } else {
            Ok(
                WorkUnitView {
                    status: WorkUnitStatus::Pending,
                    attempt: counted(self.attempt),
                    error_code: None,
                    artifact: None,
                    ..self
                },
            )
        }
    }
}

impl Clone for WorkUnit {
    fn clone(&self) -> (copy: Self)
        ensures
            copy@ == self@,
    {
        WorkUnit {
            id: self.id.clone(),
            job_id: self.job_id.clone(),
            stage: self.stage,
            unit_kind: self.unit_kind.clone(),
            unit_index: self.unit_index,
            input_hash: self.input_hash.clone(),
            status: self.status,
            attempt: self.attempt,
            lease: self.lease.clone(),
            error_code: self.error_code.clone(),
            artifact: self.artifact.clone(),
            oom_strategy_retries: self.oom_strategy_retries,
        }
    }
}

impl WorkUnit {
    pub fn new(
        id: WorkUnitId,
        job_id: JobId,
        stage: StageKind,
        unit_kind: &str,
        unit_index: u32,
        input_hash: &str,
    ) -> (result: DomainResult<Self>)
        ensures
            match result {
                Ok(unit) => input_hash@.len() > 0 && unit@ == WorkUnitView::fresh(
                    id,
                    job_id,
                    stage,
                    unit_kind@,
                    unit_index,
                    input_hash@,
                ),
                Err(error) => input_hash@.len() == 0 && error@ == DomainErrorView::InvalidArgument(
                    "work unit input hash cannot be empty"@,
                ),
            },
    {
        if input_hash.is_empty() {
            return Err(DomainError::invalid("work unit input hash cannot be empty"));
        }
        Ok(
            WorkUnit {
                id,
                job_id,
                stage,
                unit_kind: unit_kind.to_owned(),
                unit_index,
                input_hash: input_hash.to_owned(),
                status: WorkUnitStatus::Pending,
                attempt: 0,
                lease: None,
                error_code: None,
                artifact: None,
                oom_strategy_retries: 0,
            },
        )
    }

    pub fn id(&self) -> (id: &WorkUnitId)
        ensures
            *id == self@.id,
    {
        &self.id
    }

    pub fn job_id(&self) -> (id: &JobId)
        ensures
            *id == self@.job_id,
    {
        &self.job_id
    }

    pub fn stage(&self) -> (stage: StageKind)
        ensures
            stage == self@.stage,
    {
        self.stage
    }

    pub fn unit_kind(&self) -> (kind: &str)
        ensures
            kind@ == self@.unit_kind,
    {
        self.unit_kind.as_str()
    }

    pub fn unit_index(&self) -> (index: u32)
        ensures
            index == self@.unit_index,
    {
        self.unit_index
    }

    pub fn input_hash(&self) -> (hash: &str)
        ensures
            hash@ == self@.input_hash,
    {
        self.input_hash.as_str()
    }

    pub fn status(&self) -> (status: WorkUnitStatus)
        ensures
            status == self@.status,
    {
        self.status
    }

    pub fn attempt(&self) -> (attempt: u32)
        ensures
            attempt == self@.attempt,
    {
        self.attempt
    }

    pub fn oom_strategy_retries(&self) -> (n: u32)
        ensures
            n == self@.oom_strategy_retries,
    {
        self.oom_strategy_retries
    }

    pub fn lease(&self) -> (lease: Option<&Lease>)
        ensures
            match lease {
                Some(lease) => self@.lease == Some(
                    LeaseView { owner: lease.owner@, expires_at_ms: lease.expires_at_ms },
                ),
                None => self@.lease is None,
            },
    {
        self.lease.as_ref()
    }

    pub fn artifact(&self) -> (artifact: Option<&ArtifactRef>)
        ensures
            match artifact {
                Some(artifact) => self@.artifact == Some(*artifact),
                None => self@.artifact is None,
            },
    {
        self.artifact.as_ref()
    }

    pub fn lease_for(&mut self, owner: &str, now_ms: u64, expires_at_ms: u64) -> (result:
        DomainResult<()>)
        ensures
            moves(
                result,
                old(self)@,
                final(self)@,
                old(self)@.leased(owner@, now_ms, expires_at_ms),
            ),
    {
        if self.status != WorkUnitStatus::Pending {
            return Err(DomainError::illegal("WorkUnit", self.status.name(), "Running"));
        }
        if expires_at_ms <= now_ms {
            return Err(DomainError::invalid("work unit lease must expire in the future"));
        }
        self.status = WorkUnitStatus::Running;
        self.lease = Some(Lease { owner: owner.to_owned(), expires_at_ms });
        Ok(())
    }

    pub fn complete(&mut self, artifact: ArtifactRef) -> (result: DomainResult<()>)
        ensures
            moves(result, old(self)@, final(self)@, old(self)@.completed(artifact)),
    {
        if self.status != WorkUnitStatus::Running {
            return Err(DomainError::illegal("WorkUnit", self.status.name(), "Done"));
        }
        if self.lease.is_none() {
            return Err(DomainError::LeaseRequired);
        }
        if artifact.stage != self.stage {
            return Err(DomainError::invalid("artifact stage does not match work unit stage"));
        }
        self.status = WorkUnitStatus::Done;
        self.lease = None;
        self.artifact = Some(artifact);
        self.error_code = None;
        Ok(())
    }

    pub fn fail(&mut self, error_code: &str) -> (result: DomainResult<()>)
        ensures
            moves(result, old(self)@, final(self)@, old(self)@.failed(error_code@)),
    {
        if self.status != WorkUnitStatus::Running {
            return Err(DomainError::illegal("WorkUnit", self.status.name(), "Failed"));
        }
        self.status = WorkUnitStatus::Failed;
        self.lease = None;
        self.error_code = Some(error_code.to_owned());
        Ok(())
    }

    /// Fail the unit, or put it back into the queue while it has attempts left
    /// and the error may pass. The answer tells whether it went back.
    pub fn fail_with_auto_retry(&mut self, error_code: &str) -> (result: DomainResult<bool>)
        ensures
            moves_with(
                result,
                old(self)@,
                final(self)@,
                old(self)@.failed_or_requeued(error_code@),
            ),
    {
        if self.status != WorkUnitStatus::Running {
            return Err(DomainError::illegal("WorkUnit", self.status.name(), "Failed"));
        }
        self.lease = None;
        self.error_code = Some(error_code.to_owned());
        if !is_deterministic_work_unit_error(error_code) && self.attempt
            < WORK_UNIT_DEFAULT_AUTO_RETRIES {
            self.status = WorkUnitStatus::Pending;
            self.attempt = self.attempt + 1;
            Ok(true)
        } else {
            self.status = WorkUnitStatus::Failed;
            Ok(false)
        }
    }

    /// Put the unit back into the queue under a strategy that needs less
    /// memory, at most once; after that it fails.
    pub fn requeue_after_oom_strategy_change(&mut self) -> (result: DomainResult<bool>)
        ensures
            moves_with(result, old(self)@, final(self)@, old(self)@.requeued_for_memory()),
    {
        if self.status != WorkUnitStatus::Running {
            return Err(DomainError::illegal("WorkUnit", self.status.name(), "Pending"));
        }
        self.lease = None;
        if self.oom_strategy_retries < WORK_UNIT_OOM_STRATEGY_RETRIES {
            self.status = WorkUnitStatus::Pending;
            self.oom_strategy_retries = self.oom_strategy_retries + 1;
            Ok(true)
        } else {
            self.status = WorkUnitStatus::Failed;
            Ok(false)
        }
    }

    pub fn cancel(&mut self) -> (result: DomainResult<()>)
        ensures
            moves(result, old(self)@, final(self)@, old(self)@.cancelled()),
    {
        if self.status.is_terminal() {
            return Err(DomainError::AlreadyTerminal { aggregate: "WorkUnit" });
        }
        self.status = WorkUnitStatus::Cancelled;
        self.lease = None;
        Ok(())
    }

    /// Take a unit back whose holder let the lease run out.
    pub fn recover_expired(&mut self, now_ms: u64) -> (result: DomainResult<()>)
        ensures
            moves(result, old(self)@, final(self)@, old(self)@.recovered(now_ms)),
    {
        match &self.lease {
            None => {
                return Err(DomainError::LeaseRequired);
            },
            Some(lease) => {
                if self.status != WorkUnitStatus::Running || lease.expires_at_ms > now_ms {
                    return Err(
                        DomainError::LeaseConflict("work unit lease has not expired".to_owned()),
                    );
                }
            },
        }
        self.status = WorkUnitStatus::Pending;
        self.lease = None;
        self.attempt = self.attempt.saturating_add(1);
        Ok(())
    }

    /// Forget a completed artifact whose file is missing or has changed.
    pub fn invalidate_artifact_for_recovery(&mut self, error_code: &str) -> (result: DomainResult<
        (),
    >)
        ensures
            result is Ok,
            final(self)@ == old(self)@.invalidated(error_code@),
    {
        self.status = WorkUnitStatus::Pending;
        self.lease = None;
        self.artifact = None;
        self.error_code = Some(error_code.to_owned());
        Ok(())
    }

    pub fn retry(&mut self) -> (result: DomainResult<()>)
        ensures
            moves(result, old(self)@, final(self)@, old(self)@.retried()),
    {
        if self.status != WorkUnitStatus::Failed && self.status != WorkUnitStatus::Cancelled {
            return Err(DomainError::illegal("WorkUnit", self.status.name(), "Pending"));
        }
        self.status = WorkUnitStatus::Pending;
        self.attempt = self.attempt.saturating_add(1);
        self.error_code = None;
        self.artifact = None;
        Ok(())
    }
}

} // verus!
