//! Events of the workflow aggregates.
use vstd::prelude::*;

use crate::identity::BatchId;

use super::batch::BatchStatus;
use super::stage::JobStatus;

verus! {

#[derive(Debug, PartialEq, Eq)]
pub enum DomainEvent {
    BatchReachedTerminal { batch_id: BatchId, status: BatchStatus },
}

/// How a job ended.
#[derive(Debug, Clone, Copy, PartialEq, Eq, Structural)]
pub enum JobTerminalStatus {
    Done,
    DoneDegraded,
    Failed,
    Cancelled,
}

/// How a job with this status counts at the end of its run. A job that never
/// reached an end of its own counts as failed.
pub open spec fn ended_as(status: JobStatus) -> JobTerminalStatus {
    match status {
        JobStatus::Done => JobTerminalStatus::Done,
        JobStatus::DoneDegraded => JobTerminalStatus::DoneDegraded,
        JobStatus::Failed => JobTerminalStatus::Failed,
        JobStatus::Cancelled => JobTerminalStatus::Cancelled,
        JobStatus::Pending | JobStatus::Running => JobTerminalStatus::Failed,
    }
}

pub fn terminal_status(status: JobStatus) -> (ended: JobTerminalStatus)
    ensures
        ended == ended_as(status),
{
    match status {
        JobStatus::Done => JobTerminalStatus::Done,
        JobStatus::DoneDegraded => JobTerminalStatus::DoneDegraded,
        JobStatus::Failed => JobTerminalStatus::Failed,
        JobStatus::Cancelled => JobTerminalStatus::Cancelled,
        JobStatus::Pending | JobStatus::Running => JobTerminalStatus::Failed,
    }
}

} // verus!
