//! Lifecycles of batches, jobs, stages and work units.
pub mod batch;
pub mod event;
pub mod job;
pub mod laws;
pub mod lifecycle;
pub mod stage;
pub mod work_unit;

pub use batch::{Batch, BatchExecutionProfile, BatchStatus};
pub use event::{DomainEvent, JobTerminalStatus};
pub use job::Job;
pub use stage::{ArtifactRef, JobStatus, StageKind, StageState, StageStatus};
pub use work_unit::{
    is_deterministic_work_unit_error, Lease, WorkUnit, WorkUnitStatus,
    WORK_UNIT_DEFAULT_AUTO_RETRIES, WORK_UNIT_OOM_STRATEGY_RETRIES,
};
