//! What is put in order before new work is taken: jobs and batches whose owner
//! is gone can be started again.
use vstd::prelude::*;

use crate::contracts::{AppResult, ApplicationError, ApplicationErrorView};
use crate::workflow::batch::{Batch, BatchStatus, BatchView};
use crate::workflow::job::{Job, JobView};
use crate::workflow::stage::{JobStatus, StageStatus};

verus! {

/// Files that were found in disorder.
#[derive(Debug, PartialEq, Eq)]
pub struct ArtifactRecoveryReport {
    pub partial_files: Vec<String>,
    pub orphan_files: Vec<String>,
    pub corrupt_artifacts: Vec<String>,
}

/// What was put in order.
#[derive(Debug, PartialEq, Eq)]
pub struct RecoveryReport {
    pub artifacts: ArtifactRecoveryReport,
    pub expired_work_units: u32,
    pub recovered_jobs: u32,
    pub recovered_batches: u32,
    pub pending_outbox_events: u32,
}

pub open spec fn job_views(jobs: Seq<Job>) -> Seq<JobView> {
    Seq::new(jobs.len(), |i: int| jobs[i]@)
}

/// The running ones of the first `n` jobs, as they are after a restart.
pub open spec fn recovered_jobs(jobs: Seq<JobView>, n: int) -> Seq<JobView>
    decreases n,
{
    if n <= 0 {
        seq![]
    } else if jobs[n - 1].status == JobStatus::Running {
        recovered_jobs(jobs, n - 1).push(jobs[n - 1].recovered())
    } else {
        recovered_jobs(jobs, n - 1)
    }
}

/// The jobs to be stored: those that were running, ready to be started again.
pub fn recover_jobs(jobs: &Vec<Job>) -> (stored: Vec<Job>)
    ensures
        job_views(stored@) == recovered_jobs(job_views(jobs@), jobs@.len() as int),
        stored@.len() <= jobs@.len(),
{
    let mut stored: Vec<Job> = Vec::new();
    let mut i: usize = 0;
    assert(job_views(stored@) =~= seq![]);
    while i < jobs.len()
        invariant
            i <= jobs.len(),
            stored@.len() <= i,
            job_views(stored@) == recovered_jobs(job_views(jobs@), i as int),
        decreases jobs.len() - i,
    {
        if jobs[i].status() == JobStatus::Running {
            let mut job = jobs[i].clone();
            let _ = job.recover_after_restart();
            let ghost before = stored@;
            stored.push(job);
            assert(job_views(stored@) =~= job_views(before).push(job@));
        }
        i += 1;
    }
    stored
}

pub open spec fn batch_views(batches: Seq<Batch>) -> Seq<BatchView> {
    Seq::new(batches.len(), |i: int| batches[i]@)
}

/// The running ones of the first `n` batches, as they are after a restart.
pub open spec fn recovered_batches(batches: Seq<BatchView>, n: int) -> Seq<BatchView>
    decreases n,
{
    if n <= 0 {
        seq![]
    } else if batches[n - 1].status == BatchStatus::Running {
        recovered_batches(batches, n - 1).push(batches[n - 1].recovered())
    } else {
        recovered_batches(batches, n - 1)
    }
}

/// The batches to be stored: those that were running, ready to be resumed.
pub fn recover_batches(batches: &Vec<Batch>) -> (stored: Vec<Batch>)
    ensures
        batch_views(stored@) == recovered_batches(batch_views(batches@), batches@.len() as int),
        stored@.len() <= batches@.len(),
{
    let mut stored: Vec<Batch> = Vec::new();
    let mut i: usize = 0;
    assert(batch_views(stored@) =~= seq![]);
    while i < batches.len()
        invariant
            i <= batches.len(),
            stored@.len() <= i,
            batch_views(stored@) == recovered_batches(batch_views(batches@), i as int),
        decreases batches.len() - i,
    {
        if batches[i].status() == BatchStatus::Running {
            let mut batch = batches[i].clone();
            let _ = batch.recover_after_restart();
            let ghost before = stored@;
            stored.push(batch);
            assert(batch_views(stored@) =~= batch_views(before).push(batch@));
        }
        i += 1;
    }
    stored
}

/// The number of notes that were not delivered.
pub fn pending_count(events: usize) -> (result: AppResult<u32>)
    ensures
        match result {
            Ok(n) => n == events,
            Err(error) => events > u32::MAX && error@ == ApplicationErrorView::Invalid(
                "pending outbox event count exceeds u32"@,
            ),
        },
{
    if events > 0xFFFF_FFFF {
        return Err(ApplicationError::invalid("pending outbox event count exceeds u32"));
    }
    Ok(events as u32)
}

/// A clock reading in milliseconds since 1970; none is before that.
pub fn clock_ms(millis: i64) -> (now_ms: u64)
    ensures
        now_ms == (if millis < 0 {
            0
        } else {
            millis as int
        }),
{
    if millis < 0 {
        0
    } else {
        millis as u64
    }
}

/// The report of what was put in order.
pub fn recovery_report(
    artifacts: ArtifactRecoveryReport,
    expired_work_units: u32,
    jobs: &Vec<Job>,
    batches: &Vec<Batch>,
    pending_outbox_events: u32,
) -> (report: RecoveryReport)
    requires
        jobs@.len() <= u32::MAX,
        batches@.len() <= u32::MAX,
    ensures
        report.artifacts == artifacts,
        report.expired_work_units == expired_work_units,
        report.recovered_jobs == jobs@.len(),
        report.recovered_batches == batches@.len(),
        report.pending_outbox_events == pending_outbox_events,
{
    RecoveryReport {
        artifacts,
        expired_work_units,
        recovered_jobs: jobs.len() as u32,
        recovered_batches: batches.len() as u32,
        pending_outbox_events,
    }
}

/// After a restart nothing that was recovered is running, and what was recovered
/// once is not recovered again.
pub proof fn law_nothing_runs_after_recovery(jobs: Seq<JobView>, batches: Seq<BatchView>)
    ensures
        forall|i: int|
            0 <= i < recovered_jobs(jobs, jobs.len() as int).len() ==> (
            #[trigger] recovered_jobs(jobs, jobs.len() as int)[i]).status == JobStatus::Pending,
        forall|i: int|
            0 <= i < recovered_batches(batches, batches.len() as int).len() ==> (
            #[trigger] recovered_batches(batches, batches.len() as int)[i]).status
                == BatchStatus::Pending,
{
    lemma_recovered_jobs_wait(jobs, jobs.len() as int);
    lemma_recovered_batches_wait(batches, batches.len() as int);
}

proof fn lemma_recovered_jobs_wait(jobs: Seq<JobView>, n: int)
    ensures
        forall|i: int|
            0 <= i < recovered_jobs(jobs, n).len() ==> (#[trigger] recovered_jobs(jobs, n)[i]).status
                == JobStatus::Pending,
    decreases n,
{
    if n > 0 {
        lemma_recovered_jobs_wait(jobs, n - 1);
    }
}

proof fn lemma_recovered_batches_wait(batches: Seq<BatchView>, n: int)
    ensures
        forall|i: int|
            0 <= i < recovered_batches(batches, n).len() ==> (
            #[trigger] recovered_batches(batches, n)[i]).status == BatchStatus::Pending,
    decreases n,
{
    if n > 0 {
        lemma_recovered_batches_wait(batches, n - 1);
    }
}

/// A job that was running waits again: its stages in work wait, its other stages
/// stay. Only running jobs are written back, in their order.
pub proof fn law_running_jobs_are_recovered(jobs: Seq<JobView>, next: JobView)
    ensures
        recovered_jobs(seq![], 0) == Seq::<JobView>::empty(),
        next.status != JobStatus::Running ==> recovered_jobs(
            jobs.push(next),
            jobs.len() as int + 1,
        ) == recovered_jobs(jobs, jobs.len() as int),
        next.status == JobStatus::Running ==> {
            let before = recovered_jobs(jobs, jobs.len() as int);
            let after = recovered_jobs(jobs.push(next), jobs.len() as int + 1);
            &&& after.len() == before.len() + 1
            &&& after.drop_last() == before
            &&& after.last().id == next.id
            &&& after.last().status == JobStatus::Pending
            &&& after.last().stages.len() == next.stages.len()
            &&& forall|i: int|
                0 <= i < next.stages.len() ==> (#[trigger] after.last().stages[i]).status == (
                if next.stages[i].status == StageStatus::Running || next.stages[i].status
                    == StageStatus::Retrying {
                    StageStatus::Pending
                } else {
                    next.stages[i].status
                }) && after.last().stages[i].artifact == next.stages[i].artifact
        },
{
    lemma_recovered_job_prefix(jobs, jobs.push(next), jobs.len() as int);
    let before = recovered_jobs(jobs, jobs.len() as int);
    assert(before.push(next.recovered()).drop_last() =~= before);
}

proof fn lemma_recovered_job_prefix(a: Seq<JobView>, b: Seq<JobView>, n: int)
    requires
        n <= a.len() <= b.len(),
        forall|i: int| 0 <= i < a.len() ==> a[i] == b[i],
    ensures
        recovered_jobs(a, n) == recovered_jobs(b, n),
    decreases n,
{
    if n > 0 {
        lemma_recovered_job_prefix(a, b, n - 1);
    }
}

/// A batch that was running waits again with everything else as it was, and only
/// running batches are written back.
pub proof fn law_running_batches_are_recovered(batches: Seq<BatchView>, next: BatchView)
    ensures
        recovered_batches(seq![], 0) == Seq::<BatchView>::empty(),
        next.status == BatchStatus::Running ==> recovered_batches(
            batches.push(next),
            batches.len() as int + 1,
        ) == recovered_batches(batches, batches.len() as int).push(
            BatchView { status: BatchStatus::Pending, ..next },
        ),
        next.status != BatchStatus::Running ==> recovered_batches(
            batches.push(next),
            batches.len() as int + 1,
        ) == recovered_batches(batches, batches.len() as int),
{
    lemma_recovered_prefix(batches, batches.push(next), batches.len() as int);
}

proof fn lemma_recovered_prefix(a: Seq<BatchView>, b: Seq<BatchView>, n: int)
    requires
        n <= a.len() <= b.len(),
        forall|i: int| 0 <= i < a.len() ==> a[i] == b[i],
    ensures
        recovered_batches(a, n) == recovered_batches(b, n),
    decreases n,
{
    if n > 0 {
        lemma_recovered_prefix(a, b, n - 1);
    }
}

} // verus!
