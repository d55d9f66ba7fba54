//! Renewed attempts at the failed units of a job.
use vstd::prelude::*;

use crate::contracts::{AppResult, ApplicationError, ApplicationErrorView};
use crate::identity::JobId;
use crate::workflow::job::{Job, JobView};
use crate::workflow::stage::StageKind;

use super::run_batch::{about_job, job_error};

verus! {

/// What is asked for.
#[derive(Debug, PartialEq, Eq)]
pub struct RetryFailedWorkUnitsCommand {
    pub job_id: JobId,
    pub from_stage: Option<StageKind>,
    pub dry_run: bool,
}

/// What was done.
#[derive(Debug, PartialEq, Eq)]
pub struct RetryFailedWorkUnitsResponse {
    pub job_id: JobId,
    pub from_stage: Option<StageKind>,
    pub retryable_units: u32,
    pub retried_units: u32,
    pub dry_run: bool,
}

/// The job as it is to be stored, or why it cannot be tried again. A dry run is
/// refused where a real one would be.
pub open spec fn retried_job(job: Option<JobView>, command: RetryFailedWorkUnitsCommand) -> Result<
    JobView,
    ApplicationErrorView,
> {
    match job {
        None => Err(about_job(command.job_id@, " not found"@)),
        Some(job) => match job.retried(command.from_stage) {
            Ok((after, _)) => Ok(after),
            Err(error) => Err(ApplicationErrorView::Domain(error)),
        },
    }
}

pub fn prepare_retried_job(job: Option<Job>, command: &RetryFailedWorkUnitsCommand) -> (result:
    AppResult<Job>)
    ensures
        ({
            let expected = retried_job(
                match job {
                    Some(job) => Some(job@),
                    None => None,
                },
                *command,
            );
            match result {
                Ok(job) => expected == Ok::<JobView, ApplicationErrorView>(job@),
                Err(error) => expected == Err::<JobView, ApplicationErrorView>(error@),
            }
        }),
{
    let Some(job) = job else {
        return Err(job_error(command.job_id.as_str(), " not found"));
    };
    let mut job = job;
    match job.prepare_retry(command.from_stage) {
        Ok(_) => Ok(job),
        Err(error) => Err(ApplicationError::Domain(error)),
    }
}

/// The answer to a request. A dry run tries nothing again: `retried_units` then
/// stands for nothing.
pub fn retry_response(
    command: RetryFailedWorkUnitsCommand,
    retryable_units: u32,
    retried_units: u32,
) -> (response: RetryFailedWorkUnitsResponse)
    ensures
        response.job_id == command.job_id,
        response.from_stage == command.from_stage,
        response.retryable_units == retryable_units,
        response.retried_units == (if command.dry_run {
            0
        } else {
            retried_units
        }),
        response.dry_run == command.dry_run,
{
    RetryFailedWorkUnitsResponse {
        job_id: command.job_id,
        from_stage: command.from_stage,
        retryable_units,
        retried_units: if command.dry_run {
            0
        } else {
            retried_units
        },
        dry_run: command.dry_run,
    }
}

/// A job that is known is tried again from the stage that is asked for.
pub proof fn law_known_jobs_are_tried_again(job: JobView, command: RetryFailedWorkUnitsCommand)
    ensures
        retried_job(None, command) is Err,
        job.retried(command.from_stage) matches Ok((after, _)) ==> retried_job(Some(job), command)
            == Ok::<JobView, ApplicationErrorView>(after),
        job.retried(command.from_stage) matches Err(error) ==> retried_job(Some(job), command)
            == Err::<JobView, ApplicationErrorView>(ApplicationErrorView::Domain(error)),
{
}

} // verus!
