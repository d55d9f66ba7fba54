//! A stored batch taken up again from the frozen records of its jobs. Nothing
//! comes from the settings of today.
use vstd::prelude::*;
use vstd::string::*;

use crate::contracts::{AppResult, ApplicationError, ApplicationErrorView};
use crate::execution_snapshot::{AsrExecutionSnapshot, JobExecutionSnapshot};
use crate::identity::{BatchId, JobId, UlidStr};
use crate::workflow::batch::{id_texts, Batch, BatchStatus, BatchView};
use crate::workflow::job::{Job, JobView};

use super::run_batch::{about_batch, about_job, batch_error, batch_view, job_error};
use super::transcribe_job::command::{output_error, runs, TranscribeJobCommand};

verus! {

/// A batch that is being taken up again.
#[derive(Debug)]
pub struct ResumeBatch {
    batch: Batch,
    commands: Vec<TranscribeJobCommand>,
    asr: Option<AsrExecutionSnapshot>,
}

/// The state of a batch that is being taken up again.
pub struct ResumeBatchView {
    pub batch: BatchView,
    /// The commands of the jobs so far, in the order of the batch.
    pub commands: Seq<TranscribeJobCommand>,
    /// The recognizer of the first job.
    pub asr: Option<AsrExecutionSnapshot>,
}

impl View for ResumeBatch {
    type V = ResumeBatchView;

    closed spec fn view(&self) -> ResumeBatchView {
        ResumeBatchView { batch: self.batch@, commands: self.commands@, asr: self.asr }
    }
}

/// A batch with all that is needed to run it.
#[derive(Debug)]
pub struct ResumedBatch {
    pub batch: Batch,
    pub jobs: Vec<TranscribeJobCommand>,
    pub asr: AsrExecutionSnapshot,
}

/// Why a batch is not taken up again, if so.
pub open spec fn resume_refusal(stored: Option<BatchView>, id: Seq<char>) -> Option<
    ApplicationErrorView,
> {
    match stored {
        None => Some(about_batch(id, " not found"@)),
        Some(batch) => if batch.status.terminal() {
            Some(about_batch(id, " is already "@ + batch.status.name_text()))
        } else {
            None
        },
    }
}

/// The frozen record of a job, or why it has none.
pub open spec fn snapshot_id_of(job: Option<JobView>, job_id: Seq<char>, batch_id: Seq<char>) -> Result<
    UlidStr,
    ApplicationErrorView,
> {
    match job {
        None => Err(about_job(job_id, " not found for Batch "@ + batch_id)),
        Some(job) => match job.execution_snapshot_id {
            None => Err(about_job(job_id, " has no execution snapshot and cannot resume"@)),
            Some(id) => Ok(id),
        },
    }
}

/// Why a frozen record cannot be used for a job of the batch, if so.
pub open spec fn snapshot_refusal(
    snapshot: Option<JobExecutionSnapshot>,
    snapshot_id: Seq<char>,
    job_id: Seq<char>,
    batch_id: Seq<char>,
) -> Option<ApplicationErrorView> {
    match snapshot {
        None => Some(
            ApplicationErrorView::Invalid(
                "execution snapshot "@ + snapshot_id + " not found for Job "@ + job_id,
            ),
        ),
        Some(snapshot) => if snapshot.batch_id@ != batch_id {
            Some(
                ApplicationErrorView::Invalid(
                    "execution snapshot "@ + snapshot_id + " belongs to another Batch"@,
                ),
            )
        } else {
            output_error(snapshot)
        },
    }
}

impl ResumeBatchView {
    pub open spec fn waits(self) -> bool {
        self.commands.len() < self.batch.jobs.len()
    }

    /// Why the batch cannot be run, if so.
    pub open spec fn final_refusal(self) -> Option<ApplicationErrorView> {
        if self.asr is None {
            Some(about_batch(self.batch.id@, " has no resumable Jobs"@))
        } else if self.batch.status == BatchStatus::Paused {
            Some(
                ApplicationErrorView::Invalid("paused Batch must be resumed before execution"@),
            )
        } else {
            None
        }
    }
}

fn copy_asr(asr: &AsrExecutionSnapshot) -> (copy: AsrExecutionSnapshot)
    ensures
        copy == *asr,
{
    AsrExecutionSnapshot {
        engine: asr.engine.clone(),
        model_locator: asr.model_locator.clone(),
        model_id: asr.model_id.clone(),
        model_digest: asr.model_digest.clone(),
        device: asr.device.clone(),
        compute_type: asr.compute_type.clone(),
    }
}

impl ResumeBatch {
    /// Begin with the batch as it is stored.
    pub fn begin(stored: Option<Batch>, batch_id: &BatchId) -> (result: AppResult<Self>)
        ensures
            match result {
                Ok(state) => resume_refusal(batch_view(stored), batch_id@) is None && Some(
                    state@.batch,
                ) == batch_view(stored) && state@.commands.len() == 0 && state@.asr is None,
                Err(error) => resume_refusal(batch_view(stored), batch_id@) == Some(error@),
            },
    {
        let Some(batch) = stored else {
            return Err(batch_error(batch_id.as_str(), " not found"));
        };
        if batch.status().is_terminal() {
            let mut text = " is already ".to_owned();
            text.append(batch.status().name());
            return Err(batch_error(batch_id.as_str(), text.as_str()));
        }
        Ok(ResumeBatch { batch, commands: Vec::new(), asr: None })
    }

    /// The job that is next, if there is one.
    pub fn next(&self) -> (id: Option<&JobId>)
        ensures
            match id {
                Some(id) => self@.waits() && id@ == self@.batch.jobs[self@.commands.len() as int],
                None => !self@.waits(),
            },
    {
        let ids = self.batch.job_ids();
        assert(id_texts(ids@).len() == ids@.len());
        if self.commands.len() < ids.len() {
            let at: usize = self.commands.len();
            assert(id_texts(ids@)[at as int] == ids@[at as int]@);
            Some(&ids[at])
        } else {
            None
        }
    }

    /// The frozen record of the job that is next, given the job as it is stored.
    pub fn locate(&self, job: Option<&Job>, job_id: &JobId) -> (result: AppResult<UlidStr>)
        ensures
            ({
                let expected = snapshot_id_of(
                    match job {
                        Some(job) => Some(job@),
                        None => None,
                    },
                    job_id@,
                    self@.batch.id@,
                );
                match result {
                    Ok(id) => expected == Ok::<UlidStr, ApplicationErrorView>(id),
                    Err(error) => expected == Err::<UlidStr, ApplicationErrorView>(error@),
                }
            }),
    {
        let Some(job) = job else {
            let mut text = " not found for Batch ".to_owned();
            text.append(self.batch.id().as_str());
            return Err(job_error(job_id.as_str(), text.as_str()));
        };
        match job.execution_snapshot_id() {
            Some(id) => Ok(id.clone()),
            None => Err(
                job_error(job_id.as_str(), " has no execution snapshot and cannot resume"),
            ),
        }
    }

    /// Add the job that is next, given its frozen record.
    pub fn accept(
        &mut self,
        job_id: &JobId,
        snapshot_id: &UlidStr,
        snapshot: Option<&JobExecutionSnapshot>,
    ) -> (result: AppResult<()>)
        ensures
            ({
                let refusal = snapshot_refusal(
                    match snapshot {
                        Some(snapshot) => Some(*snapshot),
                        None => None,
                    },
                    snapshot_id@,
                    job_id@,
                    old(self)@.batch.id@,
                );
                match result {
                    Ok(_) => {
                        &&& refusal is None
                        &&& snapshot is Some
                        &&& final(self)@.batch == old(self)@.batch
                        &&& final(self)@.commands.len() == old(self)@.commands.len() + 1
                        &&& final(self)@.commands.drop_last() == old(self)@.commands
                        &&& runs(final(self)@.commands.last(), *snapshot.unwrap())
                        &&& final(self)@.asr == (match old(self)@.asr {
                            Some(asr) => Some(asr),
                            None => Some(snapshot.unwrap().asr),
                        })
                    },
                    Err(error) => refusal == Some(error@) && final(self)@ == old(self)@,
                }
            }),
    {
        let Some(snapshot) = snapshot else {
            let mut text = "execution snapshot ".to_owned();
            text.append(snapshot_id.as_str());
            text.append(" not found for Job ");
            text.append(job_id.as_str());
            return Err(ApplicationError::Invalid(text));
        };
        if !snapshot.batch_id.same(self.batch.id()) {
            let mut text = "execution snapshot ".to_owned();
            text.append(snapshot_id.as_str());
            text.append(" belongs to another Batch");
            return Err(ApplicationError::Invalid(text));
        }
        let command = TranscribeJobCommand::from_snapshot(snapshot)?;
        if self.asr.is_none() {
            self.asr = Some(copy_asr(&snapshot.asr));
        }
        let ghost before = self.commands@;
        self.commands.push(command);
        assert(self.commands@.drop_last() =~= before);
        Ok(())
    }

    /// The batch with all that is needed to run it.
    pub fn finish(self) -> (result: AppResult<ResumedBatch>)
        ensures
            match result {
                Ok(resumed) => self@.final_refusal() is None && resumed.batch@ == self@.batch
                    && resumed.jobs@ == self@.commands && Some(resumed.asr) == self@.asr,
                Err(error) => self@.final_refusal() == Some(error@),
            },
    {
        let Some(asr) = self.asr else {
            return Err(batch_error(self.batch.id().as_str(), " has no resumable Jobs"));
        };
        if self.batch.status() == BatchStatus::Paused {
            return Err(ApplicationError::invalid("paused Batch must be resumed before execution"));
        }
        Ok(ResumedBatch { batch: self.batch, jobs: self.commands, asr })
    }
}

/// A batch is taken up again unless it is unknown or has ended.
pub proof fn law_open_batches_are_resumed(batch: BatchView, id: Seq<char>)
    ensures
        resume_refusal(None, id) is Some,
        resume_refusal(Some(batch), id) is None <==> batch.status == BatchStatus::Pending
            || batch.status == BatchStatus::Running || batch.status == BatchStatus::Paused,
{
}

/// Every member needs the settings that it was started with, and those must be
/// of the same batch.
pub proof fn law_members_resume_with_their_settings(
    job: JobView,
    snapshot: JobExecutionSnapshot,
    snapshot_id: Seq<char>,
    job_id: Seq<char>,
    batch_id: Seq<char>,
)
    ensures
        snapshot_id_of(None, job_id, batch_id) is Err,
        job.execution_snapshot_id matches Some(id) ==> snapshot_id_of(Some(job), job_id, batch_id)
            == Ok::<UlidStr, ApplicationErrorView>(id),
        job.execution_snapshot_id is None ==> snapshot_id_of(Some(job), job_id, batch_id) is Err,
        snapshot_refusal(None, snapshot_id, job_id, batch_id) is Some,
        snapshot.batch_id@ != batch_id ==> snapshot_refusal(
            Some(snapshot),
            snapshot_id,
            job_id,
            batch_id,
        ) is Some,
{
}

/// A batch with members goes on, unless it is paused.
pub proof fn law_paused_batches_are_not_run(state: ResumeBatchView)
    ensures
        state.final_refusal() is None <==> state.asr is Some && state.batch.status
            != BatchStatus::Paused,
        state.waits() <==> state.commands.len() < state.batch.jobs.len(),
{
}

/// A batch that cannot be taken up again tells why.
pub proof fn law_refused_resumptions_tell_why(
    id: Seq<char>,
    batch: BatchView,
    state: ResumeBatchView,
    job_id: Seq<char>,
)
    ensures
        resume_refusal(None, id) == Some(
            ApplicationErrorView::Invalid("Batch "@ + id + " not found"@),
        ),
        batch.status == BatchStatus::Done ==> resume_refusal(Some(batch), id) == Some(
            ApplicationErrorView::Invalid("Batch "@ + id + (" is already "@ + "Done"@)),
        ),
        state.asr is None ==> state.final_refusal() == Some(
            ApplicationErrorView::Invalid("Batch "@ + state.batch.id@ + " has no resumable Jobs"@),
        ),
        state.asr is Some && state.batch.status == BatchStatus::Paused ==> state.final_refusal()
            == Some(
            ApplicationErrorView::Invalid("paused Batch must be resumed before execution"@),
        ),
        snapshot_id_of(None, job_id, id) == Err::<UlidStr, ApplicationErrorView>(
            ApplicationErrorView::Invalid("Job "@ + job_id + (" not found for Batch "@ + id)),
        ),
{
}

} // verus!
