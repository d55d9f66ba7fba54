//! A job on its way through its stages. What a stage has left before is used
//! again; only stages that have not begun are run.
use vstd::prelude::*;
use vstd::string::*;

use crate::contracts::{
    option_text, AppResult, ApplicationError, ApplicationErrorView, ErrorCode, VcError,
    VcErrorView,
};
use crate::identity::UlidStr;
use crate::ports::LlmStage;
use crate::subtitle::transcript::Transcript;
use crate::text::same_text;
use crate::use_cases::job_ops::all_stages;
use crate::use_cases::llm_pipeline::types::LlmDurableContext;
use crate::use_cases::run_batch::{about_job, job_error};
use crate::workflow::job::{all_ended, kind_at, some_stage, Job, JobView};
use crate::workflow::laws::{law_every_stage_is_found, well_formed};
use crate::workflow::stage::{ArtifactRef, JobStatus, StageKind, StageStatus};

use super::command::TranscribeJobCommand;
use super::commit::{
    artifact_of, is_done, lemma_position_is_in_range, stage_artifact, stage_is_done,
    stage_is_pending, stage_status, status_of, waits,
};

verus! {

/// What has become of a job.
#[derive(Debug)]
pub struct TranscribeJobResponse {
    pub job: Job,
    pub transcript: Transcript,
    pub export_path: String,
}

/// The text of an optional identifier.
pub open spec fn id_text(id: Option<UlidStr>) -> Option<Seq<char>> {
    match id {
        Some(id) => Some(id@),
        None => None,
    }
}

/// The job of a command with whether it is new, or why it is not run. A job
/// that is stored already has to be waiting, and to be the one that the command
/// speaks of.
pub open spec fn opening(existing: Option<JobView>, command: TranscribeJobCommand) -> Result<
    (JobView, bool),
    ApplicationErrorView,
> {
    let id = command.job_id@;
    match existing {
        None => Ok(
            (
                JobView::fresh(
                    command.job_id,
                    command.batch_id,
                    Some(command.execution_snapshot_id),
                    command.profile_revision,
                    command.input@,
                ),
                true,
            ),
        ),
        Some(job) => if job.status != JobStatus::Pending {
            Err(
                about_job(
                    id,
                    " is "@ + job.status.name_text() + "; call retry before executing it again"@,
                ),
            )
        } else if id_text(job.execution_snapshot_id) != Some(command.execution_snapshot_id@) {
            Err(about_job(id, " is bound to a different execution snapshot"@))
        } else if id_text(job.batch_id) != id_text(command.batch_id) {
            Err(about_job(id, " belongs to a different Batch"@))
        } else if job.source_path != command.input@ {
            Err(about_job(id, " source identity does not match its execution snapshot"@))
        } else {
            Ok((job, false))
        },
    }
}

fn same_id(a: Option<&UlidStr>, b: Option<&UlidStr>) -> (answer: bool)
    ensures
        answer == match (a, b) {
            (Some(a), Some(b)) => a@ == b@,
            (None, None) => true,
            _ => false,
        },
{
    match (a, b) {
        (Some(a), Some(b)) => a.same(b),
        (None, None) => true,
        _ => false,
    }
}

/// The job of a command, and whether it has to be stored for the first time.
pub fn open_job(existing: Option<Job>, command: &TranscribeJobCommand) -> (result: AppResult<
    (Job, bool),
>)
    ensures
        ({
            let expected = opening(
                match existing {
                    Some(job) => Some(job@),
                    None => None,
                },
                *command,
            );
            match result {
                Ok((job, new)) => expected == Ok::<(JobView, bool), ApplicationErrorView>(
                    (job@, new),
                ),
                Err(error) => expected == Err::<(JobView, bool), ApplicationErrorView>(error@),
            }
        }),
{
    let id = command.job_id.as_str();
    let Some(job) = existing else {
        let job = Job::new_with_snapshot(
            command.job_id.clone(),
            command.batch_id.clone(),
            command.execution_snapshot_id.clone(),
            command.profile_revision.clone(),
            command.input.as_str(),
        );
        return Ok((job, true));
    };
    if job.status() != JobStatus::Pending {
        let mut text = " is ".to_owned();
        text.append(job.status().name());
        text.append("; call retry before executing it again");
        return Err(job_error(id, text.as_str()));
    }
    if !same_id(job.execution_snapshot_id(), Some(&command.execution_snapshot_id)) {
        return Err(job_error(id, " is bound to a different execution snapshot"));
    }
    if !same_id(job.batch_id(), command.batch_id.as_ref()) {
        return Err(job_error(id, " belongs to a different Batch"));
    }
    if !same_text(job.source_path(), command.input.as_str()) {
        return Err(job_error(id, " source identity does not match its execution snapshot"));
    }
    Ok((job, false))
}

/// The name of the file that a stage leaves in the job's directory. The
/// subtitles go elsewhere.
pub open spec fn stage_file_text(kind: StageKind) -> Option<Seq<char>> {
    match kind {
        StageKind::Probe => Some("00_probe.json"@),
        StageKind::ExtractAudio => Some("00_extract.json"@),
        StageKind::Asr => Some("01_asr.json"@),
        StageKind::Split => Some("02_split.json"@),
        StageKind::Correct => Some("03_correct.json"@),
        StageKind::Translate => Some("04_translate.json"@),
        StageKind::Export => None,
    }
}

pub fn stage_file(kind: StageKind) -> (name: Option<&'static str>)
    ensures
        match name {
            Some(name) => stage_file_text(kind) == Some(name@),
            None => stage_file_text(kind) is None,
        },
{
    match kind {
        StageKind::Probe => Some("00_probe.json"),
        StageKind::ExtractAudio => Some("00_extract.json"),
        StageKind::Asr => Some("01_asr.json"),
        StageKind::Split => Some("02_split.json"),
        StageKind::Correct => Some("03_correct.json"),
        StageKind::Translate => Some("04_translate.json"),
        StageKind::Export => None,
    }
}

/// Who made the transcript of a stage behind the recognition.
pub open spec fn producer_text(stage: LlmStage, with_llm: bool) -> Seq<char> {
    match stage {
        LlmStage::Split => if with_llm {
            "llm-split"@
        } else {
            "domain-rule-split"@
        },
        LlmStage::Correct => "llm-correction"@,
        LlmStage::Translate => "llm-translation"@,
    }
}

pub fn stage_producer(stage: LlmStage, with_llm: bool) -> (name: &'static str)
    ensures
        name@ == producer_text(stage, with_llm),
{
    match stage {
        LlmStage::Split => if with_llm {
            "llm-split"
        } else {
            "domain-rule-split"
        },
        LlmStage::Correct => "llm-correction",
        LlmStage::Translate => "llm-translation",
    }
}

/// The file that a stage works on: that of the stage before it. A translation
/// without a correction works on the split.
pub open spec fn stage_input(job: JobView, stage: LlmStage) -> Option<ArtifactRef> {
    match stage {
        LlmStage::Split => left_by(job, StageKind::Asr),
        LlmStage::Correct => left_by(job, StageKind::Split),
        LlmStage::Translate => match left_by(job, StageKind::Correct) {
            Some(artifact) => Some(artifact),
            None => left_by(job, StageKind::Split),
        },
    }
}

/// The file that a stage has left, if any.
pub open spec fn left_by(job: JobView, kind: StageKind) -> Option<ArtifactRef> {
    match artifact_of(job, kind) {
        Ok(artifact) => Some(artifact),
        Err(_) => None,
    }
}

/// Where a language-model stage of the job keeps what has to survive a restart.
pub fn durable_context(
    job: &Job,
    command: &TranscribeJobCommand,
    stage: LlmStage,
    transcript_revision: u64,
) -> (context: LlmDurableContext)
    ensures
        context.job_id == command.job_id,
        context.job_dir@ == command.job_dir@,
        option_text(context.input_artifact_id) == (match stage_input(job@, stage) {
            Some(artifact) => Some(artifact.id@),
            None => None,
        }),
        context.transcript_revision == transcript_revision,
        !context.invalidate_plan,
{
    let found = match stage {
        LlmStage::Split => stage_artifact(job, StageKind::Asr),
        LlmStage::Correct => stage_artifact(job, StageKind::Split),
        LlmStage::Translate => match stage_artifact(job, StageKind::Correct) {
            Ok(artifact) => Ok(artifact),
            Err(_) => stage_artifact(job, StageKind::Split),
        },
    };
    let input_artifact_id = match found {
        Ok(artifact) => Some(artifact.id.as_str().to_owned()),
        Err(_) => None,
    };
    LlmDurableContext {
        job_id: command.job_id.clone(),
        job_dir: command.job_dir.clone(),
        input_artifact_id,
        transcript_revision,
        invalidate_plan: false,
    }
}

/// What is to be done next for a job.
#[derive(Debug, PartialEq, Eq)]
pub enum Step {
    /// The stage has been started: do its work and store what it leaves.
    Run(StageKind),
    /// The stage is complete: use the file that it has left.
    Reuse(ArtifactRef),
    /// The stage is not wanted: store that it was passed over.
    Skip(StageKind),
    /// There is nothing to do for the stage.
    Pass,
    /// The job has ended: store it.
    Finish,
}

/// A job on its way through its stages.
#[derive(Debug)]
pub struct TranscribeJob {
    job: Job,
    current: Option<StageKind>,
    at: usize,
    wants_llm: bool,
    has_llm: bool,
    has_word_timestamps: bool,
}

/// The state of a job on its way.
pub struct TranscribeJobView {
    pub job: JobView,
    /// The stage that was entered last.
    pub current: Option<StageKind>,
    /// The position of the stage that is next.
    pub at: int,
    /// The command asks for language-model stages.
    pub wants_llm: bool,
    /// There is a language model to ask.
    pub has_llm: bool,
    /// The recognizer gives the times of words.
    pub has_word_timestamps: bool,
}

impl View for TranscribeJob {
    type V = TranscribeJobView;

    closed spec fn view(&self) -> TranscribeJobView {
        TranscribeJobView {
            job: self.job@,
            current: self.current,
            at: self.at as int,
            wants_llm: self.wants_llm,
            has_llm: self.has_llm,
            has_word_timestamps: self.has_word_timestamps,
        }
    }
}

pub open spec fn no_llm() -> ApplicationErrorView {
    ApplicationErrorView::Adapter(
        VcErrorView::plain(
            ErrorCode::LlmProviderUnavailable,
            "LLM process stages are not configured"@,
        ),
    )
}

pub open spec fn no_word_timestamps() -> ApplicationErrorView {
    ApplicationErrorView::Adapter(
        VcErrorView::plain(
            ErrorCode::EngineCapabilityInsufficient,
            "ASR session does not provide word timestamps"@,
        ),
    )
}

/// The stage can be neither used nor run.
pub open spec fn unusable(name: Seq<char>, status: StageStatus) -> ApplicationErrorView {
    ApplicationErrorView::Invalid(
        name + " stage is "@ + status.name_text() + " and cannot be reused or executed"@,
    )
}

impl TranscribeJobView {
    /// A waiting stage is started.
    pub open spec fn starting(self, kind: StageKind) -> (TranscribeJobView, Result<
        Step,
        ApplicationErrorView,
    >) {
        match self.job.stage_started(kind) {
            Ok(job) => (TranscribeJobView { job, current: Some(kind), ..self }, Ok(Step::Run(kind))),
            Err(error) => (self, Err(ApplicationErrorView::Domain(error))),
        }
    }

    /// The file that a stage has left is used.
    pub open spec fn reusing(self, kind: StageKind) -> (TranscribeJobView, Result<
        Step,
        ApplicationErrorView,
    >) {
        match artifact_of(self.job, kind) {
            Ok(artifact) => (self.onward(), Ok(Step::Reuse(artifact))),
            Err(error) => (self, Err(error)),
        }
    }

    pub open spec fn onward(self) -> TranscribeJobView {
        TranscribeJobView {
            at: if self.at < 7 {
                self.at + 1
            } else {
                self.at
            },
            ..self
        }
    }

    /// A stage is run if it waits, used if it is complete, and left alone else.
    pub open spec fn running_or_passing(self, kind: StageKind) -> (TranscribeJobView, Result<
        Step,
        ApplicationErrorView,
    >) {
        if waits(self.job, kind) {
            self.starting(kind)
        } else if is_done(self.job, kind) {
            self.reusing(kind)
        } else {
            (self.onward(), Ok(Step::Pass))
        }
    }

    /// What is done next, and the state after it.
    pub open spec fn step(self) -> (TranscribeJobView, Result<Step, ApplicationErrorView>) {
        let kind = kind_at(self.at);
        if self.at >= 7 {
            match self.job.finished() {
                Ok(job) => (TranscribeJobView { job, ..self }, Ok(Step::Finish)),
                Err(error) => (self, Err(ApplicationErrorView::Domain(error))),
            }
        } else {
            match kind {
                StageKind::Probe | StageKind::ExtractAudio => if waits(self.job, kind) {
                    self.starting(kind)
                } else if is_done(self.job, kind) {
                    self.reusing(kind)
                } else {
                    let name = if kind == StageKind::Probe {
                        "probe"@
                    } else {
                        "extract"@
                    };
                    (self, Err(unusable(name, status_of(self.job, kind))))
                },
                StageKind::Asr => if waits(self.job, kind) {
                    let (after, result) = self.starting(kind);
                    if result is Ok && !self.has_word_timestamps {
                        (after, Err(no_word_timestamps()))
                    } else {
                        (after, result)
                    }
                } else if !self.has_word_timestamps {
                    (self, Err(no_word_timestamps()))
                } else {
                    self.reusing(kind)
                },
                StageKind::Split => self.running_or_passing(kind),
                StageKind::Correct | StageKind::Translate => if self.wants_llm {
                    if !self.has_llm {
                        (self, Err(no_llm()))
                    } else {
                        self.running_or_passing(kind)
                    }
                } else if waits(self.job, kind) {
                    (TranscribeJobView { current: Some(kind), ..self }, Ok(Step::Skip(kind)))
                } else {
                    (self.onward(), Ok(Step::Pass))
                },
                StageKind::Export => if waits(self.job, kind) {
                    self.starting(kind)
                } else {
                    self.reusing(kind)
                },
            }
        }
    }

    /// What is done at the boundary before the next stage: nothing more, where
    /// the job is asked to stop.
    pub open spec fn boundary(self, cancelled: bool) -> (TranscribeJobView, Result<
        Step,
        ApplicationErrorView,
    >) {
        if cancelled {
            (self, Err(ApplicationErrorView::Cancelled))
        } else {
            self.step()
        }
    }

    /// The job after its work has ended with an error. A job that was asked to
    /// stop is cancelled. Else the stage that was entered last is the one that
    /// failed; where no stage can be blamed, an open job is cancelled.
    pub open spec fn failed(self, code: ErrorCode) -> JobView {
        let stopped = match self.job.cancelled() {
            Ok(job) => job,
            Err(_) => self.job,
        };
        match self.current {
            Some(kind) if code != ErrorCode::Cancelled || self.job.cancelled() is Err => {
                match self.job.stage_failed(kind) {
                    Ok(job) => job,
                    Err(_) => stopped,
                }
            },
            _ => stopped,
        }
    }
}

/// The result of a step.
pub open spec fn stepped(
    before: TranscribeJobView,
    after: TranscribeJobView,
    cancelled: bool,
    result: AppResult<Step>,
) -> bool {
    (after, match result {
        Ok(step) => Ok(step),
        Err(error) => Err(error@),
    }) == before.boundary(cancelled)
}

impl TranscribeJob {
    /// Begin with a job that has just been started.
    pub fn new(job: Job, wants_llm: bool, has_llm: bool, has_word_timestamps: bool) -> (run: Self)
        ensures
            run@ == (TranscribeJobView {
                job: job@,
                current: None,
                at: 0,
                wants_llm,
                has_llm,
                has_word_timestamps,
            }),
    {
        TranscribeJob { job, current: None, at: 0, wants_llm, has_llm, has_word_timestamps }
    }

    pub fn job(&self) -> (job: &Job)
        ensures
            job@ == self@.job,
    {
        &self.job
    }

    fn advance(&mut self)
        ensures
            final(self)@ == old(self)@.onward(),
    {
        if self.at < 7 {
            self.at += 1;
        }
    }

    fn start(&mut self, kind: StageKind) -> (result: AppResult<Step>)
        ensures
            (final(self)@, match result {
                Ok(step) => Ok(step),
                Err(error) => Err(error@),
            }) == old(self)@.starting(kind),
    {
        match self.job.start_stage(kind) {
            Ok(_) => {
                self.current = Some(kind);
                Ok(Step::Run(kind))
            },
            Err(error) => Err(ApplicationError::Domain(error)),
        }
    }

    fn reuse(&mut self, kind: StageKind) -> (result: AppResult<Step>)
        ensures
            (final(self)@, match result {
                Ok(step) => Ok(step),
                Err(error) => Err(error@),
            }) == old(self)@.reusing(kind),
    {
        match stage_artifact(&self.job, kind) {
            Ok(artifact) => {
                self.advance();
                Ok(Step::Reuse(artifact))
            },
            Err(error) => Err(error),
        }
    }

    fn run_or_pass(&mut self, kind: StageKind) -> (result: AppResult<Step>)
        ensures
            (final(self)@, match result {
                Ok(step) => Ok(step),
                Err(error) => Err(error@),
            }) == old(self)@.running_or_passing(kind),
    {
        if stage_is_pending(&self.job, kind) {
            self.start(kind)
        } else if stage_is_done(&self.job, kind) {
            self.reuse(kind)
        } else {
            self.advance();
            Ok(Step::Pass)
        }
    }

    fn media_stage(&mut self, kind: StageKind, name: &str) -> (result: AppResult<Step>)
        ensures
            (final(self)@, match result {
                Ok(step) => Ok(step),
                Err(error) => Err(error@),
            }) == (if waits(old(self)@.job, kind) {
                old(self)@.starting(kind)
            } else if is_done(old(self)@.job, kind) {
                old(self)@.reusing(kind)
            } else {
                (old(self)@, Err(unusable(name@, status_of(old(self)@.job, kind))))
            }),
    {
        if stage_is_pending(&self.job, kind) {
            self.start(kind)
        } else if stage_is_done(&self.job, kind) {
            self.reuse(kind)
        } else {
            let mut text = name.to_owned();
            text.append(" stage is ");
            text.append(stage_status(&self.job, kind).name());
            text.append(" and cannot be reused or executed");
            Err(ApplicationError::Invalid(text))
        }
    }

    fn word_timestamps_error() -> (error: ApplicationError)
        ensures
            error@ == no_word_timestamps(),
    {
        ApplicationError::adapter(
            ErrorCode::EngineCapabilityInsufficient,
            "ASR session does not provide word timestamps",
        )
    }

    fn recognize(&mut self) -> (result: AppResult<Step>)
        requires
            old(self)@.at == 2,
        ensures
            stepped(old(self)@, final(self)@, false, result),
    {
        if stage_is_pending(&self.job, StageKind::Asr) {
            let step = self.start(StageKind::Asr)?;
            if !self.has_word_timestamps {
                return Err(Self::word_timestamps_error());
            }
            Ok(step)
        } else if !self.has_word_timestamps {
            Err(Self::word_timestamps_error())
        } else {
            self.reuse(StageKind::Asr)
        }
    }

    fn improve(&mut self, kind: StageKind) -> (result: AppResult<Step>)
        requires
            4 <= old(self)@.at <= 5,
            kind == kind_at(old(self)@.at),
        ensures
            stepped(old(self)@, final(self)@, false, result),
    {
        if self.wants_llm {
            self.check_llm()?;
            self.run_or_pass(kind)
        } else if stage_is_pending(&self.job, kind) {
            self.current = Some(kind);
            Ok(Step::Skip(kind))
        } else {
            self.advance();
            Ok(Step::Pass)
        }
    }

    /// What is to be done next. A job that was asked to stop goes no further.
    pub fn next(&mut self, cancelled: bool) -> (result: AppResult<Step>)
        ensures
            stepped(old(self)@, final(self)@, cancelled, result),
    {
        if cancelled {
            return Err(ApplicationError::Cancelled);
        }
        if self.at == 0 {
            self.media_stage(StageKind::Probe, "probe")
        } else if self.at == 1 {
            self.media_stage(StageKind::ExtractAudio, "extract")
        } else if self.at == 2 {
            self.recognize()
        } else if self.at == 3 {
            self.run_or_pass(StageKind::Split)
        } else if self.at == 4 {
            self.improve(StageKind::Correct)
        } else if self.at == 5 {
            self.improve(StageKind::Translate)
        } else if self.at == 6 {
            if stage_is_pending(&self.job, StageKind::Export) {
                self.start(StageKind::Export)
            } else {
                self.reuse(StageKind::Export)
            }
        } else {
            match self.job.finish() {
                Ok(_) => Ok(Step::Finish),
                Err(error) => Err(ApplicationError::Domain(error)),
            }
        }
    }

    /// Language-model stages need a language model.
    pub fn check_llm(&self) -> (result: AppResult<()>)
        ensures
            match result {
                Ok(_) => !self@.wants_llm || self@.has_llm,
                Err(error) => self@.wants_llm && !self@.has_llm && error@ == no_llm(),
            },
    {
        if self.wants_llm && !self.has_llm {
            return Err(
                ApplicationError::adapter(
                    ErrorCode::LlmProviderUnavailable,
                    "LLM process stages are not configured",
                ),
            );
        }
        Ok(())
    }

    /// Go on with the job as it was stored at the end of a stage.
    pub fn committed(&mut self, stored: Option<Job>) -> (result: AppResult<()>)
        ensures
            match stored {
                Some(job) => result is Ok && final(self)@ == (TranscribeJobView {
                    job: job@,
                    ..old(self)@
                }).onward(),
                None => result matches Err(error) && error@ == ApplicationErrorView::Invalid(
                    "atomic stage commit did not return Job"@,
                ) && final(self)@ == old(self)@,
            },
    {
        match stored {
            Some(job) => {
                self.job = job;
                self.advance();
                Ok(())
            },
            None => Err(ApplicationError::invalid("atomic stage commit did not return Job")),
        }
    }

    /// The job as it is to be stored after its work has ended with an error.
    pub fn fail(self, error: &VcError) -> (job: Job)
        ensures
            job@ == self@.failed(error.code),
    {
        let mut job = self.job;
        if error.code == ErrorCode::Cancelled && !job.status().is_terminal() {
            let _ = job.cancel();
            return job;
        }
        if let Some(kind) = self.current {
            if let Ok(_) = job.fail_stage(kind) {
                return job;
            }
        }
        if !job.status().is_terminal() {
            let _ = job.cancel();
        }
        job
    }
}

/// What is reported of work that failed, given what came of storing that.
pub open spec fn failure_report(primary: ApplicationErrorView, stored: Option<ApplicationErrorView>) -> ApplicationErrorView {
    match stored {
        None => ApplicationErrorView::Adapter(primary.reported()),
        Some(state) => ApplicationErrorView::StatePersistence {
            primary: primary.reported(),
            state: state.reported(),
        },
    }
}

/// The error of work that failed, given what came of storing that.
pub fn report_failure(primary: ApplicationError, stored: AppResult<()>) -> (error: ApplicationError)
    ensures
        error@ == failure_report(
            primary@,
            match stored {
                Ok(_) => None,
                Err(state) => Some(state@),
            },
        ),
{
    let primary = primary.into_vc_error();
    match stored {
        Ok(_) => ApplicationError::Adapter(primary),
        Err(state) => ApplicationError::StatePersistence {
            primary: Box::new(primary),
            state: Box::new(state.into_vc_error()),
        },
    }
}

/// Only a stage that has not begun is run or passed over.
pub proof fn law_only_waiting_stages_are_run(state: TranscribeJobView)
    ensures
        state.step().1 matches Ok(Step::Run(kind)) ==> waits(state.job, kind) && kind == kind_at(
            state.at,
        ) && state.step().0.current == Some(kind),
        state.step().1 matches Ok(Step::Skip(kind)) ==> waits(state.job, kind),
{
}

/// A step that starts nothing leaves every stage as it was.
pub proof fn law_steps_keep_what_is_complete(state: TranscribeJobView)
    ensures
        state.step().0.job.stages.len() == state.job.stages.len(),
        forall|i: int|
            0 <= i < state.job.stages.len() && state.job.stages[i].status != StageStatus::Pending
                ==> #[trigger] state.step().0.job.stages[i] == state.job.stages[i],
{
    let kind = kind_at(state.at);
    lemma_position_is_in_range(state.job.stages, kind, 0);
}

/// A complete stage with a file is used again. It is asked for nothing where
/// the language-model stages are not wanted.
pub proof fn law_complete_stages_are_used_again(state: TranscribeJobView, artifact: ArtifactRef)
    requires
        0 <= state.at < 7,
        is_done(state.job, kind_at(state.at)),
        artifact_of(state.job, kind_at(state.at)) == Ok::<ArtifactRef, ApplicationErrorView>(
            artifact,
        ),
        state.has_word_timestamps,
        state.wants_llm ==> state.has_llm,
    ensures
        state.step().0 == state.onward(),
        state.step().1 == Ok::<Step, ApplicationErrorView>(
            if (state.at == 4 || state.at == 5) && !state.wants_llm {
                Step::Pass
            } else {
                Step::Reuse(artifact)
            },
        ),
{
}

/// After an error the job has ended, and every stage still has the file that
/// it had.
pub proof fn law_failure_ends_the_job(state: TranscribeJobView, code: ErrorCode)
    ensures
        state.failed(code).status.terminal(),
        state.failed(code).stages.len() == state.job.stages.len(),
        forall|i: int|
            0 <= i < state.job.stages.len() ==> (#[trigger] state.failed(code).stages[i]).artifact
                == state.job.stages[i].artifact,
{
    if let Some(kind) = state.current {
        lemma_position_is_in_range(state.job.stages, kind, 0);
    }
}

/// A job that is asked to stop while it runs goes into no further stage, and
/// ends as cancelled, whichever stage it had entered.
pub proof fn law_stopped_jobs_end_as_cancelled(state: TranscribeJobView)
    requires
        !state.job.status.terminal(),
    ensures
        state.boundary(true).0 == state,
        state.boundary(true).1 matches Err(error) && error.code() == ErrorCode::Cancelled,
        state.failed(ErrorCode::Cancelled).status == JobStatus::Cancelled,
        state.job.cancelled() == Ok::<JobView, crate::error::DomainErrorView>(
            state.failed(ErrorCode::Cancelled),
        ),
{
}

/// The stages up to the next one are complete, and the others wait.
pub open spec fn on_track(state: TranscribeJobView) -> bool {
    &&& well_formed(state.job)
    &&& state.job.status == JobStatus::Running
    &&& 0 <= state.at <= 7
    &&& forall|i: int|
        0 <= i < state.at ==> (#[trigger] state.job.stages[i]).status.satisfied()
    &&& forall|i: int|
        state.at <= i < 7 ==> (#[trigger] state.job.stages[i]).status == StageStatus::Pending
    &&& state.has_word_timestamps
    &&& state.wants_llm ==> state.has_llm
}

/// A new job that has been started is on track.
pub proof fn law_new_jobs_are_on_track(
    command: TranscribeJobCommand,
    job: JobView,
    has_llm: bool,
)
    requires
        JobView::fresh(
            command.job_id,
            command.batch_id,
            Some(command.execution_snapshot_id),
            command.profile_revision,
            command.input@,
        ).started() == Ok::<JobView, crate::error::DomainErrorView>(job),
        command.llm is Some ==> has_llm,
    ensures
        on_track(
            TranscribeJobView {
                job,
                current: None,
                at: 0,
                wants_llm: command.llm is Some,
                has_llm,
                has_word_timestamps: true,
            },
        ),
{
}

/// A job on track is never refused: its next stage is run, or passed over, and
/// once the stage is stored as complete the job is on track for the one behind
/// it.
pub proof fn law_jobs_stay_on_track(
    state: TranscribeJobView,
    artifact: ArtifactRef,
    degraded: bool,
)
    requires
        on_track(state),
        state.at < 7,
        artifact.stage == kind_at(state.at),
    ensures
        match state.step().1 {
            Ok(Step::Run(kind)) => {
                &&& kind == kind_at(state.at)
                &&& state.step().0.job.stage_completed(kind, artifact, degraded) matches Ok(job)
                &&& on_track((TranscribeJobView { job, ..state.step().0 }).onward())
            },
            Ok(Step::Skip(kind)) => {
                &&& kind == kind_at(state.at)
                &&& state.step().0.job.stage_skipped(kind) matches Ok(job)
                &&& on_track((TranscribeJobView { job, ..state.step().0 }).onward())
            },
            _ => false,
        },
{
    let kind = kind_at(state.at);
    law_every_stage_is_found(state.job, kind);
    assert(kind.position() == state.at);
    assert(state.job.stages[state.at].status == StageStatus::Pending);
    if state.at > 0 {
        assert(state.job.stages[state.at - 1].status.satisfied());
    }
    let after = state.step().0;
    assert(well_formed(after.job));
    law_every_stage_is_found(after.job, kind);
}

/// When every stage is complete the job ends as done.
pub proof fn law_jobs_on_track_end_as_done(state: TranscribeJobView)
    requires
        on_track(state),
        state.at == 7,
    ensures
        state.step().1 == Ok::<Step, ApplicationErrorView>(Step::Finish),
        state.step().0.job.stages == state.job.stages,
        state.step().0.job.status == if some_stage(state.job.stages, StageStatus::DoneDegraded) {
            JobStatus::DoneDegraded
        } else {
            JobStatus::Done
        },
{
    assert(all_ended(state.job.stages));
    assert(!some_stage(state.job.stages, StageStatus::Failed));
    assert(!some_stage(state.job.stages, StageStatus::Cancelled));
}

/// What comes next for a job at one of its stages: a waiting stage is run, a
/// complete one is used again. The language-model stages are passed over where
/// they are not wanted, and refused where there is no model. Recognition needs
/// the times of words.
pub proof fn law_next_steps_in_plain_terms(state: TranscribeJobView)
    requires
        all_stages(state.job.stages),
        state.job.status == JobStatus::Running,
        0 <= state.at < 7,
        state.at > 0 ==> state.job.stages[state.at - 1].status == StageStatus::Done
            || state.job.stages[state.at - 1].status == StageStatus::DoneDegraded
            || state.job.stages[state.at - 1].status == StageStatus::Skipped,
    ensures
        ({
            let stage = state.job.stages[state.at];
            let next = state.step().1;
            let run = Ok::<Step, ApplicationErrorView>(Step::Run(stage.kind));
            let complete = stage.status == StageStatus::Done || stage.status
                == StageStatus::DoneDegraded;
            &&& stage.status == StageStatus::Pending && (state.at <= 1 || state.at == 3 || state.at
                == 6) ==> next == run
            &&& complete && (state.at <= 1 || state.at == 3 || state.at == 6) ==> (
            stage.artifact matches Some(artifact) ==> next == Ok::<Step, ApplicationErrorView>(
                Step::Reuse(artifact),
            ))
            &&& state.at == 2 && !state.has_word_timestamps ==> (
            next matches Err(error) && error.code() == ErrorCode::EngineCapabilityInsufficient)
            &&& state.at == 2 && state.has_word_timestamps && stage.status == StageStatus::Pending
                ==> next == run
            &&& state.at == 2 && state.has_word_timestamps && complete ==> (
            stage.artifact matches Some(artifact) ==> next == Ok::<Step, ApplicationErrorView>(
                Step::Reuse(artifact),
            ))
            &&& (state.at == 4 || state.at == 5) && !state.wants_llm ==> {
                &&& stage.status == StageStatus::Pending ==> next == Ok::<
                    Step,
                    ApplicationErrorView,
                >(Step::Skip(stage.kind))
                &&& stage.status != StageStatus::Pending ==> next == Ok::<
                    Step,
                    ApplicationErrorView,
                >(Step::Pass)
            }
            &&& (state.at == 4 || state.at == 5) && state.wants_llm && !state.has_llm
                ==> (next matches Err(error) && error.code() == ErrorCode::LlmProviderUnavailable)
            &&& (state.at == 4 || state.at == 5) && state.wants_llm && state.has_llm ==> {
                &&& stage.status == StageStatus::Pending ==> next == run
                &&& complete ==> (stage.artifact matches Some(artifact) ==> next == Ok::<
                    Step,
                    ApplicationErrorView,
                >(Step::Reuse(artifact)))
            }
        }),
{
    reveal_with_fuel(crate::workflow::job::stage_position, 8);
}

/// A stage in work that fails fails the job, and no other stage.
pub proof fn law_the_stage_in_work_fails(state: TranscribeJobView, code: ErrorCode, p: int)
    requires
        all_stages(state.job.stages),
        0 <= p < 7,
        state.current == Some(state.job.stages[p].kind),
        state.job.stages[p].status == StageStatus::Running,
        code != ErrorCode::Cancelled,
    ensures
        state.failed(code).status == JobStatus::Failed,
        state.failed(code).stages[p].status == StageStatus::Failed,
        forall|i: int|
            0 <= i < 7 && i != p ==> #[trigger] state.failed(code).stages[i] == state.job.stages[i],
{
    reveal_with_fuel(crate::workflow::job::stage_position, 8);
}

/// A job is made where there is none. One that waits is taken up if it has the
/// same settings, batch and source; any other is refused.
pub proof fn law_only_waiting_jobs_are_taken_up(job: JobView, command: TranscribeJobCommand)
    ensures
        opening(None, command) matches Ok((made, new)) && new && made.id == command.job_id
            && made.batch_id == command.batch_id && made.source_path == command.input@
            && made.execution_snapshot_id == Some(command.execution_snapshot_id) && made.status
            == JobStatus::Pending,
        opening(Some(job), command) is Ok <==> {
            &&& job.status == JobStatus::Pending
            &&& job.execution_snapshot_id matches Some(id) && id@ == command.execution_snapshot_id@
            &&& match (job.batch_id, command.batch_id) {
                (Some(a), Some(b)) => a@ == b@,
                (None, None) => true,
                _ => false,
            }
            &&& job.source_path == command.input@
        },
        opening(Some(job), command) matches Ok((taken, new)) ==> taken == job && !new,
{
}

/// The files of the stages have their own names, and so have their producers.
/// Each language-model stage reads what the stage before it has left.
pub proof fn law_stages_have_their_own_files(job: JobView, kind: StageKind, stage: LlmStage)
    ensures
        kind == StageKind::Probe ==> stage_file_text(kind) == Some("00_probe.json"@),
        kind == StageKind::ExtractAudio ==> stage_file_text(kind) == Some("00_extract.json"@),
        kind == StageKind::Asr ==> stage_file_text(kind) == Some("01_asr.json"@),
        kind == StageKind::Split ==> stage_file_text(kind) == Some("02_split.json"@),
        kind == StageKind::Correct ==> stage_file_text(kind) == Some("03_correct.json"@),
        kind == StageKind::Translate ==> stage_file_text(kind) == Some("04_translate.json"@),
        kind == StageKind::Export ==> stage_file_text(kind) is None,
        stage == LlmStage::Split ==> producer_text(stage, true) == "llm-split"@ && producer_text(
            stage,
            false,
        ) == "domain-rule-split"@,
        stage == LlmStage::Correct ==> producer_text(stage, true) == "llm-correction"@,
        stage == LlmStage::Translate ==> producer_text(stage, true) == "llm-translation"@,
{
}

/// The split reads what was recognized, the correction the split, and the
/// translation the correction, or the split where nothing was corrected.
pub proof fn law_stages_read_the_stage_before(job: JobView)
    requires
        all_stages(job.stages),
    ensures
        stage_input(job, LlmStage::Split) == job.stages[2].artifact,
        stage_input(job, LlmStage::Correct) == job.stages[3].artifact,
        job.stages[4].artifact is Some ==> stage_input(job, LlmStage::Translate)
            == job.stages[4].artifact,
        job.stages[4].artifact is None ==> stage_input(job, LlmStage::Translate)
            == job.stages[3].artifact,
{
    reveal_with_fuel(crate::workflow::job::stage_position, 8);
}

/// A failure is reported as it is. Where it could not be stored either, both are
/// reported.
pub proof fn law_failures_are_reported_with_their_state(
    primary: ApplicationErrorView,
    state: ApplicationErrorView,
)
    ensures
        failure_report(primary, None) == ApplicationErrorView::Adapter(primary.reported()),
        failure_report(primary, None).code() == primary.reported().code,
        failure_report(primary, Some(state)) == (ApplicationErrorView::StatePersistence {
            primary: primary.reported(),
            state: state.reported(),
        }),
{
}

/// A job that cannot be taken up, or a stage that cannot be used, tells why.
pub proof fn law_refused_jobs_tell_why(
    job: JobView,
    command: TranscribeJobCommand,
    state: TranscribeJobView,
)
    ensures
        job.status == JobStatus::Failed ==> opening(Some(job), command) == Err::<
            (JobView, bool),
            ApplicationErrorView,
        >(
            ApplicationErrorView::Invalid(
                "Job "@ + command.job_id@ + (" is "@ + "Failed"@
                    + "; call retry before executing it again"@),
            ),
        ),
        all_stages(state.job.stages) && state.at == 0 && state.job.stages[0].status
            == StageStatus::Failed ==> state.step().1 == Err::<Step, ApplicationErrorView>(
            ApplicationErrorView::Invalid(
                "probe"@ + " stage is "@ + "Failed"@ + " and cannot be reused or executed"@,
            ),
        ),
        all_stages(state.job.stages) && state.at == 1 && state.job.stages[1].status
            == StageStatus::Failed ==> state.step().1 == Err::<Step, ApplicationErrorView>(
            ApplicationErrorView::Invalid(
                "extract"@ + " stage is "@ + "Failed"@ + " and cannot be reused or executed"@,
            ),
        ),
{
    reveal_with_fuel(crate::workflow::job::stage_position, 8);
}

} // verus!
