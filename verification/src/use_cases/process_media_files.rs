//! Creation of a batch from media files.
use vstd::prelude::*;
use vstd::string::*;

use crate::contracts::{option_text, AppResult, ApplicationError, ApplicationErrorView};
use crate::error::DomainErrorView;
use crate::execution_snapshot::{
    AsrExecutionSnapshot, AudioStreamSelection, JobExecutionSnapshot, OutputPlanSnapshot,
    SourceStatSnapshot,
};
use crate::identity::{BatchId, JobId, UlidStr};
use crate::ports::{
    law_names_are_read_back, AsrRuntimeSpec, SubtitleExportRequest, SubtitleFormat, SubtitleLayout,
};
use crate::workflow::batch::{
    has_adjacent_duplicate, id_texts, Batch, BatchExecutionProfile, BatchView,
};
use crate::workflow::job::{Job, JobView};

use super::transcribe_job::command::{
    output_error, runs, LlmProcessOptions, TranscribeJobCommand,
};

verus! {

/// Version of the layout of stored job records.
pub const JOB_EXECUTION_SNAPSHOT_SCHEMA_VERSION: u32 = 1;

/// What the crate `chrono` gives for a moment in milliseconds since 1970 as
/// RFC 3339 text; nothing for a moment that it cannot represent.
pub uninterp spec fn rfc3339_text(millis: i64) -> Option<Seq<char>>;

/// `TimeZone::timestamp_millis_opt` for `Utc`, and `DateTime::to_rfc3339` of the
/// moment where there is one.
#[verifier::external_body]
fn format_moment(millis: i64) -> (text: Option<String>)
    ensures
        option_text(text) == rfc3339_text(millis),
{
    chrono::TimeZone::timestamp_millis_opt(&chrono::Utc, millis).single().map(|moment| moment.to_rfc3339())
}

/// The moment of a clock reading as it is stored, given the text of the moment.
pub fn stored_moment(text: Option<String>) -> (result: AppResult<String>)
    ensures
        match text {
            Some(text) => result == Ok::<String, ApplicationError>(text),
            None => result matches Err(error) && error@ == ApplicationErrorView::Invalid(
                "clock returned an invalid timestamp"@,
            ),
        },
{
    match text {
        Some(text) => Ok(text),
        None => Err(ApplicationError::invalid("clock returned an invalid timestamp")),
    }
}

/// A clock reading as it is stored, or why it cannot be.
pub open spec fn timestamp_text(now_ms: u64) -> Result<Seq<char>, ApplicationErrorView> {
    if now_ms > i64::MAX {
        Err(ApplicationErrorView::Invalid("clock value exceeds timestamp range"@))
    } else {
        match rfc3339_text(now_ms as i64) {
            Some(text) => Ok(text),
            None => Err(ApplicationErrorView::Invalid("clock returned an invalid timestamp"@)),
        }
    }
}

/// A clock reading as it is stored.
pub fn timestamp(now_ms: u64) -> (result: AppResult<String>)
    ensures
        match result {
            Ok(text) => timestamp_text(now_ms) == Ok::<Seq<char>, ApplicationErrorView>(text@),
            Err(error) => timestamp_text(now_ms) == Err::<Seq<char>, ApplicationErrorView>(error@),
        },
{
    if now_ms > 0x7FFF_FFFF_FFFF_FFFF {
        return Err(ApplicationError::invalid("clock value exceeds timestamp range"));
    }
    stored_moment(format_moment(now_ms as i64))
}

/// The name of a format in stored records.
pub fn format_name(format: SubtitleFormat) -> (name: &'static str)
    ensures
        name@ == format.text(),
{
    format.as_str()
}

/// The settings under which media files are processed.
#[derive(Debug, PartialEq, Eq)]
pub struct ProcessProfile {
    pub name: String,
    pub asr: AsrRuntimeSpec,
    pub cache_max_bytes: u64,
    pub llm: Option<LlmProcessOptions>,
}

/// What is to be done with media files.
#[derive(Debug, PartialEq, Eq)]
pub struct ProcessMediaFilesCommand {
    pub files: Vec<String>,
    pub language: Option<String>,
    pub target_language: Option<String>,
    pub format: SubtitleFormat,
    pub layout: SubtitleLayout,
    pub profile: ProcessProfile,
}

/// A media file as it was found.
#[derive(Debug, PartialEq, Eq)]
pub struct PreparedMediaFile {
    pub canonical_path: String,
    pub source_stat: SourceStatSnapshot,
}

/// Where the subtitles of a file go.
#[derive(Debug, PartialEq, Eq)]
pub struct PlannedOutput {
    pub path: String,
    pub conflict_policy: String,
}

/// A batch that is being put together.
#[derive(Debug)]
pub struct CreateBatch {
    batch_id: BatchId,
    profile_revision: UlidStr,
    created_at: String,
    command: ProcessMediaFilesCommand,
    jobs: Vec<TranscribeJobCommand>,
    snapshots: Vec<JobExecutionSnapshot>,
}

/// The state of a batch that is being put together.
pub struct CreateBatchView {
    pub batch_id: BatchId,
    pub profile_revision: UlidStr,
    pub created_at: Seq<char>,
    pub command: ProcessMediaFilesCommand,
    pub jobs: Seq<TranscribeJobCommand>,
    pub snapshots: Seq<JobExecutionSnapshot>,
}

impl View for CreateBatch {
    type V = CreateBatchView;

    closed spec fn view(&self) -> CreateBatchView {
        CreateBatchView {
            batch_id: self.batch_id,
            profile_revision: self.profile_revision,
            created_at: self.created_at@,
            command: self.command,
            jobs: self.jobs@,
            snapshots: self.snapshots@,
        }
    }
}

/// A batch, its jobs, what they were asked to do and how to recognize.
#[derive(Debug)]
pub struct CreatedBatch {
    pub batch: Batch,
    pub entities: Vec<Job>,
    pub snapshots: Vec<JobExecutionSnapshot>,
    pub jobs: Vec<TranscribeJobCommand>,
    pub asr_spec: AsrRuntimeSpec,
}

/// Why no batch is created, if so.
pub open spec fn creation_refusal(files: Seq<String>, spec_error: Option<Seq<char>>) -> Option<
    ApplicationErrorView,
> {
    if files.len() == 0 {
        Some(ApplicationErrorView::Invalid("no input files"@))
    } else {
        match spec_error {
            Some(text) => Some(ApplicationErrorView::Invalid(text)),
            None => None,
        }
    }
}

/// The frozen record of a file: everything the job is asked to do.
pub open spec fn is_record(
    batch: CreateBatchView,
    file: PreparedMediaFile,
    job_id: JobId,
    snapshot_id: UlidStr,
    job_dir: Seq<char>,
    planned: PlannedOutput,
    snapshot: JobExecutionSnapshot,
) -> bool {
    let command = batch.command;
    &&& snapshot.snapshot_id == snapshot_id
    &&& snapshot.schema_version == JOB_EXECUTION_SNAPSHOT_SCHEMA_VERSION
    &&& snapshot.created_at@ == batch.created_at
    &&& snapshot.job_id == job_id
    &&& snapshot.batch_id == batch.batch_id
    &&& snapshot.canonical_source_path@ == file.canonical_path@
    &&& snapshot.source_stat == file.source_stat
    &&& snapshot.job_dir@ == job_dir
    &&& snapshot.profile_revision == batch.profile_revision
    &&& snapshot.profile_name@ == command.profile.name@
    &&& snapshot.asr.engine@ == command.profile.asr.engine_family@
    &&& snapshot.asr.model_locator@ == command.profile.asr.locator@
    &&& option_text(snapshot.asr.model_id) == Some(command.profile.asr.model_id@)
    &&& option_text(snapshot.asr.model_digest) == option_text(command.profile.asr.verified_digest)
    &&& snapshot.asr.device@ == command.profile.asr.device@
    &&& snapshot.asr.compute_type@ == command.profile.asr.compute_type@
    &&& snapshot.audio_stream == AudioStreamSelection::Auto
    &&& option_text(snapshot.source_language) == option_text(command.language)
    &&& option_text(snapshot.target_language) == option_text(command.target_language)
    &&& snapshot.output.path@ == planned.path@
    &&& snapshot.output.format@ == command.format.text()
    &&& snapshot.output.layout@ == command.layout.text()
    &&& snapshot.output.conflict_policy@ == planned.conflict_policy@
    &&& snapshot.output.fallback_to_source == (command.layout == SubtitleLayout::TranslationOnly)
    &&& snapshot.cache_max_bytes == command.profile.cache_max_bytes
    &&& match (command.profile.llm, snapshot.llm) {
        (Some(options), Some(frozen)) => options.frozen_as(frozen),
        (None, None) => true,
        _ => false,
    }
}

fn frozen_record(
    batch: &CreateBatch,
    file: &PreparedMediaFile,
    job_id: &JobId,
    snapshot_id: &UlidStr,
    job_dir: &str,
    planned: &PlannedOutput,
) -> (snapshot: JobExecutionSnapshot)
    ensures
        is_record(batch@, *file, *job_id, *snapshot_id, job_dir@, *planned, snapshot),
{
    let command = &batch.command;
    let asr = &command.profile.asr;
    let llm = match &command.profile.llm {
        Some(options) => Some(options.snapshot()),
        None => None,
    };
    JobExecutionSnapshot {
        snapshot_id: snapshot_id.clone(),
        schema_version: JOB_EXECUTION_SNAPSHOT_SCHEMA_VERSION,
        created_at: batch.created_at.clone(),
        job_id: job_id.clone(),
        batch_id: batch.batch_id.clone(),
        canonical_source_path: file.canonical_path.clone(),
        source_stat: file.source_stat,
        job_dir: job_dir.to_owned(),
        profile_revision: batch.profile_revision.clone(),
        profile_name: command.profile.name.clone(),
        asr: AsrExecutionSnapshot {
            engine: asr.engine_family.clone(),
            model_locator: asr.locator.clone(),
            model_id: Some(asr.model_id.clone()),
            model_digest: asr.verified_digest.clone(),
            device: asr.device.clone(),
            compute_type: asr.compute_type.clone(),
        },
        audio_stream: AudioStreamSelection::Auto,
        source_language: command.language.clone(),
        target_language: command.target_language.clone(),
        output: OutputPlanSnapshot {
            path: planned.path.clone(),
            format: format_name(command.format).to_owned(),
            layout: command.layout.as_str().to_owned(),
            conflict_policy: planned.conflict_policy.clone(),
            fallback_to_source: command.layout == SubtitleLayout::TranslationOnly,
        },
        cache_max_bytes: command.profile.cache_max_bytes,
        llm,
    }
}

/// The recognizer settings of a batch.
pub open spec fn is_profile_of(spec: AsrRuntimeSpec, profile: BatchExecutionProfile) -> bool {
    &&& profile.asr_engine@ == spec.engine_family@
    &&& profile.asr_model@ == spec.model_id@
    &&& profile.device@ == spec.device@
    &&& profile.compute_type@ == spec.compute_type@
}

pub fn batch_profile(spec: &AsrRuntimeSpec) -> (profile: BatchExecutionProfile)
    ensures
        is_profile_of(*spec, profile),
{
    BatchExecutionProfile {
        asr_engine: spec.engine_family.clone(),
        asr_model: spec.model_id.clone(),
        device: spec.device.clone(),
        compute_type: spec.compute_type.clone(),
    }
}

/// The identifiers of the jobs of commands.
pub open spec fn job_ids_of(jobs: Seq<TranscribeJobCommand>) -> Seq<Seq<char>> {
    Seq::new(jobs.len(), |i: int| jobs[i].job_id@)
}

/// `job` is the fresh job of a command.
pub open spec fn is_entity(command: TranscribeJobCommand, job: JobView) -> bool {
    job == JobView::fresh(
        command.job_id,
        command.batch_id,
        Some(command.execution_snapshot_id),
        command.profile_revision,
        command.input@,
    )
}

impl CreateBatch {
    /// Begin a batch. `spec_check` says whether the recognizer settings are
    /// complete.
    pub fn begin(
        command: ProcessMediaFilesCommand,
        spec_check: Result<(), String>,
        batch_id: BatchId,
        profile_revision: UlidStr,
        created_at: String,
    ) -> (result: AppResult<Self>)
        ensures
            ({
                let spec_error = match spec_check {
                    Ok(_) => None,
                    Err(text) => Some(text@),
                };
                match result {
                    Ok(batch) => creation_refusal(command.files@, spec_error) is None && batch@ == (
                    CreateBatchView {
                        batch_id,
                        profile_revision,
                        created_at: created_at@,
                        command,
                        jobs: seq![],
                        snapshots: seq![],
                    }),
                    Err(error) => creation_refusal(command.files@, spec_error) == Some(error@),
                }
            }),
    {
        if command.files.len() == 0 {
            return Err(ApplicationError::invalid("no input files"));
        }
        if let Err(text) = spec_check {
            return Err(ApplicationError::Invalid(text));
        }
        let batch = CreateBatch {
            batch_id,
            profile_revision,
            created_at,
            command,
            jobs: Vec::new(),
            snapshots: Vec::new(),
        };
        assert(batch@.jobs =~= seq![]);
        assert(batch@.snapshots =~= seq![]);
        Ok(batch)
    }

    /// Add the job of a file: a frozen record of what it is asked to do, and
    /// the command that this record gives back.
    pub fn add_file(
        &mut self,
        file: &PreparedMediaFile,
        job_id: JobId,
        snapshot_id: UlidStr,
        job_dir: &str,
        planned: &PlannedOutput,
    )
        ensures
            ({
                let before = old(self)@;
                let after = final(self)@;
                &&& after == CreateBatchView {
                    jobs: after.jobs,
                    snapshots: after.snapshots,
                    ..before
                }
                &&& after.jobs.len() == before.jobs.len() + 1
                &&& after.jobs.drop_last() == before.jobs
                &&& after.snapshots.len() == before.snapshots.len() + 1
                &&& after.snapshots.drop_last() == before.snapshots
                &&& is_record(
                    before,
                    *file,
                    job_id,
                    snapshot_id,
                    job_dir@,
                    *planned,
                    after.snapshots.last(),
                )
                &&& output_error(after.snapshots.last()) is None
                &&& runs(after.jobs.last(), after.snapshots.last())
                &&& after.jobs.last().job_id == job_id
                &&& after.jobs.last().batch_id == Some(before.batch_id)
            }),
    {
        let snapshot = frozen_record(self, file, &job_id, &snapshot_id, job_dir, planned);
        let llm = match &self.command.profile.llm {
            Some(options) => Some(options.clone()),
            None => None,
        };
        let job = TranscribeJobCommand {
            job_id,
            batch_id: Some(self.batch_id.clone()),
            execution_snapshot_id: snapshot_id,
            profile_revision: self.profile_revision.clone(),
            input: file.canonical_path.clone(),
            job_dir: job_dir.to_owned(),
            language: self.command.language.clone(),
            export: SubtitleExportRequest {
                output_path: planned.path.clone(),
                format: self.command.format,
                layout: self.command.layout,
                fallback_to_source: self.command.layout == SubtitleLayout::TranslationOnly,
            },
            llm,
        };
        proof {
            law_names_are_read_back(self.command.format, self.command.layout);
        }
        assert(runs(job, snapshot));
        let ghost jobs = self.jobs@;
        let ghost snapshots = self.snapshots@;
        self.jobs.push(job);
        self.snapshots.push(snapshot);
        assert(self.jobs@.drop_last() =~= jobs);
        assert(self.snapshots@.drop_last() =~= snapshots);
    }

    fn entities(&self) -> (entities: Vec<Job>)
        ensures
            entities@.len() == self@.jobs.len(),
            forall|i: int|
                0 <= i < entities@.len() ==> is_entity(self@.jobs[i], (#[trigger] entities@[i])@),
    {
        let mut entities: Vec<Job> = Vec::new();
        let mut i: usize = 0;
        while i < self.jobs.len()
            invariant
                i <= self.jobs.len(),
                entities@.len() == i,
                forall|k: int|
                    0 <= k < i ==> is_entity(self@.jobs[k], (#[trigger] entities@[k])@),
            decreases self.jobs.len() - i,
        {
            let command = &self.jobs[i];
            entities.push(
                Job::new_with_snapshot(
                    command.job_id.clone(),
                    command.batch_id.clone(),
                    command.execution_snapshot_id.clone(),
                    command.profile_revision.clone(),
                    command.input.as_str(),
                ),
            );
            i += 1;
        }
        entities
    }

    /// Complete the batch.
    pub fn finish(self) -> (result: AppResult<CreatedBatch>)
        ensures
            match result {
                Ok(created) => {
                    &&& exists|profile: BatchExecutionProfile| #[trigger]
                        is_profile_of(self@.command.profile.asr, profile) && created.batch@
                            == BatchView::fresh(self@.batch_id, job_ids_of(self@.jobs), profile)
                    &&& self@.jobs.len() > 0
                    &&& !has_adjacent_duplicate(job_ids_of(self@.jobs))
                    &&& created.jobs@ == self@.jobs
                    &&& created.snapshots@ == self@.snapshots
                    &&& created.asr_spec == self@.command.profile.asr
                    &&& created.entities@.len() == self@.jobs.len()
                    &&& forall|i: int|
                        0 <= i < created.entities@.len() ==> is_entity(
                            self@.jobs[i],
                            (#[trigger] created.entities@[i])@,
                        )
                },
                Err(error) => if self@.jobs.len() == 0 {
                    error@ == ApplicationErrorView::Domain(
                        DomainErrorView::InvalidArgument("a batch must contain at least one job"@),
                    )
                } else {
                    has_adjacent_duplicate(job_ids_of(self@.jobs)) && error@
                        == ApplicationErrorView::Domain(
                        DomainErrorView::InvalidArgument("a batch cannot contain duplicate jobs"@),
                    )
                },
            },
    {
        let entities = self.entities();
        let profile = batch_profile(&self.command.profile.asr);
        let mut ids: Vec<JobId> = Vec::new();
        let mut i: usize = 0;
        while i < self.jobs.len()
            invariant
                i <= self.jobs.len(),
                id_texts(ids@) == job_ids_of(self.jobs@).take(i as int),
            decreases self.jobs.len() - i,
        {
            let ghost before = ids@;
            ids.push(self.jobs[i].job_id.clone());
            i += 1;
            assert(id_texts(ids@) =~= id_texts(before).push(self.jobs@[i - 1].job_id@));
            assert(id_texts(ids@) =~= job_ids_of(self.jobs@).take(i as int));
        }
        assert(id_texts(ids@) =~= job_ids_of(self.jobs@));
        assert(ids@.len() == self.jobs@.len()) by {
            assert(id_texts(ids@).len() == ids@.len());
        }
        match Batch::new(self.batch_id, ids, profile) {
            Ok(batch) => Ok(
                CreatedBatch {
                    batch,
                    entities,
                    snapshots: self.snapshots,
                    jobs: self.jobs,
                    asr_spec: self.command.profile.asr,
                },
            ),
            Err(error) => Err(ApplicationError::Domain(error)),
        }
    }
}

/// What is frozen for a job is what was asked for: its file, its recognizer, its
/// languages, its output and its language model. A layout without the source
/// text falls back to it where a translation is missing.
pub proof fn law_records_hold_what_was_asked_for(
    batch: CreateBatchView,
    file: PreparedMediaFile,
    job_id: JobId,
    snapshot_id: UlidStr,
    job_dir: Seq<char>,
    planned: PlannedOutput,
    snapshot: JobExecutionSnapshot,
)
    requires
        is_record(batch, file, job_id, snapshot_id, job_dir, planned, snapshot),
    ensures
        snapshot.snapshot_id == snapshot_id && snapshot.schema_version == 1,
        snapshot.job_id == job_id && snapshot.batch_id == batch.batch_id,
        snapshot.created_at@ == batch.created_at,
        snapshot.canonical_source_path@ == file.canonical_path@ && snapshot.source_stat
            == file.source_stat,
        snapshot.job_dir@ == job_dir,
        snapshot.profile_revision == batch.profile_revision && snapshot.profile_name@
            == batch.command.profile.name@,
        snapshot.asr.engine@ == batch.command.profile.asr.engine_family@,
        snapshot.asr.model_locator@ == batch.command.profile.asr.locator@,
        snapshot.asr.model_id matches Some(id) && id@ == batch.command.profile.asr.model_id@,
        match (snapshot.asr.model_digest, batch.command.profile.asr.verified_digest) {
            (Some(a), Some(b)) => a@ == b@,
            (None, None) => true,
            _ => false,
        },
        snapshot.asr.device@ == batch.command.profile.asr.device@ && snapshot.asr.compute_type@
            == batch.command.profile.asr.compute_type@,
        match (snapshot.source_language, batch.command.language) {
            (Some(a), Some(b)) => a@ == b@,
            (None, None) => true,
            _ => false,
        },
        match (snapshot.target_language, batch.command.target_language) {
            (Some(a), Some(b)) => a@ == b@,
            (None, None) => true,
            _ => false,
        },
        snapshot.output.path@ == planned.path@ && snapshot.output.conflict_policy@
            == planned.conflict_policy@,
        snapshot.output.format@ == batch.command.format.text() && snapshot.output.layout@
            == batch.command.layout.text(),
        snapshot.output.fallback_to_source <==> batch.command.layout
            == SubtitleLayout::TranslationOnly,
        snapshot.cache_max_bytes == batch.command.profile.cache_max_bytes,
        snapshot.llm is Some <==> batch.command.profile.llm is Some,
        snapshot.llm matches Some(frozen) ==> frozen.model@ == batch.command.profile.llm->0.model@
            && frozen.target_language@ == batch.command.profile.llm->0.target_language@
            && frozen.max_context_tokens == batch.command.profile.llm->0.max_context_tokens
            && frozen.max_output_tokens == batch.command.profile.llm->0.max_output_tokens
            && frozen.chars_per_token == batch.command.profile.llm->0.chars_per_token && frozen.seed
            == batch.command.profile.llm->0.seed && frozen.structured_output
            == batch.command.profile.llm->0.structured_output,
{
}

/// There is no batch without files, nor with a recognizer that cannot be used.
pub proof fn law_batches_need_files(files: Seq<String>, spec_error: Option<Seq<char>>)
    ensures
        creation_refusal(files, spec_error) is None <==> files.len() > 0 && spec_error is None,
{
}

/// The batch runs under the profile of its recognizer, and each job is a new one
/// for its file.
pub proof fn law_jobs_are_made_for_their_files(
    spec: AsrRuntimeSpec,
    profile: BatchExecutionProfile,
    command: TranscribeJobCommand,
    job: JobView,
)
    requires
        is_profile_of(spec, profile),
        is_entity(command, job),
    ensures
        profile.asr_engine@ == spec.engine_family@ && profile.asr_model@ == spec.model_id@
            && profile.device@ == spec.device@ && profile.compute_type@ == spec.compute_type@,
        job.id == command.job_id && job.batch_id == command.batch_id && job.source_path
            == command.input@,
        job.execution_snapshot_id == Some(command.execution_snapshot_id),
        job.profile_revision == command.profile_revision,
        job.status == crate::workflow::stage::JobStatus::Pending,
{
}

/// A moment is written as a date where it can be.
pub proof fn law_moments_are_written_as_dates(now_ms: u64)
    ensures
        now_ms <= i64::MAX ==> (rfc3339_text(now_ms as i64) matches Some(text) ==> timestamp_text(
            now_ms,
        ) == Ok::<Seq<char>, ApplicationErrorView>(text)),
        now_ms > i64::MAX ==> timestamp_text(now_ms) is Err,
        now_ms <= i64::MAX && rfc3339_text(now_ms as i64) is None ==> timestamp_text(now_ms) is Err,
{
}

/// The members of a batch are its jobs in their order.
pub proof fn law_members_are_the_jobs(jobs: Seq<TranscribeJobCommand>, i: int)
    requires
        0 <= i < jobs.len(),
    ensures
        job_ids_of(jobs).len() == jobs.len(),
        job_ids_of(jobs)[i] == jobs[i].job_id@,
{
}

} // verus!
