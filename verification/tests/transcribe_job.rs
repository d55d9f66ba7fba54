use videocaptionerr::contracts::{AppResult, ApplicationError, ErrorCode, VcError};
use videocaptionerr::execution_snapshot::{
    AsrExecutionSnapshot, AudioStreamSelection, JobExecutionSnapshot, LlmExecutionSnapshot,
    OutputPlanSnapshot, SourceStatSnapshot,
};
use videocaptionerr::identity::UlidStr;
use videocaptionerr::llm::prompt::PromptFiles;
use videocaptionerr::ports::{
    LlmStage, StructuredOutput, SubtitleExportRequest, SubtitleFormat, SubtitleLayout,
};
use videocaptionerr::subtitle::transcript::{Confidence, EngineFingerprint, Transcript, Word};
use videocaptionerr::use_cases::llm_pipeline::types::PromptSnapshot;
use videocaptionerr::use_cases::process_media_files::JOB_EXECUTION_SNAPSHOT_SCHEMA_VERSION;
use videocaptionerr::use_cases::transcribe_job::asr::{
    asr_mode, cached_chunk, chunk_artifact, chunk_limit, chunk_path, chunk_step, chunk_unit, commit_chunk,
    lease_owner, no_chunking, settle_chunk, stored_unit, take_lease, AsrMode, ChunkStep,
    ASR_LEASE_MS,
};
use videocaptionerr::use_cases::transcribe_job::command::TranscribeJobCommand;
use videocaptionerr::use_cases::transcribe_job::commit::{
    bytes_artifact, commit_skip_stage, commit_stage, export_artifact, normalized_options_hash,
    options_hash, stage_artifact, stage_is_done, stage_is_pending, stage_status,
};
use videocaptionerr::use_cases::transcribe_job::long_audio::ChunkedTranscript;
use videocaptionerr::use_cases::transcribe_job::media::{
    check_source_hash, extract_manifest, map_corrupt, probe_manifest, transcript_corrupt,
    validate_source_against_snapshot, wav_artifact, AudioExtraction, AudioStream, MediaProbe,
    ProbeManifest,
};
use videocaptionerr::use_cases::transcribe_job::service::{
    durable_context, open_job, report_failure, stage_file, stage_producer, Step, TranscribeJob,
};
use videocaptionerr::workflow::job::Job;
use videocaptionerr::workflow::stage::{ArtifactRef, JobStatus, StageKind, StageStatus};
use videocaptionerr::workflow::work_unit::{WorkUnit, WorkUnitStatus};

const NOW: &str = "2026-07-20T00:00:00+00:00";

fn command() -> TranscribeJobCommand {
    TranscribeJobCommand {
        job_id: UlidStr::new("job"),
        batch_id: None,
        execution_snapshot_id: UlidStr::new("snapshot"),
        profile_revision: UlidStr::new("profile"),
        input: "/media/input.wav".into(),
        job_dir: "/jobs/job".into(),
        language: Some("en".into()),
        export: SubtitleExportRequest {
            output_path: "/out/output.srt".into(),
            format: SubtitleFormat::Srt,
            layout: SubtitleLayout::SourceOnly,
            fallback_to_source: true,
        },
        llm: None,
    }
}

fn transcript() -> Transcript {
    Transcript::new_asr(
        "source",
        EngineFingerprint::unknown(),
        vec![
            Word { text: "hello".into(), start_ms: 0, end_ms: 200, prob: Confidence::new(0.9f32.to_bits(), "0.9") },
            Word { text: "world".into(), start_ms: 220, end_ms: 500, prob: Confidence::unavailable() },
        ],
    )
}

fn failed(code: ErrorCode) -> ApplicationError {
    ApplicationError::Adapter(VcError::new(code, "fake failure"))
}

/// What is done for a job: the stages that are worked on, and where to fail.
#[derive(Default)]
struct Worker {
    ran: Vec<StageKind>,
    reused: Vec<StageKind>,
    fail_at: Option<(StageKind, ErrorCode)>,
    /// The job is asked to stop once so many stages have been entered.
    stop_at: Option<usize>,
    saves_fail: bool,
}

impl Worker {
    fn work(&mut self, run: &mut TranscribeJob) -> AppResult<()> {
        loop {
            match run.next(self.stop_at == Some(self.ran.len()))? {
                Step::Run(kind) => {
                    self.ran.push(kind);
                    if let Some((stage, code)) = self.fail_at {
                        if stage == kind {
                            return Err(failed(code));
                        }
                    }
                    let id = UlidStr::new(kind.as_str());
                    let artifact = match stage_file(kind) {
                        Some(name) => bytes_artifact(id, kind, name, b"{}", "test"),
                        None => export_artifact(id, "/out/output.srt", "srt-hash"),
                    };
                    let commit = commit_stage(run.job(), artifact, false, NOW)?;
                    run.committed(Some(commit.job))?;
                }
                Step::Reuse(artifact) => self.reused.push(artifact.stage),
                Step::Skip(kind) => {
                    let commit = commit_skip_stage(run.job(), kind, NOW)?;
                    run.committed(Some(commit.job))?;
                }
                Step::Pass => {}
                Step::Finish => return Ok(()),
            }
        }
    }

    fn execute(
        &mut self,
        stored: Option<Job>,
        command: &TranscribeJobCommand,
    ) -> (AppResult<()>, Option<Job>) {
        let mut job = match open_job(stored, command) {
            Ok((job, _)) => job,
            Err(error) => return (Err(error), None),
        };
        job.start().unwrap();
        let mut run = TranscribeJob::new(job, command.llm.is_some(), false, true);
        match self.work(&mut run) {
            Ok(()) => (Ok(()), Some(run.job().clone())),
            Err(error) => {
                let primary = error.into_vc_error();
                let job = run.fail(&primary);
                let saved = if self.saves_fail { Err(failed(ErrorCode::Internal)) } else { Ok(()) };
                (Err(report_failure(ApplicationError::Adapter(primary), saved)), Some(job))
            }
        }
    }
}

fn check_vertical_slice() {
    let mut worker = Worker::default();
    let (result, job) = worker.execute(None, &command());
    result.unwrap();
    let job = job.unwrap();
    assert_eq!(job.status(), JobStatus::Done);
    assert_eq!(
        worker.ran,
        vec![
            StageKind::Probe,
            StageKind::ExtractAudio,
            StageKind::Asr,
            StageKind::Split,
            StageKind::Export
        ]
    );
    assert_eq!(stage_status(&job, StageKind::Correct), StageStatus::Skipped);
    assert_eq!(stage_status(&job, StageKind::Translate), StageStatus::Skipped);
}

#[test]
fn transcribe_job_fake_vertical_slice_completes_without_unloading_session() {
    check_vertical_slice();
}

#[test]
fn mod_fake_vertical_slice_completes_without_unloading_session() {
    check_vertical_slice();
}

#[test]
fn pending_job_rejects_a_different_execution_snapshot() {
    let mut command = command();
    let stored = Job::new_with_snapshot(
        command.job_id.clone(),
        command.batch_id.clone(),
        command.execution_snapshot_id.clone(),
        command.profile_revision.clone(),
        &command.input,
    );
    command.execution_snapshot_id = UlidStr::new("other");
    let error = open_job(Some(stored), &command).unwrap_err().into_vc_error();
    assert_eq!(error.code, ErrorCode::InvalidArgument);
    assert_eq!(error.message, "Job job is bound to a different execution snapshot");
}

#[test]
fn stored_jobs_have_to_be_the_ones_that_are_asked_for() {
    let first = command();
    let stored = || {
        Job::new_with_snapshot(
            first.job_id.clone(),
            None,
            first.execution_snapshot_id.clone(),
            first.profile_revision.clone(),
            &first.input,
        )
    };
    let mut other = command();
    other.batch_id = Some(UlidStr::new("batch"));
    assert_eq!(
        open_job(Some(stored()), &other).unwrap_err().into_vc_error().message,
        "Job job belongs to a different Batch"
    );
    let mut other = command();
    other.input = "/media/other.wav".into();
    assert_eq!(
        open_job(Some(stored()), &other).unwrap_err().into_vc_error().message,
        "Job job source identity does not match its execution snapshot"
    );
    let mut running = stored();
    running.start().unwrap();
    assert_eq!(
        open_job(Some(running), &first).unwrap_err().into_vc_error().message,
        "Job job is Running; call retry before executing it again"
    );
    assert!(!open_job(Some(stored()), &first).unwrap().1);
    assert!(open_job(None, &first).unwrap().1);
}

#[test]
fn retry_after_export_failure_reuses_completed_transcript_stages() {
    let mut first = Worker {
        fail_at: Some((StageKind::Export, ErrorCode::ExportFailed)),
        ..Worker::default()
    };
    let (result, job) = first.execute(None, &command());
    assert_eq!(result.unwrap_err().into_vc_error().code, ErrorCode::ExportFailed);
    let failed_job = job.unwrap();
    assert_eq!(failed_job.status(), JobStatus::Failed);
    assert_eq!(stage_status(&failed_job, StageKind::Split), StageStatus::Done);
    assert_eq!(stage_status(&failed_job, StageKind::Export), StageStatus::Failed);

    let mut retry_job = failed_job.clone();
    retry_job.prepare_retry(None).unwrap();
    let mut retry = Worker::default();
    let (result, job) = retry.execute(Some(retry_job), &command());
    result.unwrap();
    assert_eq!(job.unwrap().status(), JobStatus::Done);
    assert_eq!(retry.ran, vec![StageKind::Export]);
    assert_eq!(
        retry.reused,
        vec![StageKind::Probe, StageKind::ExtractAudio, StageKind::Asr, StageKind::Split]
    );
}

#[test]
fn export_only_retry_does_not_reprobe_or_reextract_or_retranscribe() {
    let mut first = Worker {
        fail_at: Some((StageKind::Export, ErrorCode::ExportFailed)),
        ..Worker::default()
    };
    let (_, job) = first.execute(None, &command());
    let mut retry_job = job.unwrap();
    assert_eq!(retry_job.prepare_retry(None).unwrap(), StageKind::Export);
    // Fails where anything but the export is run again.
    let mut retry = Worker {
        fail_at: Some((StageKind::Asr, ErrorCode::AsrFailed)),
        ..Worker::default()
    };
    let (result, job) = retry.execute(Some(retry_job), &command());
    result.unwrap();
    assert_eq!(job.unwrap().status(), JobStatus::Done);
    assert!(!retry.ran.contains(&StageKind::Probe));
    assert!(!retry.ran.contains(&StageKind::ExtractAudio));
    assert!(!retry.ran.contains(&StageKind::Asr));
}

fn check_asr_failure() {
    let mut worker = Worker {
        fail_at: Some((StageKind::Asr, ErrorCode::AsrFailed)),
        ..Worker::default()
    };
    let (result, job) = worker.execute(None, &command());
    assert_eq!(result.unwrap_err().into_vc_error().code, ErrorCode::AsrFailed);
    assert_eq!(job.unwrap().status(), JobStatus::Failed);
}

#[test]
fn transcribe_job_asr_failure_marks_job_failed() {
    check_asr_failure();
}

#[test]
fn mod_asr_failure_marks_job_failed() {
    check_asr_failure();
}

#[test]
fn asr_retry_reruns_asr_and_later_stages_only() {
    let mut first = Worker {
        fail_at: Some((StageKind::Asr, ErrorCode::AsrFailed)),
        ..Worker::default()
    };
    let (_, job) = first.execute(None, &command());
    let mut retry_job = job.unwrap();
    assert_eq!(retry_job.prepare_retry(None).unwrap(), StageKind::Asr);
    let mut retry = Worker::default();
    let (result, job) = retry.execute(Some(retry_job), &command());
    result.unwrap();
    assert_eq!(job.unwrap().status(), JobStatus::Done);
    assert_eq!(retry.reused, vec![StageKind::Probe, StageKind::ExtractAudio]);
    assert_eq!(retry.ran, vec![StageKind::Asr, StageKind::Split, StageKind::Export]);
}

#[test]
fn terminal_state_save_failure_is_returned_with_the_primary_error() {
    let mut worker = Worker {
        fail_at: Some((StageKind::Asr, ErrorCode::AsrFailed)),
        saves_fail: true,
        ..Worker::default()
    };
    let (result, _) = worker.execute(None, &command());
    let error = result.unwrap_err();
    assert!(matches!(error, ApplicationError::StatePersistence { .. }));
    let reported = error.into_vc_error();
    assert_eq!(reported.code, ErrorCode::AsrFailed);
    assert_eq!(
        reported.detail.as_deref(),
        Some("state persistence failed: fake failure")
    );
}

#[test]
fn jobs_without_a_stage_to_blame_are_cancelled() {
    let (mut job, _) = open_job(None, &command()).unwrap();
    job.start().unwrap();
    let run = TranscribeJob::new(job, false, false, true);
    let error = VcError::new(ErrorCode::SourceChanged, "changed");
    assert_eq!(run.fail(&error).status(), JobStatus::Cancelled);
}

#[test]
fn stopped_jobs_end_as_cancelled_at_every_boundary() {
    for entered in 0..=5 {
        let mut worker = Worker { stop_at: Some(entered), ..Worker::default() };
        let (result, job) = worker.execute(None, &command());
        assert_eq!(result.unwrap_err().into_vc_error().code, ErrorCode::Cancelled);
        let job = job.unwrap();
        assert_eq!(worker.ran.len(), entered);
        assert_eq!(job.status(), JobStatus::Cancelled);
        for kind in worker.ran {
            assert_eq!(stage_status(&job, kind), StageStatus::Done);
        }
    }
}

#[test]
fn jobs_stopped_inside_a_stage_end_as_cancelled() {
    let mut worker = Worker {
        fail_at: Some((StageKind::Asr, ErrorCode::Cancelled)),
        ..Worker::default()
    };
    let (result, job) = worker.execute(None, &command());
    assert_eq!(result.unwrap_err().into_vc_error().code, ErrorCode::Cancelled);
    let job = job.unwrap();
    assert_eq!(job.status(), JobStatus::Cancelled);
    assert_eq!(stage_status(&job, StageKind::Asr), StageStatus::Cancelled);
    assert_eq!(stage_status(&job, StageKind::Probe), StageStatus::Done);
    assert_eq!(stage_status(&job, StageKind::Export), StageStatus::Cancelled);
}

#[test]
fn a_second_run_over_recognized_chunks_gives_the_same_words() {
    let mut unit = chunk_unit(UlidStr::new("u"), UlidStr::new("job"), 0, "key").unwrap();
    unit.lease_for("asr", 0, 1).unwrap();
    let commit =
        commit_chunk(&unit, UlidStr::new("a"), "/jobs/a", 0, b"{}", "fp", NOW).unwrap();
    assert_eq!(chunk_step(0, &commit.unit).unwrap(), ChunkStep::Load);
    assert_eq!(chunk_artifact(&commit.unit).unwrap(), commit.artifact);
    let words = |raw: Transcript| {
        let mut chunks = ChunkedTranscript::new();
        let core = raw.words.clone();
        chunks.append_chunk_words(&raw, core);
        chunks.finish("source", &None).unwrap().words
    };
    let loaded = cached_chunk(Ok(transcript()), "key").unwrap();
    assert_eq!(words(loaded), words(transcript()));
    let error = cached_chunk(Err("expected value".into()), "key").unwrap_err().into_vc_error();
    assert_eq!(error.code, ErrorCode::CacheCorrupt);
    assert_eq!(error.message, "decode ASR chunk cache key: expected value");
}

#[test]
fn recognizers_have_to_give_word_times() {
    let (mut job, _) = open_job(None, &command()).unwrap();
    job.start().unwrap();
    let mut run = TranscribeJob::new(job, false, false, false);
    let mut worker = Worker::default();
    let error = worker.work(&mut run).unwrap_err().into_vc_error();
    assert_eq!(error.code, ErrorCode::EngineCapabilityInsufficient);
    let job = run.fail(&error);
    assert_eq!(stage_status(&job, StageKind::Asr), StageStatus::Failed);
}

#[test]
fn language_model_stages_need_a_language_model() {
    let (mut job, _) = open_job(None, &command()).unwrap();
    job.start().unwrap();
    let mut run = TranscribeJob::new(job, true, false, true);
    assert_eq!(
        run.check_llm().unwrap_err().into_vc_error().code,
        ErrorCode::LlmProviderUnavailable
    );
    let mut worker = Worker::default();
    assert!(worker.work(&mut run).is_err());
    let (mut job, _) = open_job(None, &command()).unwrap();
    job.start().unwrap();
    let mut run = TranscribeJob::new(job, true, true, true);
    let mut worker = Worker::default();
    worker.work(&mut run).unwrap();
    assert!(worker.ran.contains(&StageKind::Translate));
    assert!(run.committed(None).is_err());
}

#[test]
fn stages_that_can_be_neither_used_nor_run_are_refused() {
    let (mut job, _) = open_job(None, &command()).unwrap();
    job.start().unwrap();
    job.start_stage(StageKind::Probe).unwrap();
    let mut run = TranscribeJob::new(job, false, false, true);
    assert_eq!(
        run.next(false).unwrap_err().into_vc_error().message,
        "probe stage is Running and cannot be reused or executed"
    );
}

fn stat(size: u64, modified_at_ms: u64) -> SourceStatSnapshot {
    SourceStatSnapshot { size, modified_at_ms: Some(modified_at_ms) }
}

fn prompt(stage: LlmStage, body: &str) -> PromptSnapshot {
    let mut files = PromptFiles::new();
    files.insert("system.txt", body);
    PromptSnapshot { schema_version: 1, stage, files, content_hash: format!("hash-{body}") }
}

fn snapshot() -> JobExecutionSnapshot {
    JobExecutionSnapshot {
        snapshot_id: UlidStr::new("snapshot"),
        schema_version: JOB_EXECUTION_SNAPSHOT_SCHEMA_VERSION,
        created_at: "2026-07-20T00:00:00Z".into(),
        job_id: UlidStr::new("job"),
        batch_id: UlidStr::new("batch"),
        canonical_source_path: "/media/input.mp4".into(),
        source_stat: stat(9, 1),
        job_dir: "/jobs/1".into(),
        profile_revision: UlidStr::new("profile"),
        profile_name: "default".into(),
        asr: AsrExecutionSnapshot {
            engine: "whisper-cpp".into(),
            model_locator: "/models/x.bin".into(),
            model_id: None,
            model_digest: None,
            device: "cpu".into(),
            compute_type: "default".into(),
        },
        audio_stream: AudioStreamSelection::Auto,
        source_language: Some("en".into()),
        target_language: Some("zh".into()),
        output: OutputPlanSnapshot {
            path: "/out/a.srt".into(),
            format: "srt".into(),
            layout: "bilingual_source_first".into(),
            conflict_policy: "rename".into(),
            fallback_to_source: false,
        },
        cache_max_bytes: 0,
        llm: Some(LlmExecutionSnapshot {
            provider_profile_revision: "rev".into(),
            model: "deepseek".into(),
            max_context_tokens: Some(1),
            max_output_tokens: Some(2),
            chars_per_token: 4000,
            structured_output: StructuredOutput::JsonObject,
            seed: Some(3),
            target_language: "zh".into(),
            split_prompt: prompt(LlmStage::Split, "split frozen"),
            correct_prompt: prompt(LlmStage::Correct, "correct frozen"),
            translate_prompt: prompt(LlmStage::Translate, "translate frozen"),
        }),
    }
}

#[test]
fn from_snapshot_rebuilds_command_without_profile_defaults() {
    let command = TranscribeJobCommand::from_snapshot(&snapshot()).unwrap();
    assert_eq!(command.input, "/media/input.mp4");
    assert_eq!(command.export.output_path, "/out/a.srt");
    assert_eq!(
        command.llm.as_ref().unwrap().split_prompt.content_hash,
        "hash-split frozen"
    );
    assert_eq!(command.llm.as_ref().unwrap().target_language, "zh");
}

#[test]
fn unknown_outputs_are_refused() {
    let mut frozen = snapshot();
    frozen.output.format = "sub".into();
    assert!(TranscribeJobCommand::from_snapshot(&frozen).is_err());
    let mut frozen = snapshot();
    frozen.output.layout = "sideways".into();
    assert!(TranscribeJobCommand::from_snapshot(&frozen).is_err());
}

#[test]
fn source_changed_is_reported_when_size_differs_from_snapshot() {
    let frozen = snapshot();
    let path = "/media/input.mp4";
    assert!(validate_source_against_snapshot(path, Ok(stat(9, 1)), &frozen).is_ok());
    for current in [stat(10, 1), stat(9, 2)] {
        let error = validate_source_against_snapshot(path, Ok(current), &frozen)
            .unwrap_err()
            .into_vc_error();
        assert_eq!(error.code, ErrorCode::SourceChanged);
        assert_eq!(error.message, "source size/mtime changed for /media/input.mp4");
    }
    let error = validate_source_against_snapshot("/other", Ok(stat(9, 1)), &frozen)
        .unwrap_err()
        .into_vc_error();
    assert_eq!(
        error.message,
        "source path changed: expected /media/input.mp4, got /other"
    );
    let error =
        validate_source_against_snapshot(path, Err(failed(ErrorCode::InputNotFound)), &frozen)
            .unwrap_err()
            .into_vc_error();
    assert_eq!(error.code, ErrorCode::InputNotFound);
}

#[test]
fn probe_corrupt_manifest_returns_artifact_corrupt() {
    let error = map_corrupt(failed(ErrorCode::Internal), "probe artifact is corrupt").into_vc_error();
    assert_eq!(error.code, ErrorCode::ArtifactCorrupt);
    assert_eq!(error.message, "probe artifact is corrupt");
    assert_eq!(error.detail.as_deref(), Some("fake failure"));
    let error = map_corrupt(failed(ErrorCode::ArtifactCorrupt), "other").into_vc_error();
    assert_eq!(error.message, "fake failure");
    let error = transcript_corrupt(failed(ErrorCode::Internal), StageKind::Asr).into_vc_error();
    assert_eq!(error.message, "Asr transcript is corrupt");
}

fn probe(streams: usize) -> MediaProbe {
    MediaProbe {
        schema_version: 1,
        input_size: 10,
        container: Some("wav".into()),
        duration_ms: 1000,
        audio_streams: (0..streams)
            .map(|i| AudioStream {
                stream_index: i as u32,
                codec: "pcm_s16le".into(),
                language: Some("en".into()),
                title: None,
                channels: 1 + i as u32,
                sample_rate: 16_000,
                is_default: i == 0,
            })
            .collect(),
    }
}

fn manifest(streams: usize, chosen: Option<u32>, default: Option<u32>) -> AppResult<ProbeManifest> {
    probe_manifest(
        "/media/input.wav",
        stat(10, 0),
        "media-hash".into(),
        probe(streams),
        chosen,
        default,
        "fake-media".into(),
    )
}

fn extraction() -> AudioExtraction {
    AudioExtraction {
        wav_path: "/jobs/job/audio.wav".into(),
        wav_content_hash: "wav-hash".into(),
        pcm_hash: "pcm-hash".into(),
        producer: "fake-media".into(),
    }
}

#[test]
fn sound_is_taken_from_the_chosen_track() {
    assert_eq!(
        manifest(0, None, None).unwrap_err().into_vc_error().message,
        "no audio streams"
    );
    assert_eq!(
        manifest(1, None, None).unwrap_err().into_vc_error().message,
        "no selectable audio stream"
    );
    assert_eq!(manifest(2, Some(1), Some(0)).unwrap().selected_stream_index, 1);
    let found = manifest(2, None, Some(0)).unwrap();
    assert_eq!(found.selected_stream_index, 0);
    assert!(check_source_hash(&found, "media-hash", "/media/input.wav").is_ok());
    assert_eq!(
        check_source_hash(&found, "other", "/media/input.wav")
            .unwrap_err()
            .into_vc_error()
            .code,
        ErrorCode::SourceChanged
    );
    let (mut job, _) = open_job(None, &command()).unwrap();
    assert_eq!(
        extract_manifest(&job, &found, extraction()).unwrap_err().into_vc_error().message,
        "stage Probe has no artifact"
    );
    job.start().unwrap();
    job.start_stage(StageKind::Probe).unwrap();
    let artifact = bytes_artifact(UlidStr::new("p"), StageKind::Probe, "00_probe.json", b"{}", "t");
    job.complete_stage(StageKind::Probe, artifact.clone(), false).unwrap();
    let chosen = manifest(2, Some(1), None).unwrap();
    let extract = extract_manifest(&job, &chosen, extraction()).unwrap();
    assert_eq!(extract.channels, 2);
    assert_eq!(extract.probe_artifact_id, UlidStr::new("p"));
    assert_eq!(wav_artifact(&artifact, &extract).content_hash, "wav-hash");
    let missing = manifest(2, Some(7), None).unwrap();
    assert_eq!(
        extract_manifest(&job, &missing, extraction()).unwrap_err().into_vc_error().message,
        "selected stream missing from probe manifest"
    );
}

#[test]
fn long_audio_is_cut_only_where_it_has_to_be() {
    assert_eq!(asr_mode(None, 250_000), AsrMode::Full);
    assert_eq!(asr_mode(Some(0), 250_000), AsrMode::Full);
    assert_eq!(asr_mode(Some(250), 250_000), AsrMode::Full);
    assert_eq!(
        asr_mode(Some(100), 250_000),
        AsrMode::Chunked { max_audio_ms: 100_000 }
    );
    assert_eq!(chunk_limit(120_000, 100_000), 100_000);
    assert_eq!(chunk_limit(60_000, 100_000), 60_000);
    assert_eq!(no_chunking().into_vc_error().code, ErrorCode::OptionUnsupported);
    assert_eq!(chunk_path("/jobs/job", 3, "wav"), "/jobs/job/asr-chunks/chunk-0003.wav");
    assert_eq!(lease_owner(&UlidStr::new("job")), "asr:job");
}

fn unit(index: u32) -> WorkUnit {
    let id = UlidStr::new(&format!("unit-{index}"));
    chunk_unit(id, UlidStr::new("job"), index, "cache-key").unwrap()
}

/// Recognize the chunks of the units that still wait.
fn recognize(units: &mut Vec<WorkUnit>, calls: &mut Vec<u32>, fail_at: Option<u32>) -> AppResult<Transcript> {
    let mut whole = ChunkedTranscript::new();
    for at in 0..units.len() {
        let index = units[at].unit_index();
        let raw = transcript();
        if chunk_step(index, &units[at])? == ChunkStep::Recognize {
            let mut leased = units[at].clone();
            leased.lease_for(&lease_owner(&UlidStr::new("job")), 0, ASR_LEASE_MS).unwrap();
            let leased = take_lease(index, units[at].id(), Some(leased))?;
            calls.push(index);
            if fail_at == Some(index) {
                let error = failed(ErrorCode::AsrFailed).into_vc_error();
                units[at] = settle_chunk(leased, &error)?.unwrap();
                return Err(ApplicationError::Adapter(error));
            }
            let commit = commit_chunk(
                &leased,
                UlidStr::new("artifact"),
                "/jobs/job",
                index,
                b"{}",
                "fingerprint",
                NOW,
            )?;
            units[at] = stored_unit(Some(commit.unit))?;
        } else {
            assert!(chunk_artifact(&units[at]).is_ok());
        }
        let words = vec![Word {
            text: format!("w{index}"),
            start_ms: index as u64 * 100,
            end_ms: index as u64 * 100 + 50,
            prob: Confidence::unavailable(),
        }];
        whole.append_chunk_words(&raw, words);
    }
    whole.finish("media-hash", &Some("en".into()))
}

#[test]
fn long_audio_uses_core_ownership_and_skips_cached_asr() {
    let mut units: Vec<WorkUnit> = (0..3).map(unit).collect();
    let mut calls = Vec::new();
    let first = recognize(&mut units, &mut calls, None).unwrap();
    let texts: Vec<&str> = first.words.iter().map(|word| word.text.as_str()).collect();
    assert_eq!(texts, ["w0", "w1", "w2"]);
    assert_eq!(first.language.as_deref(), Some("en"));
    assert!(units
        .iter()
        .all(|unit| unit.status() == WorkUnitStatus::Done && unit.artifact().is_some()));
    let mut again = Vec::new();
    let cached = recognize(&mut units, &mut again, None).unwrap();
    assert_eq!(cached.words, first.words);
    assert!(again.is_empty());
}

#[test]
fn failed_long_audio_chunk_is_retryable_without_rerunning_completed_chunks() {
    let mut units: Vec<WorkUnit> = (0..3).map(unit).collect();
    let mut calls = Vec::new();
    let error = recognize(&mut units, &mut calls, Some(1)).unwrap_err();
    assert_eq!(error.into_vc_error().code, ErrorCode::AsrFailed);
    let statuses: Vec<WorkUnitStatus> = units.iter().map(WorkUnit::status).collect();
    assert_eq!(
        statuses,
        [WorkUnitStatus::Done, WorkUnitStatus::Failed, WorkUnitStatus::Pending]
    );
    assert_eq!(
        recognize(&mut units, &mut calls, None).unwrap_err().into_vc_error().message,
        "ASR chunk 1 is Failed; recover or retry its work unit first"
    );
    units[1].retry().unwrap();
    recognize(&mut units, &mut calls, None).unwrap();
    assert_eq!(calls, [0, 1, 1, 2]);
    assert!(units.iter().all(|unit| unit.status() == WorkUnitStatus::Done));
}

#[test]
fn chunks_are_leased_in_their_order() {
    assert_eq!(
        take_lease(2, &UlidStr::new("unit-2"), None).unwrap_err().into_vc_error().message,
        "ASR chunk 2 could not be leased"
    );
    assert_eq!(
        take_lease(2, &UlidStr::new("unit-2"), Some(unit(1)))
            .unwrap_err()
            .into_vc_error()
            .message,
        "ASR work-unit FIFO order changed while processing a ChunkPlan"
    );
    assert!(stored_unit(None).is_err());
    assert_eq!(
        chunk_artifact(&unit(4)).unwrap_err().into_vc_error().message,
        "completed ASR chunk 4 has no artifact"
    );
    assert!(chunk_unit(UlidStr::new("u"), UlidStr::new("j"), 0, "").is_err());
}

#[test]
fn cancelled_chunks_are_cancelled_once() {
    let cancelled = failed(ErrorCode::Cancelled).into_vc_error();
    let mut leased = unit(0);
    leased.lease_for("asr:job", 0, ASR_LEASE_MS).unwrap();
    let ended = settle_chunk(leased, &cancelled).unwrap().unwrap();
    assert_eq!(ended.status(), WorkUnitStatus::Cancelled);
    assert!(settle_chunk(ended, &cancelled).unwrap().is_none());
    assert!(settle_chunk(unit(0), &failed(ErrorCode::AsrFailed).into_vc_error()).is_err());
}

#[test]
fn notes_are_valid_json() {
    let (mut job, _) = open_job(None, &command()).unwrap();
    job.start().unwrap();
    job.start_stage(StageKind::Probe).unwrap();
    let artifact: ArtifactRef =
        bytes_artifact(UlidStr::new("p"), StageKind::Probe, "00_probe.json", b"{}", "t");
    assert_eq!(artifact.content_hash, blake3::hash(b"{}").to_hex().to_string());
    let commit = commit_stage(&job, artifact, false, NOW).unwrap();
    assert_eq!(commit.event.event_type, "stage_probe_committed");
    let payload: serde_json::Value = serde_json::from_str(&commit.event.payload_json).unwrap();
    assert_eq!(payload["artifact_id"], "p");
    assert_eq!(payload["job_id"], "job");
    assert_eq!(payload["stage"], "probe");
    assert_eq!(payload["status"], "running");
    assert!(stage_is_done(&commit.job, StageKind::Probe));
    assert!(stage_is_pending(&commit.job, StageKind::ExtractAudio));
    assert!(stage_artifact(&commit.job, StageKind::Asr).is_err());
    let skipped = commit_skip_stage(&commit.job, StageKind::ExtractAudio, NOW).unwrap();
    assert_eq!(skipped.event.event_type, "job_stage_updated");
    let payload: serde_json::Value = serde_json::from_str(&skipped.event.payload_json).unwrap();
    assert!(payload["stage"].is_null());
    assert!(payload["artifact_id"].is_null());
    assert!(commit_skip_stage(&job, StageKind::Probe, NOW).is_err());
}

#[test]
fn option_hashes_follow_the_language() {
    let body = format!("language={:?};word_timestamps=true", Some("e\"n"));
    assert_eq!(
        normalized_options_hash(Some("e\"n")),
        blake3::hash(body.as_bytes()).to_hex().to_string()
    );
    assert_eq!(
        normalized_options_hash(None),
        blake3::hash(b"language=None;word_timestamps=true").to_hex().to_string()
    );
    assert_eq!(options_hash(Some("\"en\"")), normalized_options_hash(Some("en")));
}

#[test]
fn language_model_stages_work_on_the_stage_before() {
    let (mut job, _) = open_job(None, &command()).unwrap();
    job.start().unwrap();
    let mut run = TranscribeJob::new(job, false, false, true);
    Worker::default().work(&mut run).unwrap();
    let job = run.job().clone();
    let input = |stage| durable_context(&job, &command(), stage, 4).input_artifact_id;
    assert_eq!(input(LlmStage::Split).as_deref(), Some("asr"));
    assert_eq!(input(LlmStage::Correct).as_deref(), Some("split"));
    assert_eq!(input(LlmStage::Translate).as_deref(), Some("split"));
    assert_eq!(stage_producer(LlmStage::Split, true), "llm-split");
    assert_eq!(stage_producer(LlmStage::Split, false), "domain-rule-split");
    assert_eq!(stage_file(StageKind::Translate), Some("04_translate.json"));
    assert_eq!(stage_file(StageKind::Export), None);
}
