use videocaptionerr::contracts::{AppResult, ApplicationError, ErrorCode, VcError};
use videocaptionerr::execution_snapshot::{JobExecutionSnapshot, SourceStatSnapshot};
use videocaptionerr::identity::UlidStr;
use videocaptionerr::ports::{AsrRuntimeSpec, SubtitleFormat, SubtitleLayout};
use videocaptionerr::subtitle::transcript::{
    Confidence, Cue, CueFlags, EngineFingerprint, FieldOrigin, LlmTextField, RangeUsize,
    Transcript, Word,
};
use videocaptionerr::use_cases::cancel_job::{
    admit_batch, admit_job, cancel_job, cancel_outbox_event, cancel_unit, is_stop_wanted,
    job_response, CancelBatch,
};
use videocaptionerr::use_cases::chunk_plan::{chunk_plan_producer, chunk_plan_stage};
use videocaptionerr::use_cases::import_subtitle::import_job;
use videocaptionerr::use_cases::job_ops::export_source;
use videocaptionerr::use_cases::job_ops::lanes::{
    MAX_CONCURRENT_ASR_SESSIONS, MAX_CONCURRENT_EXPORT, MAX_CONCURRENT_EXTRACT, MAX_CONCURRENT_LLM,
};
use videocaptionerr::use_cases::maintenance::{
    prepare_retried_job, retry_response, RetryFailedWorkUnitsCommand,
};
use videocaptionerr::use_cases::process_media_files::{
    stored_moment, timestamp, CreateBatch, CreatedBatch, PlannedOutput, PreparedMediaFile,
    ProcessMediaFilesCommand, ProcessProfile,
};
use videocaptionerr::use_cases::resume_batch::ResumeBatch;
use videocaptionerr::use_cases::retry_job::{
    admit_retry, plan_retry, prepare_batch, prepare_job, preview_retry, retry_event,
};
use videocaptionerr::use_cases::run_batch::{
    begin_batch, cancel_member, conclude, fail_member, give_up_batch, has_failed_member,
    is_all_recorded, match_batch, missing_member, open_batch, validate_commands, Boundary,
    RunBatch,
};
use videocaptionerr::use_cases::startup_recovery::{
    clock_ms, pending_count, recover_batches, recover_jobs, recovery_report,
    ArtifactRecoveryReport,
};
use videocaptionerr::use_cases::transcribe_job::commit::commit_stage;
use videocaptionerr::use_cases::transcribe_job::service::{Step, TranscribeJob};
use videocaptionerr::use_cases::transcript_editor::{
    edit, edited_job, latest_transcript_artifact, next_revision_path, record_edit,
    EditTranscriptCommand,
};
use videocaptionerr::workflow::batch::{Batch, BatchExecutionProfile, BatchStatus};
use videocaptionerr::workflow::event::{DomainEvent, JobTerminalStatus};
use videocaptionerr::workflow::job::Job;
use videocaptionerr::workflow::stage::{ArtifactRef, JobStatus, StageKind, StageStatus};
use videocaptionerr::workflow::work_unit::{WorkUnit, WorkUnitStatus};

const NOW: &str = "2026-07-20T00:00:00+00:00";

fn asr_spec() -> AsrRuntimeSpec {
    AsrRuntimeSpec {
        engine_family: "fake".into(),
        model_id: "default".into(),
        device: "cpu".into(),
        compute_type: "default".into(),
        locator: "fake:default".into(),
        verified_digest: None,
    }
}

fn profile() -> BatchExecutionProfile {
    BatchExecutionProfile {
        asr_engine: "fake".into(),
        asr_model: "default".into(),
        device: "cpu".into(),
        compute_type: "default".into(),
    }
}

fn process_command(files: usize) -> ProcessMediaFilesCommand {
    ProcessMediaFilesCommand {
        files: (0..files).map(|i| format!("/media/{i}.mp4")).collect(),
        language: Some("en".into()),
        target_language: None,
        format: SubtitleFormat::Srt,
        layout: SubtitleLayout::TranslationOnly,
        profile: ProcessProfile {
            name: "default".into(),
            asr: asr_spec(),
            cache_max_bytes: 7,
            llm: None,
        },
    }
}

fn create(files: usize) -> CreatedBatch {
    let mut creation = CreateBatch::begin(
        process_command(files),
        Ok(()),
        UlidStr::new("batch"),
        UlidStr::new("profile"),
        NOW.into(),
    )
    .unwrap();
    for i in 0..files {
        let file = PreparedMediaFile {
            canonical_path: format!("/media/{i}.mp4"),
            source_stat: SourceStatSnapshot { size: 9, modified_at_ms: Some(1) },
        };
        let planned = PlannedOutput {
            path: format!("/out/{i}.srt"),
            conflict_policy: "rename".into(),
        };
        creation.add_file(
            &file,
            UlidStr::new(&format!("job-{i}")),
            UlidStr::new(&format!("snapshot-{i}")),
            &format!("/jobs/{i}"),
            &planned,
        );
    }
    creation.finish().unwrap()
}

#[test]
fn batches_are_created_from_files() {
    let created = create(2);
    assert_eq!(created.batch.status(), BatchStatus::Pending);
    assert_eq!(created.batch.job_ids().len(), 2);
    assert_eq!(created.entities[1].id(), &UlidStr::new("job-1"));
    assert_eq!(created.entities[1].execution_snapshot_id(), Some(&UlidStr::new("snapshot-1")));
    assert_eq!(created.snapshots[1].output.format, "srt");
    assert_eq!(created.snapshots[1].output.layout, "translation_only");
    assert!(created.snapshots[1].output.fallback_to_source);
    assert_eq!(created.snapshots[1].cache_max_bytes, 7);
    assert_eq!(created.snapshots[1].created_at, NOW);
    assert!(created.batch.require_profile(&profile()).is_ok());
    assert_eq!(created.asr_spec, asr_spec());
    for (job, snapshot) in created.jobs.iter().zip(&created.snapshots) {
        let frozen =
            videocaptionerr::use_cases::transcribe_job::command::TranscribeJobCommand::from_snapshot(
                snapshot,
            )
            .unwrap();
        assert_eq!(&frozen, job);
    }
}

#[test]
fn batches_need_files_and_a_recognizer() {
    let begin = |files, check| {
        CreateBatch::begin(
            process_command(files),
            check,
            UlidStr::new("batch"),
            UlidStr::new("profile"),
            NOW.into(),
        )
    };
    assert_eq!(
        begin(0, Ok(())).unwrap_err().into_vc_error().message,
        "no input files"
    );
    assert_eq!(
        begin(1, Err("no model".into())).unwrap_err().into_vc_error().message,
        "no model"
    );
    assert!(begin(1, Ok(())).unwrap().finish().is_err());
}

#[test]
fn clock_readings_are_written_as_timestamps() {
    assert_eq!(timestamp(0).unwrap(), "1970-01-01T00:00:00+00:00");
    assert_eq!(timestamp(1_784_505_600_123).unwrap(), "2026-07-20T00:00:00.123+00:00");
    assert_eq!(
        timestamp(u64::MAX).unwrap_err().into_vc_error().message,
        "clock value exceeds timestamp range"
    );
    assert_eq!(
        timestamp(i64::MAX as u64).unwrap_err().into_vc_error().message,
        "clock returned an invalid timestamp"
    );
    assert_eq!(stored_moment(Some("now".into())).unwrap(), "now");
    assert!(stored_moment(None).is_err());
}

/// A run of a batch whose jobs end as `work` says.
fn run(
    batch: &mut Batch,
    jobs: &mut Vec<Job>,
    commands: &[usize],
    control: &mut dyn FnMut(&mut Batch, usize),
    work: &mut dyn FnMut(&mut Job) -> AppResult<()>,
) -> AppResult<(Vec<usize>, Vec<String>)> {
    begin_batch(batch)?;
    let mut state = RunBatch::new(commands.len());
    let mut ran = Vec::new();
    loop {
        match state.boundary(batch) {
            Boundary::Finished | Boundary::Stop => break,
            Boundary::Cancel => {
                for at in commands {
                    cancel_member(batch, &mut jobs[*at])?;
                }
                break;
            }
            Boundary::Wait { mark } => {
                if mark {
                    batch.mark_paused().unwrap();
                }
                control(batch, usize::MAX);
            }
            Boundary::Proceed(next) => {
                let at = commands[next];
                if state.pass_over(batch, &jobs[at])?.is_some() {
                    continue;
                }
                ran.push(at);
                control(batch, at);
                let id = jobs[at].id().clone();
                match work(&mut jobs[at]) {
                    Ok(()) => {
                        let status = jobs[at].status();
                        state.succeeded(batch, &id, status)?;
                    }
                    Err(error) => {
                        let status = jobs[at].status();
                        state.failed(batch, &id, error.into_vc_error(), Some(status))?;
                    }
                }
            }
        }
    }
    let failed = has_failed_member(batch, jobs);
    conclude(batch, failed)?;
    let failures = state.finish().into_iter().map(|failure| failure.job_id).collect();
    Ok((ran, failures))
}

fn complete(job: &mut Job) -> AppResult<()> {
    job.start().unwrap();
    for kind in [
        StageKind::Probe,
        StageKind::ExtractAudio,
        StageKind::Asr,
        StageKind::Split,
        StageKind::Export,
    ] {
        if kind == StageKind::Export {
            job.skip_stage(StageKind::Correct).unwrap();
            job.skip_stage(StageKind::Translate).unwrap();
        }
        job.start_stage(kind).unwrap();
        job.complete_stage(kind, artifact(kind), false).unwrap();
    }
    job.finish().unwrap();
    Ok(())
}

fn artifact(stage: StageKind) -> ArtifactRef {
    ArtifactRef {
        id: UlidStr::new(stage.as_str()),
        stage,
        path: format!("/jobs/0/{}.json", stage.as_str()),
        content_hash: "h".into(),
        schema_version: 1,
        producer_fingerprint: "test".into(),
    }
}

fn fail_asr(job: &mut Job) -> AppResult<()> {
    job.start().unwrap();
    for kind in [StageKind::Probe, StageKind::ExtractAudio] {
        job.start_stage(kind).unwrap();
        job.complete_stage(kind, artifact(kind), false).unwrap();
    }
    job.start_stage(StageKind::Asr).unwrap();
    job.fail_stage(StageKind::Asr).unwrap();
    Err(ApplicationError::Adapter(VcError::new(ErrorCode::AsrFailed, "fake ASR failure")))
}

fn idle(_: &mut Batch, _: usize) {}

#[test]
fn opens_and_closes_one_session_for_the_whole_batch() {
    let CreatedBatch { mut batch, entities: mut jobs, jobs: commands, .. } = create(2);
    validate_commands(&batch, &commands).unwrap();
    let (ran, failures) = run(&mut batch, &mut jobs, &[0, 1], &mut idle, &mut complete).unwrap();
    assert_eq!(ran, [0, 1]);
    assert!(failures.is_empty());
    assert_eq!(batch.status(), BatchStatus::Done);
}

#[test]
fn does_not_open_asr_before_the_batch_is_persisted() {
    let created = create(1);
    assert_eq!(
        match_batch(&created.batch, None, &profile()).unwrap_err().into_vc_error().message,
        "Batch batch must be persisted before execution"
    );
    let mut started = created.batch.clone();
    started.start().unwrap();
    assert_eq!(
        match_batch(&created.batch, Some(started), &profile())
            .unwrap_err()
            .into_vc_error()
            .message,
        "Batch batch does not match its persisted identity"
    );
    let mut other = profile();
    other.asr_model = "small".into();
    assert!(match_batch(&created.batch, Some(created.batch.clone()), &other).is_err());
    assert!(match_batch(&created.batch, Some(created.batch.clone()), &profile()).is_ok());
}

#[test]
fn does_not_open_asr_when_a_batch_job_is_not_persisted() {
    assert_eq!(
        missing_member(&UlidStr::new("job-0")).into_vc_error().message,
        "Job job-0 must be persisted before Batch execution"
    );
}

#[test]
fn failed_job_does_not_skip_later_job_or_session_close() {
    let CreatedBatch { mut batch, entities: mut jobs, .. } = create(2);
    let mut calls = 0;
    let (ran, failures) = run(&mut batch, &mut jobs, &[0, 1], &mut idle, &mut |job| {
        calls += 1;
        if calls == 1 { fail_asr(job) } else { complete(job) }
    })
    .unwrap();
    assert_eq!(ran, [0, 1]);
    assert_eq!(failures, ["job-0"]);
    assert_eq!(batch.status(), BatchStatus::Failed);
}

#[test]
fn retry_subset_runs_only_selected_job_and_keeps_other_terminal() {
    let CreatedBatch { mut batch, entities: mut jobs, jobs: commands, .. } = create(2);
    let mut calls = 0;
    run(&mut batch, &mut jobs, &[0, 1], &mut idle, &mut |job| {
        calls += 1;
        if calls == 1 { fail_asr(job) } else { complete(job) }
    })
    .unwrap();
    assert_eq!(batch.status(), BatchStatus::Failed);
    prepare_batch(&mut batch, &UlidStr::new("job-0")).unwrap();
    prepare_job(&mut jobs[0], Some(StageKind::Probe)).unwrap();
    let subset = commands.into_iter().take(1).collect();
    validate_commands(&batch, &subset).unwrap();
    let (ran, _) = run(&mut batch, &mut jobs, &[0], &mut idle, &mut complete).unwrap();
    assert_eq!(ran, [0]);
    assert_eq!(batch.status(), BatchStatus::Done);
}

#[test]
fn commands_have_to_follow_the_batch() {
    let CreatedBatch { batch, jobs: mut commands, .. } = create(2);
    assert!(validate_commands(&batch, &Vec::new()).is_err());
    commands.swap(0, 1);
    assert_eq!(
        validate_commands(&batch, &commands).unwrap_err().into_vc_error().message,
        "Batch jobs must be supplied in FIFO aggregate order"
    );
    commands.swap(0, 1);
    commands[0].batch_id = None;
    assert!(validate_commands(&batch, &commands).is_err());
}

#[test]
fn pause_keeps_session_open_and_resume_continues_remaining_jobs() {
    let CreatedBatch { mut batch, entities: mut jobs, .. } = create(2);
    let mut paused_seen = false;
    let (ran, failures) = run(
        &mut batch,
        &mut jobs,
        &[0, 1],
        &mut |batch, at| {
            if at == 0 {
                batch.request_pause().unwrap();
            }
            if at == usize::MAX {
                paused_seen = batch.status() == BatchStatus::Paused;
                batch.resume().unwrap();
            }
        },
        &mut complete,
    )
    .unwrap();
    assert!(paused_seen);
    assert_eq!(ran, [0, 1]);
    assert!(failures.is_empty());
    assert_eq!(batch.status(), BatchStatus::Done);
}

#[test]
fn pause_then_cancel_finishes_remaining_jobs_without_closing_early() {
    let CreatedBatch { mut batch, entities: mut jobs, .. } = create(2);
    let (ran, _) = run(
        &mut batch,
        &mut jobs,
        &[0, 1],
        &mut |batch, at| {
            if at == 0 {
                batch.request_pause().unwrap();
            }
            if at == usize::MAX {
                let (cancel, _) = CancelBatch::begin(batch.clone());
                *batch = cancel.batch().clone();
            }
        },
        &mut complete,
    )
    .unwrap();
    assert_eq!(ran, [0]);
    assert_eq!(batch.status(), BatchStatus::Cancelled);
    assert_eq!(jobs[0].status(), JobStatus::Done);
    assert_eq!(jobs[1].status(), JobStatus::Cancelled);
}

#[test]
fn active_batch_cancel_converges_after_the_current_job_reaches_a_boundary() {
    let CreatedBatch { mut batch, entities: mut jobs, .. } = create(2);
    let mut requested = false;
    let (ran, failures) = run(
        &mut batch,
        &mut jobs,
        &[0, 1],
        &mut |batch, _| {
            let (cancel, _) = CancelBatch::begin(batch.clone());
            requested = cancel.response().cancel_requested;
            *batch = cancel.batch().clone();
        },
        &mut |job| {
            job.start().unwrap();
            let mut work = TranscribeJob::new(job.clone(), false, false, true);
            for kind in [StageKind::Probe, StageKind::ExtractAudio] {
                assert_eq!(work.next(false).unwrap(), Step::Run(kind));
                let commit = commit_stage(work.job(), artifact(kind), false, NOW).unwrap();
                work.committed(Some(commit.job)).unwrap();
            }
            assert_eq!(work.next(false).unwrap(), Step::Run(StageKind::Asr));
            let mut stored = work.job().clone();
            assert!(cancel_job(&mut stored));
            let error = work.next(is_stop_wanted(Some(&stored), None)).unwrap_err();
            let error = error.into_vc_error();
            assert_eq!(error.code, ErrorCode::Cancelled);
            *job = work.fail(&error);
            Err(ApplicationError::Adapter(error))
        },
    )
    .unwrap();
    assert!(requested);
    assert_eq!(ran, [0]);
    assert!(failures.is_empty());
    assert_eq!(batch.status(), BatchStatus::Cancelled);
    assert!(jobs.iter().all(|job| job.status() == JobStatus::Cancelled));
    let (repeated, _) = CancelBatch::begin(batch);
    assert!(!repeated.response().cancel_requested);
}

#[test]
fn batch_cancel_is_durable_and_repeated_cancel_is_idempotent() {
    let CreatedBatch { batch, entities: mut jobs, .. } = create(2);
    let admitted = admit_batch(batch.id(), Some(batch.clone())).unwrap();
    let (mut cancel, store) = CancelBatch::begin(admitted);
    assert!(store);
    for job in &mut jobs {
        assert!(cancel.visit(job));
    }
    assert!(cancel.response().cancel_requested);
    let stored = cancel.end().unwrap().unwrap();
    assert_eq!(stored.status(), BatchStatus::Cancelled);
    assert!(jobs.iter().all(|job| job.status() == JobStatus::Cancelled));

    let (mut again, _) = CancelBatch::begin(stored.clone());
    for job in &mut jobs {
        assert!(!again.visit(job));
    }
    assert!(!again.response().cancel_requested);
    assert!(again.end().unwrap().is_none());
    assert!(admit_batch(&UlidStr::new("other"), None).is_err());
}

#[test]
fn running_jobs_end_at_a_boundary() {
    let mut job = create(1).entities.remove(0);
    job.start().unwrap();
    assert!(!is_stop_wanted(Some(&job), None));
    assert!(cancel_job(&mut job));
    assert_eq!(job.status(), JobStatus::Running);
    assert!(is_stop_wanted(Some(&job), None));
    assert!(job_response(&job).cancel_requested);
    assert!(!is_stop_wanted(None, None));
    let mut waiting = create(1).entities.remove(0);
    cancel_job(&mut waiting);
    assert_eq!(waiting.status(), JobStatus::Cancelled);
    assert!(admit_job(&UlidStr::new("x"), None).is_err());
    let mut unit =
        WorkUnit::new(UlidStr::new("u"), UlidStr::new("j"), StageKind::Asr, "k", 0, "h").unwrap();
    assert!(cancel_unit(&mut unit));
    assert!(!cancel_unit(&mut unit));
    assert_eq!(unit.status(), WorkUnitStatus::Cancelled);
    let event = cancel_outbox_event("Job", "j\"1", NOW);
    let payload: serde_json::Value = serde_json::from_str(&event.payload_json).unwrap();
    assert_eq!(payload["aggregate_id"], "j\"1");
}

#[test]
fn batches_without_a_recognizer_fail_with_their_jobs() {
    let CreatedBatch { mut batch, entities: mut jobs, .. } = create(2);
    open_batch(&mut batch);
    assert!(!is_all_recorded(&batch));
    for job in &mut jobs {
        assert!(fail_member(&mut batch, job).unwrap());
    }
    assert!(is_all_recorded(&batch));
    give_up_batch(&mut batch).unwrap();
    assert_eq!(batch.status(), BatchStatus::Failed);
    assert!(jobs.iter().all(|job| job.status() == JobStatus::Failed));
    assert!(begin_batch(&mut batch).is_err());
}

#[test]
fn batches_end_once() {
    let CreatedBatch { mut batch, entities: jobs, .. } = create(1);
    begin_batch(&mut batch).unwrap();
    assert!(conclude(&mut batch, false).unwrap().is_none());
    batch.record_job_terminal(jobs[0].id(), JobTerminalStatus::Done).unwrap();
    let event = conclude(&mut batch, false).unwrap();
    assert!(matches!(
        event,
        Some(DomainEvent::BatchReachedTerminal { status: BatchStatus::Done, .. })
    ));
    assert!(conclude(&mut batch, false).unwrap().is_none());
}

#[test]
fn batches_are_resumed_from_their_records() {
    let CreatedBatch { batch, entities: jobs, snapshots, jobs: commands, .. } = create(2);
    let mut resume = ResumeBatch::begin(Some(batch.clone()), batch.id()).unwrap();
    while let Some(id) = resume.next() {
        let id = id.clone();
        let job = jobs.iter().find(|job| job.id() == &id);
        let snapshot_id = resume.locate(job, &id).unwrap();
        let snapshot: Option<&JobExecutionSnapshot> =
            snapshots.iter().find(|snapshot| snapshot.snapshot_id == snapshot_id);
        resume.accept(&id, &snapshot_id, snapshot).unwrap();
    }
    let resumed = resume.finish().unwrap();
    assert_eq!(resumed.jobs, commands);
    assert_eq!(resumed.asr.engine, "fake");
    assert_eq!(resumed.batch, batch);
}

#[test]
fn batches_that_cannot_be_resumed_say_why() {
    let CreatedBatch { batch, snapshots, .. } = create(1);
    let id = batch.id().clone();
    let job_id = UlidStr::new("job-0");
    let snapshot_id = UlidStr::new("snapshot-0");
    let message = |error: ApplicationError| error.into_vc_error().message;
    assert_eq!(
        message(ResumeBatch::begin(None, &id).unwrap_err()),
        "Batch batch not found"
    );
    let mut ended = batch.clone();
    ended.cancel().unwrap();
    assert_eq!(
        message(ResumeBatch::begin(Some(ended), &id).unwrap_err()),
        "Batch batch is already Cancelled"
    );
    let mut resume = ResumeBatch::begin(Some(batch.clone()), &id).unwrap();
    assert_eq!(
        message(resume.locate(None, &job_id).unwrap_err()),
        "Job job-0 not found for Batch batch"
    );
    let bare = Job::new(job_id.clone(), None, UlidStr::new("p"), "/media/0.mp4");
    assert_eq!(
        message(resume.locate(Some(&bare), &job_id).unwrap_err()),
        "Job job-0 has no execution snapshot and cannot resume"
    );
    assert_eq!(
        message(resume.accept(&job_id, &snapshot_id, None).unwrap_err()),
        "execution snapshot snapshot-0 not found for Job job-0"
    );
    let mut foreign = create(1).snapshots.remove(0);
    foreign.batch_id = UlidStr::new("other");
    assert_eq!(
        message(resume.accept(&job_id, &snapshot_id, Some(&foreign)).unwrap_err()),
        "execution snapshot snapshot-0 belongs to another Batch"
    );
    assert_eq!(message(resume.finish().unwrap_err()), "Batch batch has no resumable Jobs");
    let mut paused = batch;
    paused.start().unwrap();
    paused.request_pause().unwrap();
    paused.mark_paused().unwrap();
    let mut resume = ResumeBatch::begin(Some(paused), &id).unwrap();
    resume.accept(&job_id, &snapshot_id, Some(&snapshots[0])).unwrap();
    assert_eq!(
        message(resume.finish().unwrap_err()),
        "paused Batch must be resumed before execution"
    );
}

#[test]
fn retries_are_planned_before_anything_changes() {
    let mut job = create(1).entities.remove(0);
    fail_asr(&mut job).unwrap_err();
    let (job, _) = admit_retry(&UlidStr::new("job-0"), Some(job)).unwrap();
    let mut failed =
        WorkUnit::new(UlidStr::new("u"), UlidStr::new("job-0"), StageKind::Asr, "k", 0, "h")
            .unwrap();
    failed.lease_for("o", 0, 1).unwrap();
    failed.fail("ASR_FAILED").unwrap();
    let (plan, reset) = plan_retry(&job, None, &vec![failed], "/out/0.srt", true).unwrap();
    assert_eq!(plan.start_stage, StageKind::Asr);
    assert_eq!(plan.reused_artifacts, [StageKind::Probe, StageKind::ExtractAudio]);
    assert_eq!(plan.work_units_to_reset, ["u"]);
    assert!(plan.needs_runtime);
    assert_eq!(reset[0].status(), WorkUnitStatus::Pending);
    preview_retry(&job, None).unwrap();
    assert_eq!(job.status(), JobStatus::Failed);
    let mut retried = job.clone();
    assert_eq!(prepare_job(&mut retried, None).unwrap(), StageKind::Asr);
    assert_eq!(retried.status(), JobStatus::Pending);
    let event = retry_event(&retried, &plan, NOW);
    assert!(serde_json::from_str::<serde_json::Value>(&event.payload_json).is_ok());
    assert!(admit_retry(&UlidStr::new("x"), None).is_err());
}

#[test]
fn failed_units_are_tried_again_on_request() {
    let mut job = create(1).entities.remove(0);
    fail_asr(&mut job).unwrap_err();
    let command = |dry_run| RetryFailedWorkUnitsCommand {
        job_id: UlidStr::new("job-0"),
        from_stage: None,
        dry_run,
    };
    let prepared = prepare_retried_job(Some(job.clone()), &command(true)).unwrap();
    assert_eq!(prepared.status(), JobStatus::Pending);
    assert_eq!(retry_response(command(true), 3, 3).retried_units, 0);
    assert_eq!(retry_response(command(false), 3, 2).retried_units, 2);
    assert_eq!(
        prepare_retried_job(None, &command(true)).unwrap_err().into_vc_error().message,
        "Job job-0 not found"
    );
    assert!(prepare_retried_job(Some(prepared), &command(false)).is_err());
}

#[test]
fn recovery_reconciles_files_leases_and_running_aggregates() {
    let CreatedBatch { mut batch, entities: mut jobs, .. } = create(1);
    jobs[0].start().unwrap();
    batch.start().unwrap();
    let waiting = create(1);
    jobs.push(waiting.entities.into_iter().next().unwrap());
    let stored_jobs = recover_jobs(&jobs);
    let stored_batches = recover_batches(&vec![batch, waiting.batch]);
    let report = recovery_report(
        ArtifactRecoveryReport {
            partial_files: vec!["a.partial".into()],
            orphan_files: vec!["orphan.json".into()],
            corrupt_artifacts: vec!["artifact-1".into()],
        },
        3,
        &stored_jobs,
        &stored_batches,
        pending_count(0).unwrap(),
    );
    assert_eq!(report.expired_work_units, 3);
    assert_eq!(report.recovered_jobs, 1);
    assert_eq!(report.recovered_batches, 1);
    assert_eq!(report.pending_outbox_events, 0);
    assert_eq!(report.artifacts.partial_files.len(), 1);
    assert_eq!(stored_jobs[0].status(), JobStatus::Pending);
    assert_eq!(stored_batches[0].status(), BatchStatus::Pending);
    assert!(recover_jobs(&stored_jobs).is_empty());
    assert_eq!(clock_ms(-5), 0);
    assert_eq!(clock_ms(5), 5);
    assert!(pending_count(u32::MAX as usize + 1).is_err());
}

#[test]
fn imported_documents_can_be_exported() {
    let imported = import_job(
        UlidStr::new("job"),
        UlidStr::new("profile"),
        UlidStr::new("artifact"),
        "/subs/a.srt",
        "/jobs/job",
        b"{}",
    )
    .unwrap();
    let statuses: Vec<StageStatus> = imported.job.stages().iter().map(|s| s.status).collect();
    assert_eq!(
        statuses,
        [
            StageStatus::Skipped,
            StageStatus::Skipped,
            StageStatus::Skipped,
            StageStatus::Done,
            StageStatus::Skipped,
            StageStatus::Skipped,
            StageStatus::Pending
        ]
    );
    assert_eq!(imported.artifact.path, "/jobs/job/02_split.json");
    assert_eq!(
        imported.artifact.content_hash,
        format!("blake3:{}", blake3::hash(b"{}").to_hex())
    );
    assert_eq!(
        export_source(Some(&imported.job), &UlidStr::new("job")).unwrap(),
        imported.artifact
    );
    assert_eq!(
        latest_transcript_artifact(&imported.job).unwrap(),
        (StageKind::Split, imported.artifact)
    );
}

#[test]
fn the_furthest_transcript_is_exported() {
    let id = UlidStr::new("job-0");
    assert_eq!(
        export_source(None, &id).unwrap_err().into_vc_error().message,
        "Job job-0 not found"
    );
    let mut job = create(1).entities.remove(0);
    assert_eq!(
        export_source(Some(&job), &id).unwrap_err().into_vc_error().message,
        "Job job-0 has no exportable transcript stage"
    );
    complete(&mut job).unwrap();
    assert_eq!(export_source(Some(&job), &id).unwrap().stage, StageKind::Split);
    assert_eq!(MAX_CONCURRENT_EXTRACT + MAX_CONCURRENT_ASR_SESSIONS, 2);
    assert_eq!(MAX_CONCURRENT_LLM + MAX_CONCURRENT_EXPORT, 4);
    assert_eq!(chunk_plan_stage(), StageKind::Asr);
    assert_eq!(chunk_plan_producer(), "rust-chunk-planner");
}

fn transcript() -> Transcript {
    let mut transcript = Transcript::new_asr(
        "h",
        EngineFingerprint::unknown(),
        vec![Word { text: "hello".into(), start_ms: 0, end_ms: 5, prob: Confidence::unavailable() }],
    );
    transcript.cues.push(Cue {
        id: 1,
        word_range: Some(RangeUsize::new(0, 1)),
        imported_start_ms: None,
        imported_end_ms: None,
        text: "hello".into(),
        translation: None,
        flags: CueFlags::default(),
        text_origin: Some(FieldOrigin::RuleSplit),
        translation_origin: None,
        text_revision: 0,
        translation_revision: 0,
    });
    transcript.next_cue_id = 2;
    transcript
}

#[test]
fn edits_reach_the_next_reader() {
    let mut job = create(1).entities.remove(0);
    assert_eq!(
        latest_transcript_artifact(&job).unwrap_err().into_vc_error().message,
        "Job job-0 has no committed transcript artifact"
    );
    complete(&mut job).unwrap();
    let (stage, before) = latest_transcript_artifact(&job).unwrap();
    assert_eq!(stage, StageKind::Split);
    let command = |field, revision| EditTranscriptCommand {
        job_id: UlidStr::new("job-0"),
        cue_id: 1,
        expected_transcript_revision: revision,
        field,
        value: "hi".into(),
    };
    let source = transcript();
    let edited = edit(&source, command(LlmTextField::Source, source.revision)).unwrap();
    assert_eq!(edited.cues[0].text, "hi");
    let translated = edit(&source, command(LlmTextField::Translation, source.revision)).unwrap();
    assert_eq!(translated.cues[0].translation.as_deref(), Some("hi"));
    assert!(edit(&source, command(LlmTextField::Source, source.revision + 1)).is_err());
    let path = next_revision_path(&before.path, edited.revision);
    assert_eq!(path, "/jobs/0/split.user-r2.json");
    let after = ArtifactRef { path, ..artifact(stage) };
    record_edit(&mut job, stage, after.clone()).unwrap();
    assert_eq!(latest_transcript_artifact(&job).unwrap(), (stage, after));
    assert!(record_edit(&mut job, stage, artifact(StageKind::Asr)).is_err());
    assert!(edited_job(None, &UlidStr::new("job-0")).is_err());
}

#[test]
fn revisions_are_written_beside_the_file_before() {
    for path in [
        "a.json", "dir/a.json", "/dir/a.json", "/a", "a", "dir/.hidden", "dir/a.tar.gz", "a.",
        "dir//a.json", "dir/./a.json", "dir/a.json/", "dir/a.json/.", "", "/", ".", "..",
        "dir/..", "./a.json", "dir/..a", "...", "/./", "..json",
    ] {
        let source = std::path::Path::new(path);
        let stem = source.file_stem().and_then(|s| s.to_str()).unwrap_or("transcript");
        let ending = source.extension().and_then(|s| s.to_str()).unwrap_or("json");
        let expected = source
            .parent()
            .unwrap_or_else(|| std::path::Path::new("."))
            .join(format!("{stem}.user-r7.{ending}"));
        assert_eq!(next_revision_path(path, 7), expected.to_str().unwrap(), "{path}");
    }
}
