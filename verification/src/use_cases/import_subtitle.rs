//! An existing subtitle document as a job of its own.
use vstd::prelude::*;
use vstd::string::*;

use crate::contracts::{AppResult, ApplicationError};
use crate::identity::{JobId, UlidStr};
use crate::paths::{below, join_path};
use crate::subtitle::transcript::SCHEMA_VERSION;
use crate::workflow::job::{fresh_stage, Job, JobView};
use crate::workflow::laws::{law_every_stage_is_found, well_formed};
use crate::workflow::stage::{ArtifactRef, JobStatus, StageKind, StageState, StageStatus};

use super::llm_pipeline::durable::{file_hash, file_identity};
use super::transcribe_job::commit::{artifact_of, is_done, waits};

verus! {

/// The job of an imported document, and the file of its transcript.
#[derive(Debug)]
pub struct ImportedJob {
    pub job: Job,
    pub artifact: ArtifactRef,
}

pub open spec fn skipped_stage(kind: StageKind) -> StageState {
    StageState { kind, status: StageStatus::Skipped, artifact: None }
}

/// The stages of an imported document: there is a transcript, nothing was
/// recognized, and the export waits.
pub open spec fn imported_stages(artifact: ArtifactRef) -> Seq<StageState> {
    seq![
        skipped_stage(StageKind::Probe),
        skipped_stage(StageKind::ExtractAudio),
        skipped_stage(StageKind::Asr),
        StageState {
            kind: StageKind::Split,
            status: StageStatus::Done,
            artifact: Some(artifact),
        },
        skipped_stage(StageKind::Correct),
        skipped_stage(StageKind::Translate),
        fresh_stage(StageKind::Export),
    ]
}

/// The job of an imported document.
pub open spec fn imported_job(
    job_id: JobId,
    profile_revision: UlidStr,
    source_path: Seq<char>,
    artifact: ArtifactRef,
) -> JobView {
    JobView {
        status: JobStatus::Running,
        stages: imported_stages(artifact),
        ..JobView::fresh(job_id, None, None, profile_revision, source_path)
    }
}

/// `artifact` stands for the transcript of an imported document.
pub open spec fn is_imported_file(
    artifact: ArtifactRef,
    id: UlidStr,
    job_dir: Seq<char>,
    bytes: Seq<u8>,
) -> bool {
    &&& artifact.id == id
    &&& artifact.stage == StageKind::Split
    &&& artifact.path@ == below(job_dir, "02_split.json"@)
    &&& artifact.content_hash@ == file_identity(bytes)
    &&& artifact.schema_version == SCHEMA_VERSION
    &&& artifact.producer_fingerprint@ == "import-subtitle"@
}

fn skip(job: &mut Job, kind: StageKind) -> (result: AppResult<()>)
    ensures
        match old(job)@.stage_skipped(kind) {
            Ok(after) => result is Ok && final(job)@ == after,
            Err(_) => result is Err,
        },
{
    match job.skip_stage(kind) {
        Ok(_) => Ok(()),
        Err(error) => Err(ApplicationError::Domain(error)),
    }
}

/// The job of an imported document, given the bytes of its transcript as they
/// are stored.
#[verifier::rlimit(40)]
pub fn import_job(
    job_id: JobId,
    profile_revision: UlidStr,
    artifact_id: UlidStr,
    source_path: &str,
    job_dir: &str,
    bytes: &[u8],
) -> (result: AppResult<ImportedJob>)
    ensures
        result matches Ok(imported) && is_imported_file(
            imported.artifact,
            artifact_id,
            job_dir@,
            bytes@,
        ) && imported.job@ == imported_job(
            job_id,
            profile_revision,
            source_path@,
            imported.artifact,
        ),
{
    let path = join_path(job_dir, "02_split.json");
    let artifact = ArtifactRef {
        id: artifact_id,
        stage: StageKind::Split,
        path,
        content_hash: file_hash(bytes),
        schema_version: SCHEMA_VERSION,
        producer_fingerprint: "import-subtitle".to_owned(),
    };
    let mut job = Job::new(job_id, None, profile_revision, source_path);
    if let Err(error) = job.start() {
        return Err(ApplicationError::Domain(error));
    }
    proof {
        law_every_stage_is_found(job@, StageKind::Probe);
    }
    skip(&mut job, StageKind::Probe)?;
    proof {
        assert(well_formed(job@));
        law_every_stage_is_found(job@, StageKind::ExtractAudio);
    }
    skip(&mut job, StageKind::ExtractAudio)?;
    proof {
        assert(well_formed(job@));
        law_every_stage_is_found(job@, StageKind::Asr);
    }
    skip(&mut job, StageKind::Asr)?;
    proof {
        assert(well_formed(job@));
        law_every_stage_is_found(job@, StageKind::Split);
    }
    if let Err(error) = job.start_stage(StageKind::Split) {
        return Err(ApplicationError::Domain(error));
    }
    proof {
        assert(well_formed(job@));
        law_every_stage_is_found(job@, StageKind::Split);
    }
    if let Err(error) = job.complete_stage(StageKind::Split, artifact.clone(), false) {
        return Err(ApplicationError::Domain(error));
    }
    proof {
        assert(well_formed(job@));
        law_every_stage_is_found(job@, StageKind::Correct);
    }
    skip(&mut job, StageKind::Correct)?;
    proof {
        assert(well_formed(job@));
        law_every_stage_is_found(job@, StageKind::Translate);
    }
    skip(&mut job, StageKind::Translate)?;
    assert(job@.stages =~= imported_stages(artifact));
    Ok(ImportedJob { job, artifact })
}

/// An imported document is a job whose transcript is there and whose export
/// can begin.
pub proof fn law_imported_documents_can_be_exported(
    job_id: JobId,
    profile_revision: UlidStr,
    source_path: Seq<char>,
    artifact: ArtifactRef,
)
    ensures
        ({
            let job = imported_job(job_id, profile_revision, source_path, artifact);
            &&& well_formed(job)
            &&& is_done(job, StageKind::Split)
            &&& artifact_of(job, StageKind::Split) == Ok::<
                ArtifactRef,
                crate::contracts::ApplicationErrorView,
            >(artifact)
            &&& waits(job, StageKind::Export)
            &&& job.stage_started(StageKind::Export) is Ok
        }),
{
    let job = imported_job(job_id, profile_revision, source_path, artifact);
    assert(well_formed(job));
    law_every_stage_is_found(job, StageKind::Split);
    law_every_stage_is_found(job, StageKind::Export);
}

/// An imported job runs. Its document is the result of the split, every stage
/// before and behind it is skipped, and only the export is left to do.
pub proof fn law_imported_jobs_have_one_stage_left(
    job_id: JobId,
    profile_revision: UlidStr,
    source_path: Seq<char>,
    artifact: ArtifactRef,
)
    ensures
        ({
            let job = imported_job(job_id, profile_revision, source_path, artifact);
            &&& job.id == job_id && job.profile_revision == profile_revision && job.source_path
                == source_path
            &&& job.batch_id is None && job.execution_snapshot_id is None
            &&& job.status == JobStatus::Running && !job.cancel_requested
            &&& job.stages.len() == 7
            &&& job.stages[0].kind == StageKind::Probe && job.stages[0].status
                == StageStatus::Skipped
            &&& job.stages[1].kind == StageKind::ExtractAudio && job.stages[1].status
                == StageStatus::Skipped
            &&& job.stages[2].kind == StageKind::Asr && job.stages[2].status == StageStatus::Skipped
            &&& job.stages[3].kind == StageKind::Split && job.stages[3].status == StageStatus::Done
                && job.stages[3].artifact == Some(artifact)
            &&& job.stages[4].kind == StageKind::Correct && job.stages[4].status
                == StageStatus::Skipped
            &&& job.stages[5].kind == StageKind::Translate && job.stages[5].status
                == StageStatus::Skipped
            &&& job.stages[6].kind == StageKind::Export && job.stages[6].status
                == StageStatus::Pending
            &&& job.stages[2].artifact is None && job.stages[4].artifact is None
                && job.stages[5].artifact is None && job.stages[6].artifact is None
        }),
{
}

/// The file of an imported document is that of a split, described by its content.
pub proof fn law_imported_files_are_described(
    artifact: ArtifactRef,
    id: UlidStr,
    job_dir: Seq<char>,
    bytes: Seq<u8>,
)
    requires
        is_imported_file(artifact, id, job_dir, bytes),
    ensures
        artifact.id == id && artifact.stage == StageKind::Split,
        artifact.path@ == below(job_dir, "02_split.json"@),
        artifact.content_hash@ == "blake3:"@ + crate::hash::blake3_hex(bytes),
        artifact.schema_version == 1,
        artifact.producer_fingerprint@ == "import-subtitle"@,
{
}

} // verus!
