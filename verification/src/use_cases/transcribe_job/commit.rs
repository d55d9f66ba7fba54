//! What is stored together when a stage of a job ends.
use vstd::prelude::*;
use vstd::string::*;

use crate::contracts::{AppResult, ApplicationError, ApplicationErrorView};
use crate::hash::{blake3_hex, content_hash, text_hash, text_identity};
use crate::identity::UlidStr;
use crate::json::{
    json_quoted, literal_or_null, member, object, object_text, or_null, push_member, quote_option,
    quoted, quoted_option,
};
use crate::ports::OutboxEvent;
use crate::subtitle::transcript::SCHEMA_VERSION;
use crate::text::text_views;
use crate::workflow::job::{stage_position, Job, JobView};
use crate::workflow::stage::{ArtifactRef, StageKind, StageState, StageStatus};
use crate::workflow::work_unit::{WorkUnit, WorkUnitView};

verus! {

/// The state of a stage, if the job has such a stage.
pub open spec fn stage_of(job: JobView, kind: StageKind) -> Option<StageState> {
    match job.position(kind) {
        Some(p) => Some(job.stages[p]),
        None => None,
    }
}

fn find_stage(job: &Job, kind: StageKind) -> (stage: Option<&StageState>)
    ensures
        match stage {
            Some(stage) => stage_of(job@, kind) == Some(*stage),
            None => stage_of(job@, kind) is None,
        },
{
    let stages = job.stages();
    let mut i: usize = 0;
    while i < stages.len()
        invariant
            i <= stages@.len(),
            stages@ == job@.stages,
            job@.position(kind) == stage_position(job@.stages, kind, i as int),
        decreases stages@.len() - i,
    {
        if stages[i].kind == kind {
            return Some(&stages[i]);
        }
        i += 1;
    }
    None
}

/// The stage has not begun.
pub open spec fn waits(job: JobView, kind: StageKind) -> bool {
    stage_of(job, kind) matches Some(stage) && stage.status == StageStatus::Pending
}

pub fn stage_is_pending(job: &Job, kind: StageKind) -> (answer: bool)
    ensures
        answer == waits(job@, kind),
{
    match find_stage(job, kind) {
        Some(stage) => stage.status == StageStatus::Pending,
        None => false,
    }
}

/// The stage has a result.
pub open spec fn is_done(job: JobView, kind: StageKind) -> bool {
    stage_of(job, kind) matches Some(stage) && (stage.status == StageStatus::Done || stage.status
        == StageStatus::DoneDegraded)
}

pub fn stage_is_done(job: &Job, kind: StageKind) -> (answer: bool)
    ensures
        answer == is_done(job@, kind),
{
    match find_stage(job, kind) {
        Some(stage) => matches!(stage.status, StageStatus::Done | StageStatus::DoneDegraded),
        None => false,
    }
}

/// The status of a stage; a job without the stage has not begun it.
pub open spec fn status_of(job: JobView, kind: StageKind) -> StageStatus {
    match stage_of(job, kind) {
        Some(stage) => stage.status,
        None => StageStatus::Pending,
    }
}

pub fn stage_status(job: &Job, kind: StageKind) -> (status: StageStatus)
    ensures
        status == status_of(job@, kind),
{
    match find_stage(job, kind) {
        Some(stage) => stage.status,
        None => StageStatus::Pending,
    }
}

/// The file that a stage has left, or that it has left none.
pub open spec fn artifact_of(job: JobView, kind: StageKind) -> Result<
    ArtifactRef,
    ApplicationErrorView,
> {
    match stage_of(job, kind) {
        Some(StageState { artifact: Some(artifact), .. }) => Ok(artifact),
        _ => Err(
            ApplicationErrorView::Invalid("stage "@ + kind.name_text() + " has no artifact"@),
        ),
    }
}

pub fn stage_artifact(job: &Job, kind: StageKind) -> (result: AppResult<ArtifactRef>)
    ensures
        match result {
            Ok(artifact) => artifact_of(job@, kind) == Ok::<ArtifactRef, ApplicationErrorView>(
                artifact,
            ),
            Err(error) => artifact_of(job@, kind) == Err::<ArtifactRef, ApplicationErrorView>(
                error@,
            ),
        },
{
    if let Some(stage) = find_stage(job, kind) {
        if let Some(artifact) = &stage.artifact {
            return Ok(artifact.clone());
        }
    }
    let mut text = "stage ".to_owned();
    text.append(kind.name());
    text.append(" has no artifact");
    Err(ApplicationError::Invalid(text))
}

/// `artifact` stands for a file of these bytes.
pub open spec fn is_file_of(
    artifact: ArtifactRef,
    id: UlidStr,
    stage: StageKind,
    path: Seq<char>,
    bytes: Seq<u8>,
    producer: Seq<char>,
) -> bool {
    &&& artifact.id == id
    &&& artifact.stage == stage
    &&& artifact.path@ == path
    &&& artifact.content_hash@ == blake3_hex(bytes)
    &&& artifact.schema_version == SCHEMA_VERSION
    &&& artifact.producer_fingerprint@ == producer
}

/// The reference to a file that holds the bytes.
pub fn bytes_artifact(id: UlidStr, stage: StageKind, path: &str, bytes: &[u8], producer: &str) -> (artifact:
    ArtifactRef)
    ensures
        is_file_of(artifact, id, stage, path@, bytes@, producer@),
{
    ArtifactRef {
        id,
        stage,
        path: path.to_owned(),
        content_hash: content_hash(bytes),
        schema_version: SCHEMA_VERSION,
        producer_fingerprint: producer.to_owned(),
    }
}

/// The reference to a subtitle file that has been written.
pub fn export_artifact(id: UlidStr, path: &str, content_hash: &str) -> (artifact: ArtifactRef)
    ensures
        artifact.id == id,
        artifact.stage == StageKind::Export,
        artifact.path@ == path@,
        artifact.content_hash@ == content_hash@,
        artifact.schema_version == SCHEMA_VERSION,
        artifact.producer_fingerprint@ == "subtitle-writer"@,
{
    ArtifactRef {
        id,
        stage: StageKind::Export,
        path: path.to_owned(),
        content_hash: content_hash.to_owned(),
        schema_version: SCHEMA_VERSION,
        producer_fingerprint: "subtitle-writer".to_owned(),
    }
}

/// What is told of a job whose stage has ended.
pub open spec fn stage_payload(
    job: JobView,
    stage: Option<StageKind>,
    artifact_id: Option<Seq<char>>,
) -> Seq<char> {
    object(
        seq![
            member("artifact_id"@, literal_or_null(quoted_option(artifact_id))),
            member("job_id"@, json_quoted(job.id@)),
            member("stage"@, literal_or_null(quoted_option(stage_name(stage)))),
            member("status"@, json_quoted(job.status.wire_text())),
        ],
    )
}

/// The name of a stage, if there is one.
pub open spec fn stage_name(stage: Option<StageKind>) -> Option<Seq<char>> {
    match stage {
        Some(stage) => Some(stage.text()),
        None => None,
    }
}

/// `event` is the note of a job whose stage has ended.
pub open spec fn is_stage_event(
    event: OutboxEvent,
    job: JobView,
    artifact: Option<ArtifactRef>,
    created_at: Seq<char>,
) -> bool {
    let stage = match artifact {
        Some(artifact) => Some(artifact.stage),
        None => None,
    };
    let artifact_id = match artifact {
        Some(artifact) => Some(artifact.id@),
        None => None,
    };
    &&& event.aggregate_type@ == "Job"@
    &&& event.aggregate_id@ == job.id@
    &&& event.event_type@ == (match stage {
        Some(stage) => "stage_"@ + stage.text() + "_committed"@,
        None => "job_stage_updated"@,
    })
    &&& event.payload_json@ == stage_payload(job, stage, artifact_id)
    &&& event.created_at@ == created_at
}

/// The note of a job whose stage has ended, with what the stage has left.
pub fn stage_event(job: &Job, artifact: Option<&ArtifactRef>, created_at: &str) -> (event:
    OutboxEvent)
    ensures
        is_stage_event(
            event,
            job@,
            match artifact {
                Some(artifact) => Some(*artifact),
                None => None,
            },
            created_at@,
        ),
{
    let artifact_id: Option<String> = match artifact {
        Some(artifact) => Some(artifact.id.as_str().to_owned()),
        None => None,
    };
    let stage: Option<String> = match artifact {
        Some(artifact) => Some(artifact.stage.as_str().to_owned()),
        None => None,
    };
    let mut event_type = String::new();
    match artifact {
        Some(artifact) => {
            event_type.append("stage_");
            event_type.append(artifact.stage.as_str());
            event_type.append("_committed");
            assert(event_type@ =~= "stage_"@ + artifact.stage.text() + "_committed"@);
        },
        None => {
            event_type.append("job_stage_updated");
            assert(event_type@ =~= "job_stage_updated"@);
        },
    }
    let mut members: Vec<String> = Vec::new();
    assert(text_views(members@) =~= seq![]);
    let artifact_literal = or_null(&quote_option(&artifact_id));
    push_member(&mut members, "artifact_id", artifact_literal.as_str());
    push_member(&mut members, "job_id", quoted(job.id().as_str()).as_str());
    let stage_literal = or_null(&quote_option(&stage));
    push_member(&mut members, "stage", stage_literal.as_str());
    push_member(&mut members, "status", quoted(job.status().wire_name()).as_str());
    assert(text_views(members@) =~= seq![
        member("artifact_id"@, artifact_literal@),
        member("job_id"@, json_quoted(job@.id@)),
        member("stage"@, stage_literal@),
        member("status"@, json_quoted(job@.status.wire_text())),
    ]);
    OutboxEvent {
        aggregate_type: "Job".to_owned(),
        aggregate_id: job.id().as_str().to_owned(),
        event_type,
        payload_json: object_text(&members),
        created_at: created_at.to_owned(),
    }
}

/// What is told of a unit that has been completed.
pub open spec fn work_unit_payload(unit: WorkUnitView, artifact: ArtifactRef) -> Seq<char> {
    object(
        seq![
            member("artifact_id"@, json_quoted(artifact.id@)),
            member("job_id"@, json_quoted(unit.job_id@)),
            member("stage"@, json_quoted(unit.stage.text())),
            member("work_unit_id"@, json_quoted(unit.id@)),
        ],
    )
}

/// The note of a unit that has been completed.
pub fn work_unit_event(unit: &WorkUnit, artifact: &ArtifactRef, created_at: &str) -> (event:
    OutboxEvent)
    ensures
        event.aggregate_type@ == "WorkUnit"@,
        event.aggregate_id@ == unit@.id@,
        event.event_type@ == "work_unit_completed"@,
        event.payload_json@ == work_unit_payload(unit@, *artifact),
        event.created_at@ == created_at@,
{
    let mut members: Vec<String> = Vec::new();
    assert(text_views(members@) =~= seq![]);
    push_member(&mut members, "artifact_id", quoted(artifact.id.as_str()).as_str());
    push_member(&mut members, "job_id", quoted(unit.job_id().as_str()).as_str());
    push_member(&mut members, "stage", quoted(unit.stage().as_str()).as_str());
    push_member(&mut members, "work_unit_id", quoted(unit.id().as_str()).as_str());
    assert(text_views(members@) =~= seq![
        member("artifact_id"@, json_quoted(artifact.id@)),
        member("job_id"@, json_quoted(unit@.job_id@)),
        member("stage"@, json_quoted(unit@.stage.text())),
        member("work_unit_id"@, json_quoted(unit@.id@)),
    ]);
    OutboxEvent {
        aggregate_type: "WorkUnit".to_owned(),
        aggregate_id: unit.id().as_str().to_owned(),
        event_type: "work_unit_completed".to_owned(),
        payload_json: object_text(&members),
        created_at: created_at.to_owned(),
    }
}

/// What is stored in one step: the job as it is to be, the file that its stage
/// has left, if any, and the note of it.
#[derive(Debug, PartialEq, Eq)]
pub struct StageCommit {
    pub job: Job,
    pub artifact: Option<ArtifactRef>,
    pub event: OutboxEvent,
}

/// What is stored when a stage ends with a file.
pub fn commit_stage(job: &Job, artifact: ArtifactRef, degraded: bool, created_at: &str) -> (result:
    AppResult<StageCommit>)
    ensures
        match result {
            Ok(commit) => {
                &&& job@.stage_completed(artifact.stage, artifact, degraded) == Ok::<
                    JobView,
                    crate::error::DomainErrorView,
                >(commit.job@)
                &&& commit.artifact == Some(artifact)
                &&& is_stage_event(commit.event, commit.job@, Some(artifact), created_at@)
            },
            Err(error) => error@ matches ApplicationErrorView::Domain(e)
                && job@.stage_completed(artifact.stage, artifact, degraded) == Err::<
                JobView,
                crate::error::DomainErrorView,
            >(e),
        },
{
    let mut candidate = job.clone();
    match candidate.complete_stage(artifact.stage, artifact.clone(), degraded) {
        Ok(_) => {
            let event = stage_event(&candidate, Some(&artifact), created_at);
            Ok(StageCommit { job: candidate, artifact: Some(artifact), event })
        },
        Err(error) => Err(ApplicationError::Domain(error)),
    }
}

/// What is stored when a stage is passed over.
pub fn commit_skip_stage(job: &Job, kind: StageKind, created_at: &str) -> (result: AppResult<
    StageCommit,
>)
    ensures
        match result {
            Ok(commit) => {
                &&& job@.stage_skipped(kind) == Ok::<JobView, crate::error::DomainErrorView>(
                    commit.job@,
                )
                &&& commit.artifact is None
                &&& is_stage_event(commit.event, commit.job@, None, created_at@)
            },
            Err(error) => error@ matches ApplicationErrorView::Domain(e) && job@.stage_skipped(kind)
                == Err::<JobView, crate::error::DomainErrorView>(e),
        },
{
    let mut candidate = job.clone();
    match candidate.skip_stage(kind) {
        Ok(_) => {
            let event = stage_event(&candidate, None, created_at);
            Ok(StageCommit { job: candidate, artifact: None, event })
        },
        Err(error) => Err(ApplicationError::Domain(error)),
    }
}

/// What std's `Debug` writes for a string slice.
pub uninterp spec fn debug_text(text: Seq<char>) -> Seq<char>;

/// `format!` of a string slice with `{:?}`: what std's `Debug` writes for it.
#[verifier::external_body]
fn debug_of(text: &str) -> (out: String)
    ensures
        out@ == debug_text(text@),
{
    format!("{text:?}")
}

/// The options of a recognition as a text, given how the language is written.
pub open spec fn options_text(language: Option<Seq<char>>) -> Seq<char> {
    match language {
        Some(language) => "language=Some("@ + language + ");word_timestamps=true"@,
        None => "language=None;word_timestamps=true"@,
    }
}

/// The identity of the options of a recognition, given how the language is
/// written.
pub fn options_hash(language: Option<&str>) -> (hash: String)
    ensures
        hash@ == text_identity(
            options_text(
                match language {
                    Some(language) => Some(language@),
                    None => None,
                },
            ),
        ),
{
    let mut body = String::new();
    match language {
        Some(language) => {
            body.append("language=Some(");
            body.append(language);
            body.append(");word_timestamps=true");
            assert(body@ =~= options_text(Some(language@)));
        },
        None => {
            body.append("language=None;word_timestamps=true");
            assert(body@ =~= options_text(None));
        },
    }
    text_hash(body.as_str())
}

/// The identity of the options of a recognition.
pub fn normalized_options_hash(language: Option<&str>) -> (hash: String)
    ensures
        hash@ == text_identity(
            options_text(
                match language {
                    Some(language) => Some(debug_text(language@)),
                    None => None,
                },
            ),
        ),
{
    match language {
        Some(language) => {
            let written = debug_of(language);
            options_hash(Some(written.as_str()))
        },
        None => options_hash(None),
    }
}

/// A completed stage has its file, and the other stages are as they were.
pub proof fn law_commits_touch_one_stage(
    job: JobView,
    artifact: ArtifactRef,
    degraded: bool,
    after: JobView,
)
    requires
        job.stage_completed(artifact.stage, artifact, degraded) == Ok::<
            JobView,
            crate::error::DomainErrorView,
        >(after),
    ensures
        job.position(artifact.stage) matches Some(p) && after.stages[p].artifact == Some(artifact)
            && (after.stages[p].status == StageStatus::Done || after.stages[p].status
            == StageStatus::DoneDegraded),
        forall|i: int|
            0 <= i < job.stages.len() && Some(i) != job.position(artifact.stage)
                ==> #[trigger] after.stages[i] == job.stages[i],
        after.stages.len() == job.stages.len(),
        after.status == job.status,
{
    lemma_position_is_in_range(job.stages, artifact.stage, 0);
}

/// A position that is found is one of the list, and holds such a stage.
pub proof fn lemma_position_is_in_range(stages: Seq<StageState>, kind: StageKind, from: int)
    requires
        0 <= from,
    ensures
        stage_position(stages, kind, from) matches Some(p) ==> from <= p < stages.len()
            && stages[p].kind == kind && forall|i: int|
            from <= i < p ==> (#[trigger] stages[i]).kind != kind,
    decreases stages.len() - from,
{
    if from < stages.len() && stages[from].kind != kind {
        lemma_position_is_in_range(stages, kind, from + 1);
    }
}

/// The file of a stage is described by its own path, content and producer.
pub proof fn law_files_are_described_by_their_content(
    artifact: ArtifactRef,
    id: UlidStr,
    stage: StageKind,
    path: Seq<char>,
    bytes: Seq<u8>,
    producer: Seq<char>,
)
    requires
        is_file_of(artifact, id, stage, path, bytes, producer),
    ensures
        artifact.id == id && artifact.stage == stage && artifact.path@ == path,
        artifact.content_hash@ == blake3_hex(bytes),
        artifact.schema_version == 1,
        artifact.producer_fingerprint@ == producer,
{
}

/// The event of a stage names its job, and tells by its type which stage was
/// stored, or that one was passed over.
pub proof fn law_events_name_job_and_stage(
    event: OutboxEvent,
    job: JobView,
    artifact: Option<ArtifactRef>,
    created_at: Seq<char>,
)
    requires
        is_stage_event(event, job, artifact, created_at),
    ensures
        event.aggregate_type@ == "Job"@ && event.aggregate_id@ == job.id@ && event.created_at@
            == created_at,
        artifact is None ==> event.event_type@ == "job_stage_updated"@,
        artifact matches Some(file) ==> event.event_type@ == "stage_"@ + file.stage.text()
            + "_committed"@,
        artifact matches Some(file) ==> event.payload_json@ == object(
            seq![
                member("artifact_id"@, json_quoted(file.id@)),
                member("job_id"@, json_quoted(job.id@)),
                member("stage"@, json_quoted(file.stage.text())),
                member("status"@, json_quoted(job.status.wire_text())),
            ],
        ),
{
}

/// What is read of a stage is what the job has of it.
pub proof fn law_stages_are_read_as_they_are(job: JobView, kind: StageKind, p: int)
    requires
        0 <= p < job.stages.len(),
        job.stages[p].kind == kind,
        forall|i: int| 0 <= i < p ==> (#[trigger] job.stages[i]).kind != kind,
    ensures
        status_of(job, kind) == job.stages[p].status,
        waits(job, kind) <==> job.stages[p].status == StageStatus::Pending,
        is_done(job, kind) <==> job.stages[p].status == StageStatus::Done || job.stages[p].status
            == StageStatus::DoneDegraded,
        job.stages[p].artifact matches Some(artifact) ==> artifact_of(job, kind) == Ok::<
            ArtifactRef,
            ApplicationErrorView,
        >(artifact),
        job.stages[p].artifact is None ==> artifact_of(job, kind) is Err,
{
    lemma_position_is_in_range(job.stages, kind, 0);
    lemma_stage_is_found(job.stages, kind, p, 0);
}

proof fn lemma_stage_is_found(stages: Seq<StageState>, kind: StageKind, p: int, from: int)
    requires
        0 <= from <= p < stages.len(),
        stages[p].kind == kind,
    ensures
        stage_position(stages, kind, from) matches Some(q) && from <= q <= p && stages[q].kind
            == kind,
    decreases p - from,
{
    if from < p && stages[from].kind != kind {
        lemma_stage_is_found(stages, kind, p, from + 1);
    }
}

/// The event of a unit names its job, its stage and what it has left. The options
/// of a recognition are known by their language.
pub proof fn law_units_are_announced(
    unit: WorkUnitView,
    artifact: ArtifactRef,
    language: Seq<char>,
)
    ensures
        work_unit_payload(unit, artifact) == object(
            seq![
                member("artifact_id"@, json_quoted(artifact.id@)),
                member("job_id"@, json_quoted(unit.job_id@)),
                member("stage"@, json_quoted(unit.stage.text())),
                member("work_unit_id"@, json_quoted(unit.id@)),
            ],
        ),
        options_text(Some(language)) == "language=Some("@ + language + ");word_timestamps=true"@,
        options_text(None) == "language=None;word_timestamps=true"@,
{
}

} // verus!
