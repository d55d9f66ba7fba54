//! Recognition of sound, whole or in chunks. A chunk is a unit of work of its
//! own, so that a second run takes over what the first has stored.
use vstd::prelude::*;
use vstd::string::*;

use crate::contracts::{
    AppResult, ApplicationError, ApplicationErrorView, ErrorCode, VcError, VcErrorView,
};
use crate::error::{DomainError, DomainErrorView};
use crate::identity::{JobId, UlidStr, WorkUnitId};
use crate::paths::{below, four_digits, join_path, push_four_digits};
use crate::ports::OutboxEvent;
use crate::subtitle::transcript::Transcript;
use crate::text::{decimal, push_decimal};
use crate::workflow::stage::{ArtifactRef, StageKind};
use crate::workflow::work_unit::{WorkUnit, WorkUnitStatus, WorkUnitView};

use super::commit::{bytes_artifact, is_file_of, work_unit_event, work_unit_payload};
use super::long_audio::{
    added_up, law_same_findings_give_the_same_transcript, nothing_yet, ChunkFindings,
    ChunkedTranscriptView,
};

verus! {

/// How long a unit is held while its chunk is recognized.
pub const ASR_LEASE_MS: u64 = 600_000;

/// How the sound of a job is recognized.
#[derive(Debug, Clone, Copy, PartialEq, Eq, Structural)]
pub enum AsrMode {
    /// In one go.
    Full,
    /// In chunks that are at most so long.
    Chunked { max_audio_ms: u64 },
}

/// Sound that is longer than the recognizer takes at once is cut into chunks. A
/// limit of zero is none.
pub open spec fn mode_for(max_audio_secs: Option<u32>, duration_ms: u64) -> AsrMode {
    match max_audio_secs {
        Some(secs) => if secs == 0 || duration_ms <= secs * 1000 {
            AsrMode::Full
        } else {
            AsrMode::Chunked { max_audio_ms: (secs * 1000) as u64 }
        },
        None => AsrMode::Full,
    }
}

pub fn asr_mode(max_audio_secs: Option<u32>, duration_ms: u64) -> (mode: AsrMode)
    ensures
        mode == mode_for(max_audio_secs, duration_ms),
{
    match max_audio_secs {
        Some(secs) => {
            let max_audio_ms: u64 = secs as u64 * 1000;
            if max_audio_ms == 0 || duration_ms <= max_audio_ms {
                AsrMode::Full
            } else {
                AsrMode::Chunked { max_audio_ms }
            }
        },
        None => AsrMode::Full,
    }
}

/// The longest chunk: what is usual, or less where the recognizer takes less.
pub fn chunk_limit(default_ms: u64, max_audio_ms: u64) -> (limit: u64)
    ensures
        limit == if default_ms <= max_audio_ms {
            default_ms
        } else {
            max_audio_ms
        },
{
    if default_ms <= max_audio_ms {
        default_ms
    } else {
        max_audio_ms
    }
}

/// The error of sound that has to be cut where nothing can store the chunks.
pub fn no_chunking() -> (error: ApplicationError)
    ensures
        error@ == ApplicationErrorView::Adapter(
            VcErrorView::plain(
                ErrorCode::OptionUnsupported,
                "long-audio ASR requires chunk work-unit ports"@,
            ),
        ),
{
    ApplicationError::adapter(
        ErrorCode::OptionUnsupported,
        "long-audio ASR requires chunk work-unit ports",
    )
}

/// The file of a chunk, with an ending such as `wav`.
pub open spec fn chunk_file(job_dir: Seq<char>, index: u32, ending: Seq<char>) -> Seq<char> {
    below(
        below(job_dir, "asr-chunks"@),
        "chunk-"@ + four_digits(index as nat) + "."@ + ending,
    )
}

pub fn chunk_path(job_dir: &str, index: u32, ending: &str) -> (path: String)
    ensures
        path@ == chunk_file(job_dir@, index, ending@),
{
    let mut name = "chunk-".to_owned();
    push_four_digits(&mut name, index);
    name.append(".");
    name.append(ending);
    assert(name@ =~= "chunk-"@ + four_digits(index as nat) + "."@ + ending@);
    let dir = join_path(job_dir, "asr-chunks");
    join_path(dir.as_str(), name.as_str())
}

/// The owner of the units of a job.
pub open spec fn lease_owner_text(job_id: Seq<char>) -> Seq<char> {
    "asr:"@ + job_id
}

pub fn lease_owner(job_id: &JobId) -> (owner: String)
    ensures
        owner@ == lease_owner_text(job_id@),
{
    let mut owner = "asr:".to_owned();
    owner.append(job_id.as_str());
    owner
}

/// The unit of work of a chunk.
pub fn chunk_unit(id: WorkUnitId, job_id: JobId, index: u32, key: &str) -> (result: AppResult<
    WorkUnit,
>)
    ensures
        match result {
            Ok(unit) => key@.len() > 0 && unit@ == WorkUnitView::fresh(
                id,
                job_id,
                StageKind::Asr,
                "asr_chunk"@,
                index,
                key@,
            ),
            Err(error) => key@.len() == 0 && error@ == ApplicationErrorView::Domain(
                DomainErrorView::InvalidArgument("work unit input hash cannot be empty"@),
            ),
        },
{
    match WorkUnit::new(id, job_id, StageKind::Asr, "asr_chunk", index, key) {
        Ok(unit) => Ok(unit),
        Err(error) => Err(ApplicationError::Domain(error)),
    }
}

/// What is to be done for a chunk.
#[derive(Debug, Clone, Copy, PartialEq, Eq, Structural)]
pub enum ChunkStep {
    /// It was recognized before: use what is stored.
    Load,
    /// Lease its unit and recognize it.
    Recognize,
}

/// What is to be done for a chunk, or why it cannot go on.
pub open spec fn chunk_decision(index: u32, status: WorkUnitStatus) -> Result<
    ChunkStep,
    ApplicationErrorView,
> {
    if status == WorkUnitStatus::Done {
        Ok(ChunkStep::Load)
    } else if status == WorkUnitStatus::Pending {
        Ok(ChunkStep::Recognize)
    } else {
        Err(
            ApplicationErrorView::Invalid(
                "ASR chunk "@ + decimal(index as nat) + " is "@ + status.name_text()
                    + "; recover or retry its work unit first"@,
            ),
        )
    }
}

pub fn chunk_step(index: u32, unit: &WorkUnit) -> (result: AppResult<ChunkStep>)
    ensures
        match result {
            Ok(step) => chunk_decision(index, unit@.status) == Ok::<ChunkStep, ApplicationErrorView>(
                step,
            ),
            Err(error) => chunk_decision(index, unit@.status) == Err::<
                ChunkStep,
                ApplicationErrorView,
            >(error@),
        },
{
    let status = unit.status();
    if status == WorkUnitStatus::Done {
        return Ok(ChunkStep::Load);
    }
    if status == WorkUnitStatus::Pending {
        return Ok(ChunkStep::Recognize);
    }
    let mut text = "ASR chunk ".to_owned();
    push_decimal(&mut text, index as u64);
    text.append(" is ");
    text.append(status.name());
    text.append("; recover or retry its work unit first");
    assert(text@ =~= "ASR chunk "@ + decimal(index as nat) + " is "@ + status.name_text()
        + "; recover or retry its work unit first"@);
    Err(ApplicationError::Invalid(text))
}

/// The unit that was leased for a chunk, or why it is not the right one.
pub open spec fn lease_decision(
    index: u32,
    expected: WorkUnitId,
    leased: Option<WorkUnitView>,
) -> Option<ApplicationErrorView> {
    match leased {
        None => Some(
            ApplicationErrorView::Invalid(
                "ASR chunk "@ + decimal(index as nat) + " could not be leased"@,
            ),
        ),
        Some(unit) => if unit.id@ != expected@ {
            Some(
                ApplicationErrorView::Invalid(
                    "ASR work-unit FIFO order changed while processing a ChunkPlan"@,
                ),
            )
        } else {
            None
        },
    }
}

/// Take the unit that was leased for a chunk. Chunks are leased in their order.
pub fn take_lease(index: u32, expected: &WorkUnitId, leased: Option<WorkUnit>) -> (result: AppResult<
    WorkUnit,
>)
    ensures
        ({
            let refusal = lease_decision(
                index,
                *expected,
                match leased {
                    Some(unit) => Some(unit@),
                    None => None,
                },
            );
            match result {
                Ok(unit) => refusal is None && leased == Some(unit),
                Err(error) => refusal == Some(error@),
            }
        }),
{
    match leased {
        None => {
            let mut text = "ASR chunk ".to_owned();
            push_decimal(&mut text, index as u64);
            text.append(" could not be leased");
            assert(text@ =~= "ASR chunk "@ + decimal(index as nat) + " could not be leased"@);
            Err(ApplicationError::Invalid(text))
        },
        Some(unit) => {
            if !unit.id().same(expected) {
                return Err(
                    ApplicationError::invalid(
                        "ASR work-unit FIFO order changed while processing a ChunkPlan",
                    ),
                );
            }
            Ok(unit)
        },
    }
}

/// What is stored in one step when a chunk has been recognized.
#[derive(Debug, PartialEq, Eq)]
pub struct ChunkCommit {
    pub unit: WorkUnit,
    pub artifact: ArtifactRef,
    pub event: OutboxEvent,
}

/// What is stored when the chunk of a leased unit has been recognized. The note
/// speaks of the unit as it was leased.
pub fn commit_chunk(
    leased: &WorkUnit,
    id: UlidStr,
    job_dir: &str,
    index: u32,
    bytes: &[u8],
    fingerprint: &str,
    created_at: &str,
) -> (result: AppResult<ChunkCommit>)
    ensures
        match result {
            Ok(commit) => {
                &&& is_file_of(
                    commit.artifact,
                    id,
                    StageKind::Asr,
                    chunk_file(job_dir@, index, "json"@),
                    bytes@,
                    fingerprint@,
                )
                &&& leased@.completed(commit.artifact) == Ok::<WorkUnitView, DomainErrorView>(
                    commit.unit@,
                )
                &&& commit.event.aggregate_type@ == "WorkUnit"@
                &&& commit.event.aggregate_id@ == leased@.id@
                &&& commit.event.event_type@ == "work_unit_completed"@
                &&& commit.event.payload_json@ == work_unit_payload(leased@, commit.artifact)
                &&& commit.event.created_at@ == created_at@
            },
            Err(error) => error@ matches ApplicationErrorView::Domain(e) && exists|
                artifact: ArtifactRef,
            | #[trigger]
                is_file_of(
                    artifact,
                    id,
                    StageKind::Asr,
                    chunk_file(job_dir@, index, "json"@),
                    bytes@,
                    fingerprint@,
                ) && leased@.completed(artifact) == Err::<WorkUnitView, DomainErrorView>(e),
        },
{
    let path = chunk_path(job_dir, index, "json");
    let artifact = bytes_artifact(id, StageKind::Asr, path.as_str(), bytes, fingerprint);
    let mut unit = leased.clone();
    match unit.complete(artifact.clone()) {
        Ok(_) => {
            let event = work_unit_event(leased, &artifact, created_at);
            Ok(ChunkCommit { unit, artifact, event })
        },
        Err(error) => Err(ApplicationError::Domain(error)),
    }
}

/// The unit as it was stored.
pub fn stored_unit(returned: Option<WorkUnit>) -> (result: AppResult<WorkUnit>)
    ensures
        match returned {
            Some(unit) => result == Ok::<WorkUnit, ApplicationError>(unit),
            None => result matches Err(error) && error@ == ApplicationErrorView::Invalid(
                "atomic ASR WorkUnit commit did not return WorkUnit"@,
            ),
        },
{
    match returned {
        Some(unit) => Ok(unit),
        None => Err(
            ApplicationError::invalid("atomic ASR WorkUnit commit did not return WorkUnit"),
        ),
    }
}

/// The file of a chunk that was recognized before.
pub fn chunk_artifact(unit: &WorkUnit) -> (result: AppResult<ArtifactRef>)
    ensures
        match unit@.artifact {
            Some(artifact) => result == Ok::<ArtifactRef, ApplicationError>(artifact),
            None => result matches Err(error) && error@ == ApplicationErrorView::Adapter(
                VcErrorView::plain(
                    ErrorCode::ArtifactCorrupt,
                    "completed ASR chunk "@ + decimal(unit@.unit_index as nat)
                        + " has no artifact"@,
                ),
            ),
        },
{
    match unit.artifact() {
        Some(artifact) => Ok(artifact.clone()),
        None => {
            let mut text = "completed ASR chunk ".to_owned();
            push_decimal(&mut text, unit.unit_index() as u64);
            text.append(" has no artifact");
            assert(text@ =~= "completed ASR chunk "@ + decimal(unit@.unit_index as nat)
                + " has no artifact"@);
            Err(ApplicationError::adapter(ErrorCode::ArtifactCorrupt, text.as_str()))
        },
    }
}

/// The transcript of a chunk that was cached cannot be read.
pub open spec fn cache_corrupt(key: Seq<char>, reason: Seq<char>) -> ApplicationErrorView {
    ApplicationErrorView::Adapter(
        VcErrorView::plain(
            ErrorCode::CacheCorrupt,
            "decode ASR chunk cache "@ + key + ": "@ + reason,
        ),
    )
}

/// The transcript of a chunk as it was cached under `key`, given what came of
/// reading the document.
pub fn cached_chunk(decoded: Result<Transcript, String>, key: &str) -> (result: AppResult<Transcript>)
    ensures
        match decoded {
            Ok(transcript) => match result {
                Ok(out) => out == transcript && transcript@.valid(),
                Err(error) => error@ matches ApplicationErrorView::Domain(e)
                    && transcript@.first_error() == Some(e),
            },
            Err(reason) => result matches Err(error) && error@ == cache_corrupt(key@, reason@),
        },
{
    match decoded {
        Ok(transcript) => match transcript.validate() {
            Ok(_) => Ok(transcript),
            Err(error) => Err(ApplicationError::Domain(error)),
        },
        Err(reason) => {
            let mut text = "decode ASR chunk cache ".to_owned();
            text.append(key);
            text.append(": ");
            text.append(reason.as_str());
            Err(ApplicationError::adapter(ErrorCode::CacheCorrupt, text.as_str()))
        },
    }
}

/// The unit of a chunk whose recognition failed, as it is to be stored: cancelled
/// where the job was, failed under the code of the error else. A unit that has
/// ended is left alone after a cancellation.
pub open spec fn unit_after_failure(unit: WorkUnitView, error: VcErrorView) -> Result<
    Option<WorkUnitView>,
    DomainErrorView,
> {
    if error.code == ErrorCode::Cancelled {
        if unit.status.terminal() {
            Ok(None)
        } else {
            match unit.cancelled() {
                Ok(after) => Ok(Some(after)),
                Err(e) => Err(e),
            }
        }
    } else {
        match unit.failed(error.code.text()) {
            Ok(after) => Ok(Some(after)),
            Err(e) => Err(e),
        }
    }
}

/// The unit of a chunk whose recognition failed, as it is to be stored.
pub fn settle_chunk(unit: WorkUnit, error: &VcError) -> (result: Result<
    Option<WorkUnit>,
    ApplicationError,
>)
    ensures
        match result {
            Ok(Some(after)) => unit_after_failure(unit@, error@) == Ok::<
                Option<WorkUnitView>,
                DomainErrorView,
            >(Some(after@)),
            Ok(None) => unit_after_failure(unit@, error@) == Ok::<
                Option<WorkUnitView>,
                DomainErrorView,
            >(None),
            Err(failure) => failure@ matches ApplicationErrorView::Domain(e) && unit_after_failure(
                unit@,
                error@,
            ) == Err::<Option<WorkUnitView>, DomainErrorView>(e),
        },
{
    let mut unit = unit;
    let outcome: Result<(), DomainError> = if error.code == ErrorCode::Cancelled {
        if unit.status().is_terminal() {
            return Ok(None);
        }
        unit.cancel()
    } else {
        unit.fail(error.code.as_str())
    };
    match outcome {
        Ok(_) => Ok(Some(unit)),
        Err(error) => Err(ApplicationError::Domain(error)),
    }
}

/// A chunk that was recognized is never recognized again: its unit is done, and
/// its file is the one that was stored.
pub proof fn law_recognized_chunks_are_loaded(
    index: u32,
    leased: WorkUnitView,
    artifact: ArtifactRef,
    after: WorkUnitView,
)
    requires
        leased.completed(artifact) == Ok::<WorkUnitView, DomainErrorView>(after),
    ensures
        chunk_decision(index, after.status) == Ok::<ChunkStep, ApplicationErrorView>(
            ChunkStep::Load,
        ),
        after.artifact == Some(artifact),
{
}

/// A second run over chunks that have all been recognized recognizes nothing:
/// every chunk is loaded. Where what is loaded is what was found, it gives the
/// transcript of the first run.
pub proof fn law_second_runs_recognize_nothing(
    units: Seq<WorkUnitView>,
    first: ChunkedTranscriptView,
    second: ChunkedTranscriptView,
    found: Seq<ChunkFindings>,
    loaded: Seq<ChunkFindings>,
    source_hash: Seq<char>,
    language: Option<String>,
)
    requires
        forall|i: int|
            0 <= i < units.len() ==> (#[trigger] units[i]).status == WorkUnitStatus::Done,
        found.len() == units.len(),
        loaded == found,
        nothing_yet(first),
        nothing_yet(second),
    ensures
        forall|i: int|
            0 <= i < units.len() ==> chunk_decision(
                (#[trigger] units[i]).unit_index,
                units[i].status,
            ) == Ok::<ChunkStep, ApplicationErrorView>(ChunkStep::Load),
        added_up(second, loaded).whole(source_hash, language).words == added_up(
            first,
            found,
        ).whole(source_hash, language).words,
        units.len() > 0 ==> added_up(second, loaded).whole(source_hash, language) == added_up(
            first,
            found,
        ).whole(source_hash, language),
{
    law_same_findings_give_the_same_transcript(first, second, found);
}

/// A cached chunk that cannot be read is reported as such. It is not recognized
/// again: its unit is done.
pub proof fn law_unreadable_chunks_are_reported(
    unit: WorkUnitView,
    key: Seq<char>,
    reason: Seq<char>,
)
    requires
        unit.status == WorkUnitStatus::Done,
    ensures
        chunk_decision(unit.unit_index, unit.status) == Ok::<ChunkStep, ApplicationErrorView>(
            ChunkStep::Load,
        ),
        cache_corrupt(key, reason).code() == ErrorCode::CacheCorrupt,
{
}

/// A leased unit whose chunk failed ends: cancelled or failed, never open.
pub proof fn law_failed_chunks_end(leased: WorkUnitView, error: VcErrorView)
    requires
        leased.status == WorkUnitStatus::Running,
    ensures
        unit_after_failure(leased, error) matches Ok(Some(after)) && after.status == (if error.code
            == ErrorCode::Cancelled {
            WorkUnitStatus::Cancelled
        } else {
            WorkUnitStatus::Failed
        }) && after.lease is None,
{
}

/// Audio is recognized in one go unless it is longer than the recognizer takes.
pub proof fn law_long_audio_is_cut(secs: u32, duration_ms: u64)
    ensures
        mode_for(None, duration_ms) == AsrMode::Full,
        secs == 0 || duration_ms <= 1000 * secs ==> mode_for(Some(secs), duration_ms)
            == AsrMode::Full,
        secs > 0 && duration_ms > 1000 * secs ==> mode_for(Some(secs), duration_ms) is Chunked
            && mode_for(Some(secs), duration_ms)->max_audio_ms == 1000 * secs,
{
}

/// A chunk that was recognized is loaded, one that waits is recognized, and all
/// others must be put back first. The unit that was leased must be the one that
/// is next.
pub proof fn law_chunks_are_loaded_or_recognized(
    index: u32,
    status: WorkUnitStatus,
    expected: WorkUnitId,
    leased: WorkUnitView,
)
    ensures
        status == WorkUnitStatus::Done ==> chunk_decision(index, status) == Ok::<
            ChunkStep,
            ApplicationErrorView,
        >(ChunkStep::Load),
        status == WorkUnitStatus::Pending ==> chunk_decision(index, status) == Ok::<
            ChunkStep,
            ApplicationErrorView,
        >(ChunkStep::Recognize),
        status == WorkUnitStatus::Running || status == WorkUnitStatus::Failed || status
            == WorkUnitStatus::Cancelled ==> chunk_decision(index, status) is Err,
        lease_decision(index, expected, None) is Some,
        lease_decision(index, expected, Some(leased)) is None <==> leased.id@ == expected@,
{
}

/// A chunk in work that fails ends as failed with the code of the error, and as
/// cancelled where the work was called off.
pub proof fn law_chunks_in_work_are_settled(unit: WorkUnitView, error: VcErrorView)
    requires
        unit.status == WorkUnitStatus::Running,
    ensures
        error.code == ErrorCode::Cancelled ==> {
            &&& unit_after_failure(unit, error) matches Ok(Some(after))
            &&& after.status == WorkUnitStatus::Cancelled && after.lease is None
        },
        error.code != ErrorCode::Cancelled ==> {
            &&& unit_after_failure(unit, error) matches Ok(Some(after))
            &&& after.status == WorkUnitStatus::Failed && after.lease is None
            &&& after.error_code == Some(error.code.text())
        },
{
}

/// The files of the chunks stand in a directory of their own below that of the
/// job, and each lease names its job.
pub proof fn law_chunks_have_their_own_files(job_dir: Seq<char>, index: u32, ending: Seq<char>)
    requires
        job_dir.len() > 0,
        job_dir.last() != '/',
    ensures
        chunk_file(job_dir, index, ending) == job_dir + "/"@ + "asr-chunks"@ + "/"@ + "chunk-"@
            + four_digits(index as nat) + "."@ + ending,
        lease_owner_text(job_dir) == "asr:"@ + job_dir,
{
    reveal_strlit("/");
    reveal_strlit("asr-chunks");
    reveal_strlit("chunk-");
    reveal_strlit(".");
    let dir = below(job_dir, "asr-chunks"@);
    assert("asr-chunks"@[0] == 'a');
    assert(dir == job_dir + "/"@ + "asr-chunks"@);
    assert(dir.last() == 's') by {
        assert("asr-chunks"@[9] == 's');
    }
    let name = "chunk-"@ + four_digits(index as nat) + "."@ + ending;
    assert(name[0] == 'c') by {
        assert("chunk-"@[0] == 'c');
    }
    assert(chunk_file(job_dir, index, ending) =~= job_dir + "/"@ + "asr-chunks"@ + "/"@ + "chunk-"@
        + four_digits(index as nat) + "."@ + ending);
}

} // verus!
