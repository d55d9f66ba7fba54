//! What a stage keeps in the job's directory, and when it may be used again.
use vstd::prelude::*;
use vstd::string::*;

use crate::contracts::{
    option_text, AppResult, ApplicationError, ApplicationErrorView, ErrorCode, VcErrorView,
};
use crate::error::{DomainErrorView, DomainResult};
use crate::hash::{blake3_hex, content_hash};
use crate::identity::{JobId, UlidStr};
use crate::json::{
    json_quoted, member, number_text, object, object_text, push_member, quoted,
};
use crate::paths::{below, four_digits, join_path, push_four_digits};
use crate::ports::{LlmStage, OutboxEvent};
use crate::subtitle::revision::{cue_index, cue_position};
use crate::subtitle::transcript::{Cue, Transcript};
use crate::text::{decimal, push_decimal, same_text, text_views};
use crate::workflow::stage::ArtifactRef;
use crate::workflow::work_unit::{WorkUnit, WorkUnitStatus, WorkUnitView};

use super::documents::{work_identity, work_unit_input_hash};
use super::isolation::input_ids;
use super::plan::{ids_of, is_output, is_planned};
use super::texts::CueTexts;
use super::types::{BatchInput, CueInput, LlmPipelineRequest, LlmPlan, LlmPlanEntry};

verus! {

/// Version of the layout of stored prompts.
pub const PROMPT_ARTIFACT_SCHEMA_VERSION: u32 = 1;

/// The directory of the frozen prompt of a stage.
pub fn prompt_artifact_dir(job_dir: &str, stage: LlmStage, content_hash: &str) -> (path: String)
    ensures
        path@ == below(below(below(job_dir@, "prompts"@), stage.text()), content_hash@),
{
    let prompts = join_path(job_dir, "prompts");
    let of_stage = join_path(prompts.as_str(), stage.as_str());
    join_path(of_stage.as_str(), content_hash)
}

/// The directory of what a stage has worked out.
pub open spec fn stage_dir(job_dir: Seq<char>, stage: LlmStage) -> Seq<char> {
    below(below(job_dir, "llm"@), stage.text())
}

fn stage_directory(job_dir: &str, stage: LlmStage) -> (path: String)
    ensures
        path@ == stage_dir(job_dir@, stage),
{
    let llm = join_path(job_dir, "llm");
    join_path(llm.as_str(), stage.as_str())
}

/// The file of the plan of a stage.
pub fn plan_path(job_dir: &str, stage: LlmStage) -> (path: String)
    ensures
        path@ == below(stage_dir(job_dir@, stage), "plan.json"@),
{
    let dir = stage_directory(job_dir, stage);
    join_path(dir.as_str(), "plan.json")
}

pub open spec fn batch_file(job_dir: Seq<char>, stage: LlmStage, batch_index: u32) -> Seq<char> {
    below(stage_dir(job_dir, stage), "batch-"@ + four_digits(batch_index as nat) + ".json"@)
}

/// The file of the result of one request.
pub fn batch_result_path(job_dir: &str, stage: LlmStage, batch_index: u32) -> (path: String)
    ensures
        path@ == batch_file(job_dir@, stage, batch_index),
{
    let dir = stage_directory(job_dir, stage);
    let mut name = "batch-".to_owned();
    push_four_digits(&mut name, batch_index);
    name.append(".json");
    assert(name@ =~= "batch-"@ + four_digits(batch_index as nat) + ".json"@);
    join_path(dir.as_str(), name.as_str())
}

/// The file in which attempts are noted, one per line.
pub fn attempts_log_path(job_dir: &str, stage: LlmStage) -> (path: String)
    ensures
        path@ == below(stage_dir(job_dir@, stage), "attempts.ndjson"@),
{
    let dir = stage_directory(job_dir, stage);
    join_path(dir.as_str(), "attempts.ndjson")
}

/// What is stored beside a frozen prompt.
#[derive(Debug, PartialEq, Eq)]
pub struct PromptArtifactManifest {
    pub schema_version: u32,
    pub stage: LlmStage,
    pub content_hash: String,
    pub file_hash: String,
    pub provider_revision: String,
}

/// The hash of file contents, marked as such.
pub open spec fn file_identity(bytes: Seq<u8>) -> Seq<char> {
    "blake3:"@ + blake3_hex(bytes)
}

pub fn file_hash(bytes: &[u8]) -> (hash: String)
    ensures
        hash@ == file_identity(bytes@),
{
    let mut hash = "blake3:".to_owned();
    let hex = content_hash(bytes);
    hash.append(hex.as_str());
    hash
}

/// Describe the frozen prompt of a request, given the bytes of its file.
pub fn prompt_manifest(request: &LlmPipelineRequest, body: &[u8]) -> (manifest:
    PromptArtifactManifest)
    ensures
        manifest.schema_version == PROMPT_ARTIFACT_SCHEMA_VERSION,
        manifest.stage == request.stage,
        manifest.content_hash@ == request.prompt.content_hash@,
        manifest.file_hash@ == file_identity(body@),
        manifest.provider_revision@ == request.provider_profile_revision@,
{
    PromptArtifactManifest {
        schema_version: PROMPT_ARTIFACT_SCHEMA_VERSION,
        stage: request.stage,
        content_hash: request.prompt.content_hash.clone(),
        file_hash: file_hash(body),
        provider_revision: request.provider_profile_revision.clone(),
    }
}

/// The stored result of one request.
#[derive(Debug)]
pub struct LlmBatchResultArtifact {
    pub schema_version: u32,
    pub plan_id: String,
    pub plan_hash: String,
    pub batch_index: u32,
    pub stage: LlmStage,
    pub items: CueTexts,
    pub transcript_revision: u64,
    pub input_artifact_id: Option<String>,
    /// Text revisions by cue, in the order of the cues' identifiers.
    pub cue_revisions: Vec<(u32, u64)>,
}

pub open spec fn stale(what: Seq<char>) -> ApplicationErrorView {
    ApplicationErrorView::Adapter(VcErrorView::plain(ErrorCode::StaleResult, what))
}

/// Why a stored result is not used, if so.
pub open spec fn result_refusal(
    result: LlmBatchResultArtifact,
    plan: LlmPlan,
    batch_index: u32,
) -> Option<ApplicationErrorView> {
    if result.plan_hash@ != plan.plan_hash@ {
        Some(stale("durable LLM batch result plan hash does not match active plan"@))
    } else if result.transcript_revision != plan.transcript_revision {
        Some(stale("durable LLM batch result transcript revision is stale"@))
    } else if result.items.order().len() == 0 {
        Some(
            ApplicationErrorView::Adapter(
                VcErrorView::plain(
                    ErrorCode::ArtifactCorrupt,
                    "LLM batch "@ + decimal(batch_index as nat)
                        + " result artifact has no items"@,
                ),
            ),
        )
    } else {
        None
    }
}

/// The texts of a stored result, if it belongs to the plan.
pub fn accept_batch_result(result: LlmBatchResultArtifact, plan: &LlmPlan, batch_index: u32) -> (items:
    AppResult<CueTexts>)
    ensures
        match items {
            Ok(items) => result_refusal(result, *plan, batch_index) is None && items == result.items,
            Err(error) => result_refusal(result, *plan, batch_index) == Some(error@),
        },
{
    if !same_text(result.plan_hash.as_str(), plan.plan_hash.as_str()) {
        return Err(
            ApplicationError::adapter(
                ErrorCode::StaleResult,
                "durable LLM batch result plan hash does not match active plan",
            ),
        );
    }
    if result.transcript_revision != plan.transcript_revision {
        return Err(
            ApplicationError::adapter(
                ErrorCode::StaleResult,
                "durable LLM batch result transcript revision is stale",
            ),
        );
    }
    if result.items.len() == 0 {
        let mut text = "LLM batch ".to_owned();
        push_decimal(&mut text, batch_index as u64);
        text.append(" result artifact has no items");
        assert(text@ =~= "LLM batch "@ + decimal(batch_index as nat)
            + " result artifact has no items"@);
        return Err(ApplicationError::adapter(ErrorCode::ArtifactCorrupt, text.as_str()));
    }
    Ok(result.items)
}

/// Revisions with one more, in the order of the cues' identifiers.
pub open spec fn with_revision(revisions: Seq<(u32, u64)>, id: u32, revision: u64) -> Seq<
    (u32, u64),
>
    decreases revisions.len(),
{
    if revisions.len() == 0 || id < revisions[0].0 {
        seq![(id, revision)] + revisions
    } else if id == revisions[0].0 {
        seq![(id, revision)] + revisions.skip(1)
    } else {
        seq![revisions[0]] + with_revision(revisions.skip(1), id, revision)
    }
}

fn insert_revision(revisions: &Vec<(u32, u64)>, id: u32, revision: u64) -> (out: Vec<(u32, u64)>)
    ensures
        out@ == with_revision(revisions@, id, revision),
{
    let mut out: Vec<(u32, u64)> = Vec::new();
    let mut i: usize = 0;
    assert(revisions@.skip(0) =~= revisions@);
    assert(Seq::<(u32, u64)>::empty() + with_revision(revisions@, id, revision) =~= with_revision(
        revisions@,
        id,
        revision,
    ));
    while i < revisions.len() && revisions[i].0 < id
        invariant
            i <= revisions.len(),
            out@ == revisions@.take(i as int),
            revisions@.take(i as int) + with_revision(revisions@.skip(i as int), id, revision)
                == with_revision(revisions@, id, revision),
        decreases revisions.len() - i,
    {
        out.push(revisions[i]);
        proof {
            let rest = revisions@.skip(i as int);
            assert(rest.skip(1) =~= revisions@.skip(i + 1));
            assert(revisions@.take(i as int) + (seq![rest[0]] + with_revision(
                revisions@.skip(i + 1),
                id,
                revision,
            )) =~= revisions@.take(i + 1) + with_revision(revisions@.skip(i + 1), id, revision));
            assert(out@ =~= revisions@.take(i + 1));
        }
        i += 1;
    }
    let ghost rest = revisions@.skip(i as int);
    let ghost front = revisions@.take(i as int);
    out.push((id, revision));
    let mut from: usize = i;
    if i < revisions.len() && revisions[i].0 == id {
        from = i + 1;
    }
    let ghost head = out@;
    proof {
        assert(with_revision(rest, id, revision) =~= seq![(id, revision)] + revisions@.skip(
            from as int,
        ));
    }
    let start: usize = from;
    while from < revisions.len()
        invariant
            start <= from <= revisions.len(),
            out@ == head + revisions@.subrange(start as int, from as int),
        decreases revisions.len() - from,
    {
        out.push(revisions[from]);
        from += 1;
        assert(out@ =~= head + revisions@.subrange(start as int, from as int));
    }
    assert(revisions@.subrange(start as int, revisions@.len() as int) =~= revisions@.skip(
        start as int,
    ));
    assert(out@ =~= front + with_revision(rest, id, revision));
    out
}

/// The accepted texts of the first `n` cues of a request.
pub open spec fn kept_texts(
    output: Seq<CueInput>,
    accepted: Map<u32, Seq<char>>,
    n: int,
) -> Map<u32, Seq<char>>
    decreases n,
{
    if n <= 0 {
        Map::empty()
    } else {
        let front = kept_texts(output, accepted, n - 1);
        let id = output[n - 1].id;
        if accepted.contains_key(id) {
            front.insert(id, accepted[id])
        } else {
            front
        }
    }
}

/// The text revisions that the first `n` of the cues have in the transcript.
pub open spec fn kept_revisions(ids: Seq<u32>, cues: Seq<Cue>, n: int) -> Seq<(u32, u64)>
    decreases n,
{
    if n <= 0 {
        seq![]
    } else {
        let front = kept_revisions(ids, cues, n - 1);
        match cue_position(cues, ids[n - 1], 0) {
            Some(p) => with_revision(front, ids[n - 1], cues[p].text_revision),
            None => front,
        }
    }
}

/// The text revisions that the cues have in the transcript.
pub open spec fn revisions_in(ids: Seq<u32>, cues: Seq<Cue>) -> Seq<(u32, u64)> {
    kept_revisions(ids, cues, ids.len() as int)
}

fn collect_revisions(ids: &Vec<u32>, cues: &Vec<Cue>) -> (revisions: Vec<(u32, u64)>)
    ensures
        revisions@ == revisions_in(ids@, cues@),
{
    let mut revisions: Vec<(u32, u64)> = Vec::new();
    let mut i: usize = 0;
    while i < ids.len()
        invariant
            i <= ids.len(),
            revisions@ == kept_revisions(ids@, cues@, i as int),
        decreases ids.len() - i,
    {
        if let Some(p) = cue_index(cues, ids[i]) {
            revisions = insert_revision(&revisions, ids[i], cues[p].text_revision);
        }
        i += 1;
    }
    revisions
}

/// The text revision of a cue, zero for one that is not there.
pub open spec fn text_revision(cues: Seq<Cue>, id: u32) -> u64 {
    match cue_position(cues, id, 0) {
        Some(p) => cues[p].text_revision,
        None => 0,
    }
}

/// The first planned revision from `i` on that the transcript no longer has.
pub open spec fn first_conflict(cues: Seq<Cue>, expected: Seq<(u32, u64)>, i: int) -> Option<
    (u32, u64),
>
    decreases expected.len() - i,
{
    if i < 0 || i >= expected.len() {
        None
    } else if text_revision(cues, expected[i].0) != expected[i].1 {
        Some(expected[i])
    } else {
        first_conflict(cues, expected, i + 1)
    }
}

/// The position of the first request with the number `index`, from `from` on.
pub open spec fn entry_position(entries: Seq<LlmPlanEntry>, index: u32, from: int) -> Option<int>
    decreases entries.len() - from,
{
    if from < 0 || from >= entries.len() {
        None
    } else if entries[from].batch_index == index {
        Some(from)
    } else {
        entry_position(entries, index, from + 1)
    }
}

fn find_entry(entries: &Vec<LlmPlanEntry>, index: u32) -> (found: Option<usize>)
    ensures
        match found {
            Some(p) => p < entries@.len() && entry_position(entries@, index, 0) == Some(p as int),
            None => entry_position(entries@, index, 0) is None,
        },
{
    let mut i: usize = 0;
    while i < entries.len()
        invariant
            i <= entries.len(),
            entry_position(entries@, index, 0) == entry_position(entries@, index, i as int),
        decreases entries.len() - i,
    {
        if entries[i].batch_index == index {
            return Some(i);
        }
        i += 1;
    }
    None
}

/// Why the result of a request is not stored, if so: a cue has been written
/// since the plan was made.
pub open spec fn conflict(plan: LlmPlan, index: u32, cues: Seq<Cue>) -> Option<(u32, u64)> {
    match entry_position(plan.entries@, index, 0) {
        Some(p) => first_conflict(cues, plan.entries@[p].expected_text_revisions@, 0),
        None => None,
    }
}

pub open spec fn conflict_error(id: u32, actual: u64, expected: u64) -> ApplicationErrorView {
    stale(
        "cue "@ + decimal(id as nat) + " text revision "@ + decimal(actual as nat)
            + " != plan expected "@ + decimal(expected as nat),
    )
}

fn check_revisions(cues: &Vec<Cue>, expected: &Vec<(u32, u64)>) -> (result: AppResult<()>)
    ensures
        match result {
            Ok(_) => first_conflict(cues@, expected@, 0) is None,
            Err(error) => first_conflict(cues@, expected@, 0) matches Some((id, revision))
                && error@ == conflict_error(id, text_revision(cues@, id), revision),
        },
{
    let mut i: usize = 0;
    while i < expected.len()
        invariant
            i <= expected.len(),
            first_conflict(cues@, expected@, 0) == first_conflict(cues@, expected@, i as int),
        decreases expected.len() - i,
    {
        let (id, wanted): (u32, u64) = expected[i];
        let actual: u64 = match cue_index(cues, id) {
            Some(p) => cues[p].text_revision,
            None => 0,
        };
        if actual != wanted {
            let mut text = "cue ".to_owned();
            push_decimal(&mut text, id as u64);
            text.append(" text revision ");
            push_decimal(&mut text, actual);
            text.append(" != plan expected ");
            push_decimal(&mut text, wanted);
            assert(text@ =~= "cue "@ + decimal(id as nat) + " text revision "@ + decimal(
                actual as nat,
            ) + " != plan expected "@ + decimal(wanted as nat));
            return Err(ApplicationError::adapter(ErrorCode::StaleResult, text.as_str()));
        }
        i += 1;
    }
    Ok(())
}

/// `artifact` is the result of a request as it is stored.
pub open spec fn is_result(
    stage: LlmStage,
    plan: LlmPlan,
    batch: BatchInput,
    cues: Seq<Cue>,
    accepted: Map<u32, Seq<char>>,
    artifact: LlmBatchResultArtifact,
) -> bool {
    &&& artifact.schema_version == 1
    &&& artifact.plan_id@ == plan.plan_id@
    &&& artifact.plan_hash@ == plan.plan_hash@
    &&& artifact.batch_index == batch.index
    &&& artifact.stage == stage
    &&& artifact.items@ == kept_texts(batch.output@, accepted, batch.output@.len() as int)
    &&& artifact.items.in_order()
    &&& artifact.transcript_revision == plan.transcript_revision
    &&& option_text(artifact.input_artifact_id) == option_text(plan.input_artifact_id)
    &&& artifact.cue_revisions@ == revisions_in(input_ids(batch.output@), cues)
}

/// Put together what is stored of the result of a request. It is refused when a
/// cue has been written since the plan was made.
pub fn batch_result(
    stage: LlmStage,
    plan: &LlmPlan,
    batch: &BatchInput,
    transcript: &Transcript,
    accepted: &CueTexts,
) -> (result: AppResult<LlmBatchResultArtifact>)
    ensures
        match result {
            Ok(artifact) => conflict(*plan, batch.index, transcript.cues@) is None && is_result(
                stage,
                *plan,
                *batch,
                transcript.cues@,
                accepted@,
                artifact,
            ),
            Err(error) => conflict(*plan, batch.index, transcript.cues@) matches Some(
                (id, expected),
            ) && error@ == conflict_error(id, text_revision(transcript.cues@, id), expected),
        },
{
    let mut items = CueTexts::new();
    let mut i: usize = 0;
    while i < batch.output.len()
        invariant
            i <= batch.output.len(),
            items@ == kept_texts(batch.output@, accepted@, i as int),
            items.in_order(),
        decreases batch.output.len() - i,
    {
        let id: u32 = batch.output[i].id;
        if let Some(text) = accepted.get(id) {
            items.insert(id, text);
        }
        i += 1;
    }
    let cue_revisions = collect_revisions(&ids_of(&batch.output), &transcript.cues);
    if let Some(p) = find_entry(&plan.entries, batch.index) {
        check_revisions(&transcript.cues, &plan.entries[p].expected_text_revisions)?;
    }
    Ok(
        LlmBatchResultArtifact {
            schema_version: 1,
            plan_id: plan.plan_id.clone(),
            plan_hash: plan.plan_hash.clone(),
            batch_index: batch.index,
            stage,
            items,
            transcript_revision: plan.transcript_revision,
            input_artifact_id: plan.input_artifact_id.clone(),
            cue_revisions,
        },
    )
}

/// The identity of the work unit that a result belongs to, or the error of a
/// plan without such a request.
pub fn result_unit_hash(plan: &LlmPlan, result: &LlmBatchResultArtifact) -> (hash: AppResult<String>)
    ensures
        match hash {
            Ok(hash) => entry_position(plan.entries@, result.batch_index, 0) matches Some(p)
                && hash@ == work_identity(*plan, plan.entries@[p], result.cue_revisions@),
            Err(error) => entry_position(plan.entries@, result.batch_index, 0) is None && error@
                == ApplicationErrorView::Invalid(
                "plan missing entry for batch "@ + decimal(result.batch_index as nat),
            ),
        },
{
    match find_entry(&plan.entries, result.batch_index) {
        Some(p) => Ok(work_unit_input_hash(plan, &plan.entries[p], &result.cue_revisions)),
        None => {
            let mut text = "plan missing entry for batch ".to_owned();
            push_decimal(&mut text, result.batch_index as u64);
            assert(text@ =~= "plan missing entry for batch "@ + decimal(
                result.batch_index as nat,
            ));
            Err(ApplicationError::invalid(text.as_str()))
        },
    }
}

/// The error of a request whose work unit is not there.
pub fn missing_unit(batch_index: u32) -> (error: ApplicationError)
    ensures
        error@ == ApplicationErrorView::Invalid(
            "llm_batch WorkUnit for batch "@ + decimal(batch_index as nat) + " not found"@,
        ),
{
    let mut text = "llm_batch WorkUnit for batch ".to_owned();
    push_decimal(&mut text, batch_index as u64);
    text.append(" not found");
    assert(text@ =~= "llm_batch WorkUnit for batch "@ + decimal(batch_index as nat)
        + " not found"@);
    ApplicationError::invalid(text.as_str())
}

/// The identity of the work unit of a planned request: what is asked, and the
/// revisions of the cues that it is asked about.
pub open spec fn unit_identity(plan: LlmPlan, entry: LlmPlanEntry, cues: Seq<Cue>) -> Seq<char> {
    work_identity(plan, entry, revisions_in(entry.output_cue_ids@, cues))
}

/// The work unit of a planned request.
pub fn planned_unit(
    id: UlidStr,
    job_id: JobId,
    stage: LlmStage,
    plan: &LlmPlan,
    entry: &LlmPlanEntry,
    transcript: &Transcript,
) -> (result: DomainResult<WorkUnit>)
    ensures
        result matches Ok(unit) && unit@ == WorkUnitView::fresh(
            id,
            job_id,
            stage.kind(),
            "llm_batch"@,
            entry.batch_index,
            unit_identity(*plan, *entry, transcript.cues@),
        ),
{
    let revisions = collect_revisions(&entry.output_cue_ids, &transcript.cues);
    let hash = work_unit_input_hash(plan, entry, &revisions);
    proof {
        reveal_strlit("blake3:");
        assert("blake3:"@.len() == 7);
    }
    WorkUnit::new(
        id,
        job_id,
        stage.stage_kind(),
        "llm_batch",
        entry.batch_index,
        hash.as_str(),
    )
}

/// The file that holds the result of a request.
pub fn batch_artifact(id: UlidStr, job_dir: &str, stage: LlmStage, batch_index: u32, bytes: &[u8]) -> (artifact:
    ArtifactRef)
    ensures
        artifact.id == id,
        artifact.stage == stage.kind(),
        artifact.path@ == batch_file(job_dir@, stage, batch_index),
        artifact.content_hash@ == file_identity(bytes@),
        artifact.schema_version == 1,
        artifact.producer_fingerprint@ == "llm-"@ + stage.text(),
{
    let mut producer = "llm-".to_owned();
    producer.append(stage.as_str());
    ArtifactRef {
        id,
        stage: stage.stage_kind(),
        path: batch_result_path(job_dir, stage, batch_index),
        content_hash: file_hash(bytes),
        schema_version: 1,
        producer_fingerprint: producer,
    }
}

/// The work unit of a request with the result of the request: a unit that
/// waits is taken up and completed in one step, and one that is done stays as it
/// is.
pub open spec fn unit_with_result(unit: WorkUnitView, artifact: ArtifactRef) -> Result<
    Option<WorkUnitView>,
    DomainErrorView,
> {
    let taken = if unit.status == WorkUnitStatus::Pending {
        unit.leased("llm"@, 0, 1)
    } else {
        Ok(unit)
    };
    if unit.status == WorkUnitStatus::Done {
        Ok(None)
    } else {
        match taken {
            Ok(unit) => match unit.completed(artifact) {
                Ok(after) => Ok(Some(after)),
                Err(e) => Err(e),
            },
            Err(e) => Err(e),
        }
    }
}

/// The work unit as it is stored together with the result of its request.
/// Nothing is stored for a unit that is done.
pub fn complete_unit(unit: &WorkUnit, artifact: ArtifactRef) -> (result: AppResult<Option<WorkUnit>>)
    ensures
        match result {
            Ok(Some(after)) => unit_with_result(unit@, artifact) == Ok::<
                Option<WorkUnitView>,
                DomainErrorView,
            >(Some(after@)),
            Ok(None) => unit_with_result(unit@, artifact) == Ok::<
                Option<WorkUnitView>,
                DomainErrorView,
            >(None),
            Err(error) => error@ matches ApplicationErrorView::Domain(e) && unit_with_result(
                unit@,
                artifact,
            ) == Err::<Option<WorkUnitView>, DomainErrorView>(e),
        },
{
    if unit.status() == WorkUnitStatus::Done {
        return Ok(None);
    }
    let mut after = unit.clone();
    if after.status() == WorkUnitStatus::Pending {
        if let Err(error) = after.lease_for("llm", 0, 1) {
            return Err(ApplicationError::Domain(error));
        }
    }
    match after.complete(artifact) {
        Ok(_) => Ok(Some(after)),
        Err(error) => Err(ApplicationError::Domain(error)),
    }
}

/// What is told of a request whose result is stored.
pub open spec fn batch_done_text(
    job_id: Seq<char>,
    stage: LlmStage,
    batch_index: u32,
    artifact_id: Seq<char>,
) -> Seq<char> {
    object(
        seq![
            member("artifact_id"@, json_quoted(artifact_id)),
            member("batch_index"@, decimal(batch_index as nat)),
            member("job_id"@, json_quoted(job_id)),
            member("stage"@, json_quoted(stage.text())),
        ],
    )
}

/// The note that the result of a request is stored.
pub fn batch_done_event(
    unit: &WorkUnit,
    job_id: &JobId,
    stage: LlmStage,
    batch_index: u32,
    artifact: &ArtifactRef,
    created_at: &str,
) -> (event: OutboxEvent)
    ensures
        event.aggregate_type@ == "work_unit"@,
        event.aggregate_id@ == unit@.id@,
        event.event_type@ == "llm_batch.done"@,
        event.payload_json@ == batch_done_text(job_id@, stage, batch_index, artifact.id@),
        event.created_at@ == created_at@,
{
    let mut members: Vec<String> = Vec::new();
    assert(text_views(members@) =~= seq![]);
    push_member(&mut members, "artifact_id", quoted(artifact.id.as_str()).as_str());
    push_member(&mut members, "batch_index", number_text(batch_index as u64).as_str());
    push_member(&mut members, "job_id", quoted(job_id.as_str()).as_str());
    push_member(&mut members, "stage", quoted(stage.as_str()).as_str());
    assert(text_views(members@) =~= seq![
        member("artifact_id"@, json_quoted(artifact.id@)),
        member("batch_index"@, decimal(batch_index as nat)),
        member("job_id"@, json_quoted(job_id@)),
        member("stage"@, json_quoted(stage.text())),
    ]);
    OutboxEvent {
        aggregate_type: "work_unit".to_owned(),
        aggregate_id: unit.id().as_str().to_owned(),
        event_type: "llm_batch.done".to_owned(),
        payload_json: object_text(&members),
        created_at: created_at.to_owned(),
    }
}

proof fn lemma_kept_texts(
    output: Seq<CueInput>,
    accepted: Map<u32, Seq<char>>,
    n: int,
    id: u32,
)
    requires
        0 <= n <= output.len(),
    ensures
        kept_texts(output, accepted, n).contains_key(id) <==> accepted.contains_key(id) && (
        exists|i: int| 0 <= i < n && (#[trigger] output[i]).id == id),
        kept_texts(output, accepted, n).contains_key(id) ==> kept_texts(output, accepted, n)[id]
            == accepted[id],
    decreases n,
{
    if n > 0 {
        lemma_kept_texts(output, accepted, n - 1, id);
        if output[n - 1].id == id {
            assert(output[n - 1].id == id);
        }
    }
}

/// A stored result has the accepted texts of its own cues and of no others.
pub proof fn law_results_keep_their_own_cues(
    output: Seq<CueInput>,
    accepted: Map<u32, Seq<char>>,
    id: u32,
)
    ensures
        kept_texts(output, accepted, output.len() as int).contains_key(id)
            <==> accepted.contains_key(id) && (exists|i: int|
            0 <= i < output.len() && (#[trigger] output[i]).id == id),
        kept_texts(output, accepted, output.len() as int).contains_key(id) ==> kept_texts(
            output,
            accepted,
            output.len() as int,
        )[id] == accepted[id],
{
    lemma_kept_texts(output, accepted, output.len() as int, id);
}

/// A result that was stored under a plan is taken back under the same plan,
/// unless it is empty.
pub proof fn law_stored_results_are_taken_back(
    stage: LlmStage,
    plan: LlmPlan,
    batch: BatchInput,
    cues: Seq<Cue>,
    accepted: Map<u32, Seq<char>>,
    artifact: LlmBatchResultArtifact,
)
    requires
        is_result(stage, plan, batch, cues, accepted, artifact),
        artifact.items.order().len() > 0,
    ensures
        result_refusal(artifact, plan, batch.index) is None,
{
}

/// The result of a planned request belongs to the work unit that was made for
/// the request: both have the same identity as long as the cues of the
/// transcript are the same.
pub proof fn law_results_belong_to_their_units(
    stage: LlmStage,
    plan: LlmPlan,
    batch: BatchInput,
    cues: Seq<Cue>,
    accepted: Map<u32, Seq<char>>,
    artifact: LlmBatchResultArtifact,
    p: int,
)
    requires
        is_result(stage, plan, batch, cues, accepted, artifact),
        entry_position(plan.entries@, batch.index, 0) == Some(p),
        plan.entries@[p].output_cue_ids@ == input_ids(batch.output@),
    ensures
        entry_position(plan.entries@, artifact.batch_index, 0) == Some(p),
        work_identity(plan, plan.entries@[p], artifact.cue_revisions@) == unit_identity(
            plan,
            plan.entries@[p],
            cues,
        ),
{
}

/// The work unit of a planned request can be completed with the result of the
/// request.
pub proof fn law_planned_units_take_their_results(
    id: UlidStr,
    job_id: JobId,
    stage: LlmStage,
    index: u32,
    identity: Seq<char>,
    artifact: ArtifactRef,
)
    requires
        artifact.stage == stage.kind(),
    ensures
        unit_with_result(
            WorkUnitView::fresh(id, job_id, stage.kind(), "llm_batch"@, index, identity),
            artifact,
        ) matches Ok(Some(unit)) && unit.status == WorkUnitStatus::Done && unit.artifact == Some(
            artifact,
        ) && unit.input_hash == identity && unit_with_result(unit, artifact) == Ok::<
            Option<WorkUnitView>,
            DomainErrorView,
        >(None),
{
}

/// The requests of a plan, taken up with the transcript, have the cues that
/// were planned for them.
pub proof fn law_planned_requests_keep_their_cues(
    cues: Seq<Cue>,
    entry: LlmPlanEntry,
    batch: BatchInput,
)
    requires
        is_planned(cues, entry, batch),
    ensures
        entry.output_cue_ids@ == input_ids(batch.output@),
        batch.index == entry.batch_index,
{
    assert forall|i: int| 0 <= i < batch.output@.len() implies entry.output_cue_ids@[i]
        == input_ids(batch.output@)[i] by {
        assert(is_output(cues, entry.output_cue_ids@[i], batch.output@[i]));
    }
    assert(entry.output_cue_ids@ =~= input_ids(batch.output@));
}

/// A result that was stored under another plan is refused as stale.
pub proof fn law_results_of_other_plans_are_stale(
    artifact: LlmBatchResultArtifact,
    plan: LlmPlan,
    batch_index: u32,
)
    requires
        artifact.plan_hash@ != plan.plan_hash@ || artifact.transcript_revision
            != plan.transcript_revision,
    ensures
        result_refusal(artifact, plan, batch_index) matches Some(error) && error.code()
            == ErrorCode::StaleResult,
{
}

proof fn lemma_revision_is_noted(
    revisions: Seq<(u32, u64)>,
    id: u32,
    revision: u64,
    other: (u32, u64),
)
    ensures
        with_revision(revisions, id, revision).contains((id, revision)),
        other.0 != id && revisions.contains(other) ==> with_revision(
            revisions,
            id,
            revision,
        ).contains(other),
        with_revision(revisions, id, revision).contains(other) ==> other == (id, revision)
            || revisions.contains(other),
    decreases revisions.len(),
{
    let out = with_revision(revisions, id, revision);
    if revisions.len() == 0 || id < revisions[0].0 {
        assert(out[0] == (id, revision));
        if revisions.contains(other) {
            let k = choose|k: int| 0 <= k < revisions.len() && revisions[k] == other;
            assert(out[k + 1] == other);
        }
        if out.contains(other) {
            let k = choose|k: int| 0 <= k < out.len() && out[k] == other;
            if k > 0 {
                assert(revisions[k - 1] == other);
            }
        }
    } else if id == revisions[0].0 {
        assert(out[0] == (id, revision));
        if other.0 != id && revisions.contains(other) {
            let k = choose|k: int| 0 <= k < revisions.len() && revisions[k] == other;
            assert(k > 0);
            assert(out[k] == revisions.skip(1)[k - 1]);
            assert(out[k] == other);
        }
        if out.contains(other) {
            let k = choose|k: int| 0 <= k < out.len() && out[k] == other;
            if k > 0 {
                assert(out[k] == revisions.skip(1)[k - 1]);
                assert(revisions[k] == other);
            }
        }
    } else {
        let rest = revisions.skip(1);
        let tail = with_revision(rest, id, revision);
        lemma_revision_is_noted(rest, id, revision, other);
        let k = choose|k: int| 0 <= k < tail.len() && tail[k] == (id, revision);
        assert(out[k + 1] == (id, revision));
        if other.0 != id && revisions.contains(other) {
            let k = choose|k: int| 0 <= k < revisions.len() && revisions[k] == other;
            if k == 0 {
                assert(out[0] == other);
            } else {
                assert(rest[k - 1] == other);
                let m = choose|m: int| 0 <= m < tail.len() && tail[m] == other;
                assert(out[m + 1] == other);
            }
        }
        if out.contains(other) {
            let k = choose|k: int| 0 <= k < out.len() && out[k] == other;
            if k == 0 {
                assert(revisions[0] == other);
            } else {
                assert(tail[k - 1] == other);
                if rest.contains(other) {
                    let m = choose|m: int| 0 <= m < rest.len() && rest[m] == other;
                    assert(revisions[m + 1] == other);
                }
            }
        }
    }
}

proof fn lemma_kept_revisions(ids: Seq<u32>, cues: Seq<Cue>, n: int, k: int)
    requires
        0 <= k < n <= ids.len(),
    ensures
        cue_position(cues, ids[k], 0) matches Some(p) ==> kept_revisions(ids, cues, n).contains(
            (ids[k], cues[p].text_revision),
        ),
    decreases n,
{
    let front = kept_revisions(ids, cues, n - 1);
    if let Some(p) = cue_position(cues, ids[k], 0) {
        if k < n - 1 {
            lemma_kept_revisions(ids, cues, n - 1, k);
        }
        if let Some(q) = cue_position(cues, ids[n - 1], 0) {
            lemma_revision_is_noted(
                front,
                ids[n - 1],
                cues[q].text_revision,
                (ids[k], cues[p].text_revision),
            );
        }
    }
}

/// With a result the text revision of each of its cues is stored.
pub proof fn law_results_note_the_revisions(ids: Seq<u32>, cues: Seq<Cue>, k: int, p: int)
    requires
        0 <= k < ids.len(),
        cue_position(cues, ids[k], 0) == Some(p),
    ensures
        revisions_in(ids, cues).contains((ids[k], cues[p].text_revision)),
{
    lemma_kept_revisions(ids, cues, ids.len() as int, k);
}

proof fn lemma_conflicts(cues: Seq<Cue>, expected: Seq<(u32, u64)>, i: int)
    requires
        0 <= i,
    ensures
        first_conflict(cues, expected, i) is None <==> forall|k: int|
            i <= k < expected.len() ==> text_revision(cues, (#[trigger] expected[k]).0)
                == expected[k].1,
    decreases expected.len() - i,
{
    if i < expected.len() {
        lemma_conflicts(cues, expected, i + 1);
        if text_revision(cues, expected[i].0) != expected[i].1 {
            assert(expected[i].0 == expected[i].0);
        }
    }
}

/// A result is refused where one of its cues has changed since the plan, and only
/// there.
pub proof fn law_changed_cues_refuse_the_result(cues: Seq<Cue>, expected: Seq<(u32, u64)>)
    ensures
        first_conflict(cues, expected, 0) is None <==> forall|k: int|
            0 <= k < expected.len() ==> text_revision(cues, (#[trigger] expected[k]).0)
                == expected[k].1,
        forall|id: u32, p: int|
            cue_position(cues, id, 0) == Some(p) ==> #[trigger] text_revision(cues, id)
                == #[trigger] cues[p].text_revision,
{
    lemma_conflicts(cues, expected, 0);
}

/// A stored result is taken where plan and transcript are the same and it holds
/// something.
pub proof fn law_when_results_are_taken(
    result: LlmBatchResultArtifact,
    plan: LlmPlan,
    batch_index: u32,
)
    ensures
        result_refusal(result, plan, batch_index) is None <==> result.plan_hash@ == plan.plan_hash@
            && result.transcript_revision == plan.transcript_revision
            && result.items.order().len() > 0,
        result.plan_hash@ == plan.plan_hash@ && result.transcript_revision
            == plan.transcript_revision && result.items.order().len() == 0 ==> (result_refusal(
            result,
            plan,
            batch_index,
        ) matches Some(error) && error.code() == ErrorCode::ArtifactCorrupt),
{
}

/// A stored result names its plan, its request and its transcript.
pub proof fn law_results_name_their_plan(
    stage: LlmStage,
    plan: LlmPlan,
    batch: BatchInput,
    cues: Seq<Cue>,
    accepted: Map<u32, Seq<char>>,
    artifact: LlmBatchResultArtifact,
)
    requires
        is_result(stage, plan, batch, cues, accepted, artifact),
    ensures
        artifact.schema_version == 1 && artifact.stage == stage,
        artifact.plan_id@ == plan.plan_id@ && artifact.plan_hash@ == plan.plan_hash@,
        artifact.batch_index == batch.index,
        artifact.transcript_revision == plan.transcript_revision,
        match (artifact.input_artifact_id, plan.input_artifact_id) {
            (Some(a), Some(b)) => a@ == b@,
            (None, None) => true,
            _ => false,
        },
{
}

/// A unit that waits or is leased is completed with its result, one that is done
/// is left alone, and others are refused.
pub proof fn law_units_take_one_result(unit: WorkUnitView, artifact: ArtifactRef)
    requires
        artifact.stage == unit.stage,
    ensures
        unit.status == WorkUnitStatus::Done ==> unit_with_result(unit, artifact) == Ok::<
            Option<WorkUnitView>,
            DomainErrorView,
        >(None),
        unit.status == WorkUnitStatus::Pending || (unit.status == WorkUnitStatus::Running
            && unit.lease is Some) ==> unit_with_result(unit, artifact) == Ok::<
            Option<WorkUnitView>,
            DomainErrorView,
        >(
            Some(
                WorkUnitView {
                    status: WorkUnitStatus::Done,
                    lease: None,
                    artifact: Some(artifact),
                    error_code: None,
                    ..unit
                },
            ),
        ),
        unit.status == WorkUnitStatus::Failed || unit.status == WorkUnitStatus::Cancelled
            ==> unit_with_result(unit, artifact) is Err,
{
}

/// The files of a stage stand in its own directory below that of the job.
pub proof fn law_results_have_their_own_files(job_dir: Seq<char>, stage: LlmStage, index: u32)
    requires
        job_dir.len() > 0,
        job_dir.last() != '/',
    ensures
        stage_dir(job_dir, stage) == job_dir + "/"@ + "llm"@ + "/"@ + stage.text(),
        batch_file(job_dir, stage, index) == job_dir + "/"@ + "llm"@ + "/"@ + stage.text() + "/"@
            + "batch-"@ + four_digits(index as nat) + ".json"@,
{
    reveal_strlit("/");
    reveal_strlit("llm");
    reveal_strlit("split");
    reveal_strlit("correct");
    reveal_strlit("translate");
    reveal_strlit("batch-");
    reveal_strlit(".json");
    assert("llm"@[0] == 'l' && "llm"@[2] == 'm');
    assert("split"@[0] == 's' && "split"@[4] == 't');
    assert("correct"@[0] == 'c' && "correct"@[6] == 't');
    assert("translate"@[0] == 't' && "translate"@[8] == 'e');
    assert("batch-"@[0] == 'b');
    let llm = below(job_dir, "llm"@);
    assert(llm.last() == 'm');
    let dir = stage_dir(job_dir, stage);
    assert(dir =~= job_dir + "/"@ + "llm"@ + "/"@ + stage.text());
    assert(dir.last() != '/');
    let name = "batch-"@ + four_digits(index as nat) + ".json"@;
    assert(name[0] == 'b');
    assert(batch_file(job_dir, stage, index) =~= job_dir + "/"@ + "llm"@ + "/"@ + stage.text() + "/"@
        + "batch-"@ + four_digits(index as nat) + ".json"@);
}

/// A result is held against the entry of its own request.
pub proof fn law_results_meet_their_own_entry(plan: LlmPlan, cues: Seq<Cue>, p: int)
    requires
        0 <= p < plan.entries@.len(),
        forall|i: int|
            0 <= i < p ==> (#[trigger] plan.entries@[i]).batch_index != plan.entries@[p].batch_index,
    ensures
        conflict(plan, plan.entries@[p].batch_index, cues) == first_conflict(
            cues,
            plan.entries@[p].expected_text_revisions@,
            0,
        ),
{
    lemma_entry_found(plan.entries@, plan.entries@[p].batch_index, p, 0);
}

proof fn lemma_entry_found(entries: Seq<LlmPlanEntry>, index: u32, p: int, from: int)
    requires
        0 <= from <= p < entries.len(),
        entries[p].batch_index == index,
        forall|i: int| 0 <= i < p ==> (#[trigger] entries[i]).batch_index != index,
    ensures
        entry_position(entries, index, from) == Some(p),
    decreases p - from,
{
    if from < p {
        assert(entries[from].batch_index != index);
        lemma_entry_found(entries, index, p, from + 1);
    }
}

} // verus!
