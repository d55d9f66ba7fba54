//! Plans: what is sent in which order.
use vstd::prelude::*;
use vstd::string::*;

use crate::contracts::{
    option_text, AppResult, ApplicationError, ApplicationErrorView,
};
use crate::hash::{text_hash, text_identity};
use crate::ports::{LlmStage, StructuredOutput};
use crate::subtitle::revision::{cue_index, cue_position};
use crate::subtitle::transcript::{Cue, Transcript};
use crate::text::{decimal, push_decimal, same_text};

use super::documents::{law_plan_identity_is_its_content, plan_hash, plan_identity};
use super::isolation::input_ids;
use super::packing::{batch_estimate, estimate_batch_tokens};
use super::types::{BatchInput, CueInput, LlmPipelineRequest, LlmPlan, LlmPlanEntry};

verus! {

/// Version of the layout of stored plans.
pub const LLM_PLAN_SCHEMA_VERSION: u32 = 2;

/// The weaker of two forms of structured output.
pub open spec fn weaker(a: StructuredOutput, b: StructuredOutput) -> StructuredOutput {
    if a == StructuredOutput::PromptOnly || b == StructuredOutput::PromptOnly {
        StructuredOutput::PromptOnly
    } else if a == StructuredOutput::JsonObject || b == StructuredOutput::JsonObject {
        StructuredOutput::JsonObject
    } else {
        StructuredOutput::JsonSchema
    }
}

/// The form of structured output that is both wanted and available.
pub fn effective_structured_output(requested: StructuredOutput, available: StructuredOutput) -> (output:
    StructuredOutput)
    ensures
        output == weaker(requested, available),
{
    match (requested, available) {
        (StructuredOutput::JsonSchema, StructuredOutput::JsonSchema) => StructuredOutput::JsonSchema,
        (StructuredOutput::PromptOnly, _) => StructuredOutput::PromptOnly,
        (_, StructuredOutput::PromptOnly) => StructuredOutput::PromptOnly,
        _ => StructuredOutput::JsonObject,
    }
}

/// The name of the variant.
pub open spec fn output_name(output: StructuredOutput) -> Seq<char> {
    match output {
        StructuredOutput::JsonSchema => "JsonSchema"@,
        StructuredOutput::JsonObject => "JsonObject"@,
        StructuredOutput::PromptOnly => "PromptOnly"@,
    }
}

fn name_of(output: StructuredOutput) -> (name: String)
    ensures
        name@ == output_name(output),
{
    match output {
        StructuredOutput::JsonSchema => "JsonSchema".to_owned(),
        StructuredOutput::JsonObject => "JsonObject".to_owned(),
        StructuredOutput::PromptOnly => "PromptOnly".to_owned(),
    }
}

/// The job that a request belongs to.
pub open spec fn job_of(request: LlmPipelineRequest) -> Option<Seq<char>> {
    match request.durable {
        Some(durable) => Some(durable.job_id@),
        None => None,
    }
}

/// What a request works on.
pub open spec fn input_of(request: LlmPipelineRequest) -> Option<Seq<char>> {
    match request.durable {
        Some(durable) => option_text(durable.input_artifact_id),
        None => None,
    }
}

pub open spec fn revision_of(request: LlmPipelineRequest) -> u64 {
    match request.durable {
        Some(durable) => durable.transcript_revision,
        None => 0,
    }
}

/// The plan has from the request what does not depend on the cues.
pub open spec fn plan_frame(request: LlmPipelineRequest, plan: LlmPlan) -> bool {
    &&& plan.schema_version == LLM_PLAN_SCHEMA_VERSION
    &&& option_text(plan.job_id) == job_of(request)
    &&& plan.stage == request.stage
    &&& option_text(plan.input_artifact_id) == input_of(request)
    &&& plan.transcript_revision == revision_of(request)
    &&& plan.model@ == request.model@
    &&& plan.provider_profile_revision@ == request.provider_profile_revision@
    &&& plan.prompt_bundle_hash@ == request.prompt.content_hash@
    &&& plan.prompt_artifact_hash@ == request.prompt.content_hash@
    &&& plan.effective_capability@ == output_name(request.structured_output)
    &&& option_text(plan.target_language) == option_text(request.target_language)
}

/// A plan without requests.
pub fn empty_plan(request: &LlmPipelineRequest) -> (plan: LlmPlan)
    ensures
        plan_frame(*request, plan),
        plan.plan_id@ == ""@,
        plan.max_context_tokens == request.max_context_tokens,
        plan.max_output_tokens == request.max_output_tokens,
        plan.entries@.len() == 0,
        plan.plan_hash@ == ""@,
{
    let (job_id, input_artifact_id, transcript_revision) = match &request.durable {
        Some(durable) => (
            Some(durable.job_id.as_str().to_owned()),
            durable.input_artifact_id.clone(),
            durable.transcript_revision,
        ),
        None => (None, None, 0),
    };
    LlmPlan {
        schema_version: LLM_PLAN_SCHEMA_VERSION,
        plan_id: "".to_owned(),
        job_id,
        stage: request.stage,
        input_artifact_id,
        transcript_revision,
        model: request.model.clone(),
        provider_profile_revision: request.provider_profile_revision.clone(),
        prompt_bundle_hash: request.prompt.content_hash.clone(),
        prompt_artifact_hash: request.prompt.content_hash.clone(),
        effective_capability: name_of(request.structured_output),
        max_context_tokens: request.max_context_tokens,
        max_output_tokens: request.max_output_tokens,
        target_language: request.target_language.clone(),
        entries: Vec::new(),
        plan_hash: "".to_owned(),
    }
}

/// `entry` plans the request `batch`, whose input is estimated at `tokens`.
pub open spec fn is_entry(
    batch: BatchInput,
    tokens: u32,
    output_limit: u32,
    entry: LlmPlanEntry,
) -> bool {
    &&& entry.batch_index == batch.index
    &&& entry.output_cue_ids@ == input_ids(batch.output@)
    &&& entry.context_cue_ids@ == input_ids(batch.context@)
    &&& entry.estimated_input_tokens == tokens
    &&& entry.reserved_output_tokens == output_limit
    &&& entry.expected_text_revisions@.len() == 0
    &&& entry.expected_translation_revisions@.len() == 0
}

/// The identifiers of cues.
pub fn ids_of(items: &Vec<CueInput>) -> (ids: Vec<u32>)
    ensures
        ids@ == input_ids(items@),
{
    let mut ids: Vec<u32> = Vec::new();
    let mut i: usize = 0;
    while i < items.len()
        invariant
            i <= items.len(),
            ids@ == input_ids(items@).take(i as int),
        decreases items.len() - i,
    {
        ids.push(items[i].id);
        i += 1;
        assert(ids@ =~= input_ids(items@).take(i as int));
    }
    assert(ids@ =~= input_ids(items@));
    ids
}

/// Plan one request.
pub fn plan_entry(batch: &BatchInput, estimated_input_tokens: u32, output_limit: u32) -> (entry:
    LlmPlanEntry)
    ensures
        is_entry(*batch, estimated_input_tokens, output_limit, entry),
{
    LlmPlanEntry {
        batch_index: batch.index,
        output_cue_ids: ids_of(&batch.output),
        context_cue_ids: ids_of(&batch.context),
        estimated_input_tokens,
        reserved_output_tokens: output_limit,
        expected_text_revisions: Vec::new(),
        expected_translation_revisions: Vec::new(),
    }
}

/// Two planned requests say the same.
pub open spec fn same_entry(a: LlmPlanEntry, b: LlmPlanEntry) -> bool {
    &&& a.batch_index == b.batch_index
    &&& a.output_cue_ids@ == b.output_cue_ids@
    &&& a.context_cue_ids@ == b.context_cue_ids@
    &&& a.estimated_input_tokens == b.estimated_input_tokens
    &&& a.reserved_output_tokens == b.reserved_output_tokens
    &&& a.expected_text_revisions@ == b.expected_text_revisions@
    &&& a.expected_translation_revisions@ == b.expected_translation_revisions@
}

/// The same requests in the same order.
pub open spec fn same_entries(a: Seq<LlmPlanEntry>, b: Seq<LlmPlanEntry>) -> bool {
    &&& a.len() == b.len()
    &&& forall|i: int| 0 <= i < a.len() ==> same_entry(#[trigger] a[i], b[i])
}

fn copy_revisions(revisions: &Vec<(u32, u64)>) -> (copy: Vec<(u32, u64)>)
    ensures
        copy@ == revisions@,
{
    let mut copy: Vec<(u32, u64)> = Vec::new();
    let mut i: usize = 0;
    while i < revisions.len()
        invariant
            i <= revisions.len(),
            copy@ == revisions@.take(i as int),
        decreases revisions.len() - i,
    {
        copy.push(revisions[i]);
        i += 1;
        assert(copy@ =~= revisions@.take(i as int));
    }
    assert(copy@ =~= revisions@);
    copy
}

/// The planned requests, each copied.
pub fn copy_entries(entries: &Vec<LlmPlanEntry>) -> (copies: Vec<LlmPlanEntry>)
    ensures
        same_entries(copies@, entries@),
{
    let mut copies: Vec<LlmPlanEntry> = Vec::new();
    let mut i: usize = 0;
    while i < entries.len()
        invariant
            i <= entries.len(),
            copies@.len() == i,
            forall|k: int| 0 <= k < i ==> same_entry(#[trigger] copies@[k], entries@[k]),
        decreases entries.len() - i,
    {
        let entry = &entries[i];
        let copy = LlmPlanEntry {
            batch_index: entry.batch_index,
            output_cue_ids: entry.output_cue_ids.clone(),
            context_cue_ids: entry.context_cue_ids.clone(),
            estimated_input_tokens: entry.estimated_input_tokens,
            reserved_output_tokens: entry.reserved_output_tokens,
            expected_text_revisions: copy_revisions(&entry.expected_text_revisions),
            expected_translation_revisions: copy_revisions(&entry.expected_translation_revisions),
        };
        assert(copy.output_cue_ids@ =~= entry.output_cue_ids@);
        assert(copy.context_cue_ids@ =~= entry.context_cue_ids@);
        copies.push(copy);
        i += 1;
    }
    copies
}

/// What the identifier of a plan is made of.
pub open spec fn plan_id_text(stage: LlmStage, prompt_hash: Seq<char>, model: Seq<char>) -> Seq<
    char,
> {
    stage.text() + "|"@ + prompt_hash + "|"@ + model
}

/// The number, or the limit where that is smaller.
pub open spec fn at_most(n: u32, limit: u32) -> u32 {
    if n <= limit {
        n
    } else {
        limit
    }
}

/// `plan` has these requests and limits.
pub open spec fn is_plan(
    request: LlmPipelineRequest,
    context_limit: u32,
    output_limit: u32,
    plan: LlmPlan,
) -> bool {
    &&& plan_frame(request, plan)
    &&& plan.max_context_tokens == Some(context_limit)
    &&& plan.max_output_tokens == Some(output_limit)
    &&& plan.plan_hash@ == plan_identity(plan)
}

/// Complete a plan with its requests, its limits and its identity.
pub fn plan_with(
    request: &LlmPipelineRequest,
    plan_id: &str,
    entries: Vec<LlmPlanEntry>,
    context_limit: u32,
    output_limit: u32,
) -> (plan: LlmPlan)
    ensures
        is_plan(*request, context_limit, output_limit, plan),
        plan.plan_id@ == plan_id@,
        plan.entries@ == entries@,
{
    let mut plan = empty_plan(request);
    plan.plan_id = plan_id.to_owned();
    plan.entries = entries;
    plan.max_context_tokens = Some(context_limit);
    plan.max_output_tokens = Some(output_limit);
    let ghost before = plan;
    let hash = plan_hash(&plan);
    plan.plan_hash = hash;
    proof {
        law_plan_identity_is_its_content(before, plan);
    }
    plan
}

/// Plan the requests of a stage.
pub fn make_plan(
    request: &LlmPipelineRequest,
    batches: &Vec<BatchInput>,
    context_limit: u32,
    output_limit: u32,
) -> (plan: LlmPlan)
    ensures
        is_plan(*request, context_limit, output_limit, plan),
        plan.plan_id@ == "plan-"@ + text_identity(
            plan_id_text(request.stage, request.prompt.content_hash@, request.model@),
        ),
        plan.entries@.len() == batches@.len(),
        forall|i: int|
            0 <= i < batches@.len() ==> is_entry(
                batches@[i],
                at_most(
                    batch_estimate(
                        batches@[i].context@,
                        batches@[i].output@,
                        request.chars_per_token,
                    ),
                    context_limit,
                ),
                output_limit,
                #[trigger] plan.entries@[i],
            ),
{
    let mut entries: Vec<LlmPlanEntry> = Vec::new();
    let mut i: usize = 0;
    while i < batches.len()
        invariant
            i <= batches.len(),
            entries@.len() == i,
            forall|k: int|
                0 <= k < i ==> is_entry(
                    batches@[k],
                    at_most(
                        batch_estimate(
                            batches@[k].context@,
                            batches@[k].output@,
                            request.chars_per_token,
                        ),
                        context_limit,
                    ),
                    output_limit,
                    #[trigger] entries@[k],
                ),
        decreases batches.len() - i,
    {
        let tokens: u32 = estimate_batch_tokens(&batches[i], request.chars_per_token);
        let estimated: u32 = if tokens <= context_limit {
            tokens
        } else {
            context_limit
        };
        entries.push(plan_entry(&batches[i], estimated, output_limit));
        i += 1;
    }
    let mut text = request.stage.as_str().to_owned();
    text.append("|");
    text.append(request.prompt.content_hash.as_str());
    text.append("|");
    text.append(request.model.as_str());
    assert(text@ =~= plan_id_text(request.stage, request.prompt.content_hash@, request.model@));
    let mut plan_id = "plan-".to_owned();
    let hex = text_hash(text.as_str());
    plan_id.append(hex.as_str());
    plan_with(request, plan_id.as_str(), entries, context_limit, output_limit)
}

/// A stored plan is used again: for the same prompt and model, unless the
/// request discards it.
pub open spec fn reusable(request: LlmPipelineRequest, existing: Option<LlmPlan>) -> bool {
    match (request.durable, existing) {
        (Some(durable), Some(plan)) => {
            &&& !durable.invalidate_plan
            &&& plan.prompt_bundle_hash@ == request.prompt.content_hash@
            &&& plan.model@ == request.model@
        },
        _ => false,
    }
}

/// Whether a stored plan is used again, so that nothing is packed anew after a
/// restart.
pub fn is_reusable(request: &LlmPipelineRequest, existing: &Option<LlmPlan>) -> (answer: bool)
    ensures
        answer == reusable(*request, *existing),
{
    match (&request.durable, existing) {
        (Some(durable), Some(plan)) => !durable.invalidate_plan && same_text(
            plan.prompt_bundle_hash.as_str(),
            request.prompt.content_hash.as_str(),
        ) && same_text(plan.model.as_str(), request.model.as_str()),
        _ => false,
    }
}

/// The error of a plan with a cue that the transcript does not have.
pub open spec fn missing_cue(id: u32) -> ApplicationErrorView {
    ApplicationErrorView::Invalid("durable plan references missing cue "@ + decimal(id as nat))
}

/// The first planned cue from `i` on that the transcript does not have.
pub open spec fn first_missing(cues: Seq<Cue>, ids: Seq<u32>, i: int) -> Option<u32>
    decreases ids.len() - i,
{
    if i < 0 || i >= ids.len() {
        None
    } else if cue_position(cues, ids[i], 0) is None {
        Some(ids[i])
    } else {
        first_missing(cues, ids, i + 1)
    }
}

/// The first cue to work on, from the request number `i` on, that the
/// transcript does not have.
pub open spec fn first_missing_output(
    cues: Seq<Cue>,
    entries: Seq<LlmPlanEntry>,
    i: int,
) -> Option<u32>
    decreases entries.len() - i,
{
    if i < 0 || i >= entries.len() {
        None
    } else {
        match first_missing(cues, entries[i].output_cue_ids@, 0) {
            Some(id) => Some(id),
            None => first_missing_output(cues, entries, i + 1),
        }
    }
}

/// The text of a cue as context: its translation, or its text without one.
pub open spec fn context_text(cue: Cue) -> Seq<char> {
    match cue.translation {
        Some(translation) => translation@,
        None => cue.text@,
    }
}

/// The cues of `ids` that the transcript has, as context.
pub open spec fn context_inputs(cues: Seq<Cue>, ids: Seq<u32>) -> Seq<(u32, Seq<char>)>
    decreases ids.len(),
{
    if ids.len() == 0 {
        seq![]
    } else {
        let front = context_inputs(cues, ids.drop_last());
        match cue_position(cues, ids.last(), 0) {
            Some(p) => front.push((ids.last(), context_text(cues[p]))),
            None => front,
        }
    }
}

/// Cues as identifiers with texts.
pub open spec fn input_views(items: Seq<CueInput>) -> Seq<(u32, Seq<char>)> {
    Seq::new(items.len(), |i: int| (items[i].id, items[i].text@))
}

/// `item` is the cue `id` of the transcript as it is worked on.
pub open spec fn is_output(cues: Seq<Cue>, id: u32, item: CueInput) -> bool {
    &&& item.id == id
    &&& cue_position(cues, id, 0) matches Some(p) && item.text@ == cues[p].text@
}

/// `batch` is the request of a plan, with the texts of the transcript.
pub open spec fn is_planned(cues: Seq<Cue>, entry: LlmPlanEntry, batch: BatchInput) -> bool {
    &&& batch.index == entry.batch_index
    &&& batch.output@.len() == entry.output_cue_ids@.len()
    &&& forall|i: int|
        0 <= i < batch.output@.len() ==> is_output(
            cues,
            entry.output_cue_ids@[i],
            #[trigger] batch.output@[i],
        )
    &&& input_views(batch.context@) == context_inputs(cues, entry.context_cue_ids@)
}

fn planned_outputs(cues: &Vec<Cue>, ids: &Vec<u32>) -> (result: Result<Vec<CueInput>, u32>)
    ensures
        match result {
            Ok(items) => {
                &&& first_missing(cues@, ids@, 0) is None
                &&& items@.len() == ids@.len()
                &&& forall|i: int|
                    0 <= i < items@.len() ==> is_output(cues@, ids@[i], #[trigger] items@[i])
            },
            Err(id) => first_missing(cues@, ids@, 0) == Some(id),
        },
{
    let mut items: Vec<CueInput> = Vec::new();
    let mut i: usize = 0;
    while i < ids.len()
        invariant
            i <= ids.len(),
            first_missing(cues@, ids@, 0) == first_missing(cues@, ids@, i as int),
            items@.len() == i,
            forall|k: int| 0 <= k < i ==> is_output(cues@, ids@[k], #[trigger] items@[k]),
        decreases ids.len() - i,
    {
        match cue_index(cues, ids[i]) {
            Some(p) => {
                items.push(CueInput { id: ids[i], text: cues[p].text.clone() });
            },
            None => {
                return Err(ids[i]);
            },
        }
        i += 1;
    }
    Ok(items)
}

fn planned_context(cues: &Vec<Cue>, ids: &Vec<u32>) -> (items: Vec<CueInput>)
    ensures
        input_views(items@) == context_inputs(cues@, ids@),
{
    let mut items: Vec<CueInput> = Vec::new();
    let mut i: usize = 0;
    assert(ids@.take(0) =~= seq![]);
    assert(input_views(items@) =~= seq![]);
    while i < ids.len()
        invariant
            i <= ids.len(),
            input_views(items@) == context_inputs(cues@, ids@.take(i as int)),
        decreases ids.len() - i,
    {
        assert(ids@.take(i + 1).drop_last() =~= ids@.take(i as int));
        if let Some(p) = cue_index(cues, ids[i]) {
            let text = match &cues[p].translation {
                Some(translation) => translation.clone(),
                None => cues[p].text.clone(),
            };
            let ghost before = items@;
            let item = CueInput { id: ids[i], text };
            items.push(item);
            assert(input_views(items@) =~= input_views(before).push((item.id, item.text@)));
        }
        i += 1;
    }
    assert(ids@.take(i as int) =~= ids@);
    items
}

/// The requests of a stored plan, with the texts of the transcript.
pub fn batches_from_plan(plan: &LlmPlan, transcript: &Transcript) -> (result: AppResult<
    Vec<BatchInput>,
>)
    ensures
        match result {
            Ok(batches) => {
                &&& first_missing_output(transcript.cues@, plan.entries@, 0) is None
                &&& batches@.len() == plan.entries@.len()
                &&& forall|i: int|
                    0 <= i < batches@.len() ==> is_planned(
                        transcript.cues@,
                        plan.entries@[i],
                        #[trigger] batches@[i],
                    )
            },
            Err(error) => first_missing_output(transcript.cues@, plan.entries@, 0) matches Some(id)
                && error@ == missing_cue(id),
        },
{
    let mut batches: Vec<BatchInput> = Vec::new();
    let mut i: usize = 0;
    while i < plan.entries.len()
        invariant
            i <= plan.entries.len(),
            first_missing_output(transcript.cues@, plan.entries@, 0) == first_missing_output(
                transcript.cues@,
                plan.entries@,
                i as int,
            ),
            batches@.len() == i,
            forall|k: int|
                0 <= k < i ==> is_planned(
                    transcript.cues@,
                    plan.entries@[k],
                    #[trigger] batches@[k],
                ),
        decreases plan.entries.len() - i,
    {
        let entry = &plan.entries[i];
        let output = match planned_outputs(&transcript.cues, &entry.output_cue_ids) {
            Ok(output) => output,
            Err(id) => {
                let mut text = "durable plan references missing cue ".to_owned();
                push_decimal(&mut text, id as u64);
                assert(text@ =~= "durable plan references missing cue "@ + decimal(id as nat));
                return Err(ApplicationError::invalid(text.as_str()));
            },
        };
        let context = planned_context(&transcript.cues, &entry.context_cue_ids);
        batches.push(BatchInput { index: entry.batch_index, output, context });
        i += 1;
    }
    Ok(batches)
}

proof fn lemma_no_cue_is_missing(cues: Seq<Cue>, ids: Seq<u32>, i: int)
    requires
        0 <= i,
        forall|k: int| 0 <= k < ids.len() ==> cue_position(cues, #[trigger] ids[k], 0) is Some,
    ensures
        first_missing(cues, ids, i) is None,
    decreases ids.len() - i,
{
    if i < ids.len() {
        assert(cue_position(cues, ids[i], 0) is Some);
        lemma_no_cue_is_missing(cues, ids, i + 1);
    }
}

proof fn lemma_no_output_is_missing(cues: Seq<Cue>, entries: Seq<LlmPlanEntry>, i: int)
    requires
        0 <= i,
        forall|e: int, k: int|
            0 <= e < entries.len() && 0 <= k < entries[e].output_cue_ids@.len() ==> cue_position(
                cues,
                #[trigger] entries[e].output_cue_ids@[k],
                0,
            ) is Some,
    ensures
        first_missing_output(cues, entries, i) is None,
    decreases entries.len() - i,
{
    if i < entries.len() {
        let ids = entries[i].output_cue_ids@;
        assert forall|k: int| 0 <= k < ids.len() implies cue_position(cues, #[trigger] ids[k], 0)
            is Some by {
            assert(entries[i].output_cue_ids@[k] == ids[k]);
        }
        lemma_no_cue_is_missing(cues, ids, 0);
        lemma_no_output_is_missing(cues, entries, i + 1);
    }
}

/// A plan can be taken up again after a restart with any transcript that has
/// the planned cues: none of them is missing.
pub proof fn law_plans_survive_restarts(cues: Seq<Cue>, plan: LlmPlan)
    requires
        forall|e: int, k: int|
            0 <= e < plan.entries@.len() && 0 <= k < plan.entries@[e].output_cue_ids@.len()
                ==> cue_position(cues, #[trigger] plan.entries@[e].output_cue_ids@[k], 0) is Some,
    ensures
        first_missing_output(cues, plan.entries@, 0) is None,
{
    lemma_no_output_is_missing(cues, plan.entries@, 0);
}

/// Of what is asked for and what can be had the weaker is used: the prompt alone,
/// then a JSON object, then a schema.
pub proof fn law_the_weaker_mode_is_used(asked: StructuredOutput, available: StructuredOutput)
    ensures
        weaker(asked, StructuredOutput::JsonSchema) == asked,
        weaker(StructuredOutput::JsonSchema, available) == available,
        weaker(asked, StructuredOutput::PromptOnly) == StructuredOutput::PromptOnly,
        weaker(StructuredOutput::PromptOnly, available) == StructuredOutput::PromptOnly,
        weaker(StructuredOutput::JsonObject, StructuredOutput::JsonObject)
            == StructuredOutput::JsonObject,
{
}

/// A plan notes what was asked for: the job, the stage, the transcript, the model
/// and the prompt.
pub proof fn law_plans_note_what_was_asked_for(request: LlmPipelineRequest, plan: LlmPlan)
    requires
        plan_frame(request, plan),
    ensures
        plan.schema_version == 2 && plan.stage == request.stage && plan.model@ == request.model@,
        plan.provider_profile_revision@ == request.provider_profile_revision@,
        plan.prompt_bundle_hash@ == request.prompt.content_hash@ && plan.prompt_artifact_hash@
            == request.prompt.content_hash@,
        match (plan.target_language, request.target_language) {
            (Some(a), Some(b)) => a@ == b@,
            (None, None) => true,
            _ => false,
        },
        request.durable matches Some(durable) ==> {
            &&& plan.job_id matches Some(id) && id@ == durable.job_id@
            &&& plan.transcript_revision == durable.transcript_revision
            &&& match (plan.input_artifact_id, durable.input_artifact_id) {
                (Some(a), Some(b)) => a@ == b@,
                (None, None) => true,
                _ => false,
            }
        },
        request.durable is None ==> plan.job_id is None && plan.input_artifact_id is None
            && plan.transcript_revision == 0,
        plan.effective_capability@ == (match request.structured_output {
            StructuredOutput::JsonSchema => "JsonSchema"@,
            StructuredOutput::JsonObject => "JsonObject"@,
            StructuredOutput::PromptOnly => "PromptOnly"@,
        }),
{
}

/// An entry of a plan names the cues of its request in their order, those that
/// are asked for and those that go along.
pub proof fn law_entries_name_their_cues(
    batch: BatchInput,
    tokens: u32,
    output_limit: u32,
    entry: LlmPlanEntry,
    i: int,
)
    requires
        is_entry(batch, tokens, output_limit, entry),
    ensures
        entry.batch_index == batch.index,
        entry.output_cue_ids@.len() == batch.output@.len(),
        entry.context_cue_ids@.len() == batch.context@.len(),
        0 <= i < batch.output@.len() ==> entry.output_cue_ids@[i] == batch.output@[i].id,
        0 <= i < batch.context@.len() ==> entry.context_cue_ids@[i] == batch.context@[i].id,
        entry.estimated_input_tokens == tokens && entry.reserved_output_tokens == output_limit,
        tokens > output_limit ==> at_most(tokens, output_limit) == output_limit,
        tokens <= output_limit ==> at_most(tokens, output_limit) == tokens,
{
}

/// A stored plan is used again for the same prompt and model, unless it is to be
/// discarded.
pub proof fn law_stored_plans_are_used_again(request: LlmPipelineRequest, plan: LlmPlan)
    ensures
        reusable(request, Some(plan)) <==> {
            &&& request.durable matches Some(durable) && !durable.invalidate_plan
            &&& plan.prompt_bundle_hash@ == request.prompt.content_hash@
            &&& plan.model@ == request.model@
        },
        !reusable(request, None),
{
}

/// A planned request sends the present texts of its cues. What goes along is the
/// translation of a cue, or its source where it has none.
pub proof fn law_planned_requests_send_present_texts(
    cues: Seq<Cue>,
    entry: LlmPlanEntry,
    batch: BatchInput,
    i: int,
    p: int,
)
    requires
        is_planned(cues, entry, batch),
        0 <= i < batch.output@.len(),
        0 <= p < cues.len(),
        cues[p].id == entry.output_cue_ids@[i],
        forall|k: int| 0 <= k < p ==> (#[trigger] cues[k]).id != cues[p].id,
    ensures
        batch.index == entry.batch_index,
        batch.output@.len() == entry.output_cue_ids@.len(),
        batch.output@[i].id == cues[p].id,
        batch.output@[i].text@ == cues[p].text@,
        cues[p].translation matches Some(translation) ==> context_text(cues[p]) == translation@,
        cues[p].translation is None ==> context_text(cues[p]) == cues[p].text@,
{
    assert(is_output(cues, entry.output_cue_ids@[i], batch.output@[i]));
    lemma_first_cue(cues, cues[p].id, p, 0);
}

proof fn lemma_first_cue(cues: Seq<Cue>, id: u32, p: int, from: int)
    requires
        0 <= from <= p < cues.len(),
        cues[p].id == id,
        forall|k: int| 0 <= k < p ==> (#[trigger] cues[k]).id != id,
    ensures
        cue_position(cues, id, from) == Some(p),
    decreases p - from,
{
    if from < p {
        assert(cues[from].id != id);
        lemma_first_cue(cues, id, p, from + 1);
    }
}

/// What goes along with a request is taken cue by cue; cues that are gone are
/// left out.
pub proof fn law_context_is_taken_in_order(cues: Seq<Cue>, ids: Seq<u32>, id: u32)
    ensures
        context_inputs(cues, seq![]) == Seq::<(u32, Seq<char>)>::empty(),
        cue_position(cues, id, 0) matches Some(p) ==> context_inputs(cues, ids.push(id))
            == context_inputs(cues, ids).push((id, context_text(cues[p]))),
        cue_position(cues, id, 0) is None ==> context_inputs(cues, ids.push(id)) == context_inputs(
            cues,
            ids,
        ),
{
    assert(ids.push(id).drop_last() =~= ids);
}

/// A plan that names a cue which is gone cannot be taken up.
pub proof fn law_plans_need_their_cues(cues: Seq<Cue>, ids: Seq<u32>, i: int)
    requires
        0 <= i,
    ensures
        first_missing(cues, ids, i) is None <==> forall|k: int|
            i <= k < ids.len() ==> cue_position(cues, #[trigger] ids[k], 0) is Some,
        first_missing(cues, ids, i) matches Some(id) ==> cue_position(cues, id, 0) is None,
    decreases ids.len() - i,
{
    if i < ids.len() {
        law_plans_need_their_cues(cues, ids, i + 1);
        if cue_position(cues, ids[i], 0) is None {
            assert(ids[i] == ids[i]);
        }
    }
}

/// A plan is named by its stage, its prompt and its model, and holds its limits.
pub proof fn law_plans_hold_their_limits(
    request: LlmPipelineRequest,
    context_limit: u32,
    output_limit: u32,
    plan: LlmPlan,
)
    requires
        is_plan(request, context_limit, output_limit, plan),
    ensures
        plan.max_context_tokens == Some(context_limit) && plan.max_output_tokens == Some(
            output_limit,
        ),
        plan.plan_hash@ == plan_identity(plan),
        plan_id_text(request.stage, request.prompt.content_hash@, request.model@)
            == request.stage.text() + "|"@ + request.prompt.content_hash@ + "|"@ + request.model@,
{
}

} // verus!
