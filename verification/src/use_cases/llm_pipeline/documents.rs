//! Identities of plans, batches and requests: hashes of JSON documents whose
//! members stand in alphabetical order.
use vstd::prelude::*;
use vstd::string::*;

use crate::contracts::option_text;
use crate::hash::{text_hash, text_identity};
use crate::json::{
    array, array_text, json_quoted, literal_or_null, member, number_text, numbers_text, numerals,
    object, object_text, or_null, push_member, quote_option, quoted, quoted_option,
};
use crate::ports::{LlmMessage, LlmRole, LlmStage, StructuredOutput};
use crate::text::{decimal, push_signed, signed_decimal, text_views};

use super::types::{LlmPipelineRequest, LlmPlan, LlmPlanEntry};

verus! {

/// The text between quotation marks, where it needs no escapes.
pub open spec fn in_quotes(text: Seq<char>) -> Seq<char> {
    "\""@ + text + "\""@
}

fn quote_plain(text: &str) -> (literal: String)
    ensures
        literal@ == in_quotes(text@),
{
    let mut literal = "\"".to_owned();
    literal.append(text);
    literal.append("\"");
    literal
}

/// The hash of a document, marked as such.
pub open spec fn marked_hash(document: Seq<char>) -> Seq<char> {
    "blake3:"@ + text_identity(document)
}

fn mark_hash(document: &str) -> (hash: String)
    ensures
        hash@ == marked_hash(document@),
{
    let mut hash = "blake3:".to_owned();
    let hex = text_hash(document);
    hash.append(hex.as_str());
    hash
}

/// One request of a plan, as it counts for the identity of the plan.
pub open spec fn entry_text(entry: LlmPlanEntry) -> Seq<char> {
    object(
        seq![
            member("batch_index"@, decimal(entry.batch_index as nat)),
            member("context_cue_ids"@, array(numerals(entry.context_cue_ids@))),
            member("output_cue_ids"@, array(numerals(entry.output_cue_ids@))),
        ],
    )
}

fn entry_document(entry: &LlmPlanEntry) -> (text: String)
    ensures
        text@ == entry_text(*entry),
{
    let mut members: Vec<String> = Vec::new();
    assert(text_views(members@) =~= seq![]);
    push_member(&mut members, "batch_index", number_text(entry.batch_index as u64).as_str());
    push_member(&mut members, "context_cue_ids", numbers_text(&entry.context_cue_ids).as_str());
    push_member(&mut members, "output_cue_ids", numbers_text(&entry.output_cue_ids).as_str());
    assert(text_views(members@) =~= seq![
        member("batch_index"@, decimal(entry.batch_index as nat)),
        member("context_cue_ids"@, array(numerals(entry.context_cue_ids@))),
        member("output_cue_ids"@, array(numerals(entry.output_cue_ids@))),
    ]);
    object_text(&members)
}

pub open spec fn entry_texts(entries: Seq<LlmPlanEntry>) -> Seq<Seq<char>> {
    Seq::new(entries.len(), |i: int| entry_text(entries[i]))
}

fn entries_document(entries: &Vec<LlmPlanEntry>) -> (text: String)
    ensures
        text@ == array(entry_texts(entries@)),
{
    let mut values: Vec<String> = Vec::new();
    let mut i: usize = 0;
    while i < entries.len()
        invariant
            i <= entries.len(),
            text_views(values@) == entry_texts(entries@).take(i as int),
        decreases entries.len() - i,
    {
        let ghost before = values@;
        values.push(entry_document(&entries[i]));
        i += 1;
        assert(text_views(values@) =~= text_views(before).push(entry_text(entries@[i - 1])));
        assert(text_views(values@) =~= entry_texts(entries@).take(i as int));
    }
    assert(text_views(values@) =~= entry_texts(entries@));
    array_text(&values)
}

/// The texts of a plan as JSON string literals.
#[derive(Debug)]
pub struct PlanLiterals {
    pub input_artifact_id: Option<String>,
    pub model: String,
    pub prompt_artifact_hash: String,
    pub prompt_bundle_hash: String,
    pub provider_profile_revision: String,
    pub target_language: Option<String>,
}

/// The literals as character sequences.
pub struct PlanLiteralsView {
    pub input_artifact_id: Option<Seq<char>>,
    pub model: Seq<char>,
    pub prompt_artifact_hash: Seq<char>,
    pub prompt_bundle_hash: Seq<char>,
    pub provider_profile_revision: Seq<char>,
    pub target_language: Option<Seq<char>>,
}

impl View for PlanLiterals {
    type V = PlanLiteralsView;

    open spec fn view(&self) -> PlanLiteralsView {
        PlanLiteralsView {
            input_artifact_id: option_text(self.input_artifact_id),
            model: self.model@,
            prompt_artifact_hash: self.prompt_artifact_hash@,
            prompt_bundle_hash: self.prompt_bundle_hash@,
            provider_profile_revision: self.provider_profile_revision@,
            target_language: option_text(self.target_language),
        }
    }
}

/// The document by which a plan is identified.
pub open spec fn plan_text(
    stage: LlmStage,
    transcript_revision: u64,
    entries: Seq<LlmPlanEntry>,
    literals: PlanLiteralsView,
) -> Seq<char> {
    object(
        seq![
            member("entries"@, array(entry_texts(entries))),
            member("input_artifact_id"@, literal_or_null(literals.input_artifact_id)),
            member("model"@, literals.model),
            member("prompt_artifact_hash"@, literals.prompt_artifact_hash),
            member("prompt_bundle_hash"@, literals.prompt_bundle_hash),
            member("provider_profile_revision"@, literals.provider_profile_revision),
            member("stage"@, in_quotes(stage.text())),
            member("target_language"@, literal_or_null(literals.target_language)),
            member("transcript_revision"@, decimal(transcript_revision as nat)),
        ],
    )
}

/// Put the document together by which a plan is identified.
pub fn plan_document(
    stage: LlmStage,
    transcript_revision: u64,
    entries: &Vec<LlmPlanEntry>,
    literals: &PlanLiterals,
) -> (text: String)
    ensures
        text@ == plan_text(stage, transcript_revision, entries@, literals@),
{
    let mut members: Vec<String> = Vec::new();
    assert(text_views(members@) =~= seq![]);
    push_member(&mut members, "entries", entries_document(entries).as_str());
    push_member(&mut members, "input_artifact_id", or_null(&literals.input_artifact_id).as_str());
    push_member(&mut members, "model", literals.model.as_str());
    push_member(&mut members, "prompt_artifact_hash", literals.prompt_artifact_hash.as_str());
    push_member(&mut members, "prompt_bundle_hash", literals.prompt_bundle_hash.as_str());
    push_member(
        &mut members,
        "provider_profile_revision",
        literals.provider_profile_revision.as_str(),
    );
    push_member(&mut members, "stage", quote_plain(stage.as_str()).as_str());
    push_member(&mut members, "target_language", or_null(&literals.target_language).as_str());
    push_member(&mut members, "transcript_revision", number_text(transcript_revision).as_str());
    assert(text_views(members@) =~= seq![
        member("entries"@, array(entry_texts(entries@))),
        member("input_artifact_id"@, literal_or_null(option_text(literals.input_artifact_id))),
        member("model"@, literals.model@),
        member("prompt_artifact_hash"@, literals.prompt_artifact_hash@),
        member("prompt_bundle_hash"@, literals.prompt_bundle_hash@),
        member("provider_profile_revision"@, literals.provider_profile_revision@),
        member("stage"@, in_quotes(stage.text())),
        member("target_language"@, literal_or_null(option_text(literals.target_language))),
        member("transcript_revision"@, decimal(transcript_revision as nat)),
    ]);
    object_text(&members)
}

/// The identity of a plan: its stage, its model and prompt, what it works on
/// and how the work is cut into requests.
pub open spec fn plan_identity(plan: LlmPlan) -> Seq<char> {
    marked_hash(
        plan_text(plan.stage, plan.transcript_revision, plan.entries@, plan_literals(plan)),
    )
}

/// The texts of a plan as literals.
pub open spec fn plan_literals(plan: LlmPlan) -> PlanLiteralsView {
    PlanLiteralsView {
        input_artifact_id: quoted_option(option_text(plan.input_artifact_id)),
        model: json_quoted(plan.model@),
        prompt_artifact_hash: json_quoted(plan.prompt_artifact_hash@),
        prompt_bundle_hash: json_quoted(plan.prompt_bundle_hash@),
        provider_profile_revision: json_quoted(plan.provider_profile_revision@),
        target_language: quoted_option(option_text(plan.target_language)),
    }
}

fn quote_plan(plan: &LlmPlan) -> (literals: PlanLiterals)
    ensures
        literals@ == plan_literals(*plan),
{
    PlanLiterals {
        input_artifact_id: quote_option(&plan.input_artifact_id),
        model: quoted(plan.model.as_str()),
        prompt_artifact_hash: quoted(plan.prompt_artifact_hash.as_str()),
        prompt_bundle_hash: quoted(plan.prompt_bundle_hash.as_str()),
        provider_profile_revision: quoted(plan.provider_profile_revision.as_str()),
        target_language: quote_option(&plan.target_language),
    }
}

/// The identity of a plan.
pub fn plan_hash(plan: &LlmPlan) -> (hash: String)
    ensures
        hash@ == plan_identity(*plan),
{
    let literals = quote_plan(plan);
    let text = plan_document(plan.stage, plan.transcript_revision, &plan.entries, &literals);
    mark_hash(text.as_str())
}

/// Pairs of a cue and its revision.
pub open spec fn revision_texts(revisions: Seq<(u32, u64)>) -> Seq<Seq<char>> {
    Seq::new(
        revisions.len(),
        |i: int| array(seq![decimal(revisions[i].0 as nat), decimal(revisions[i].1 as nat)]),
    )
}

fn revisions_document(revisions: &Vec<(u32, u64)>) -> (text: String)
    ensures
        text@ == array(revision_texts(revisions@)),
{
    let mut values: Vec<String> = Vec::new();
    let mut i: usize = 0;
    while i < revisions.len()
        invariant
            i <= revisions.len(),
            text_views(values@) == revision_texts(revisions@).take(i as int),
        decreases revisions.len() - i,
    {
        let ghost before = values@;
        let mut pair: Vec<String> = Vec::new();
        pair.push(number_text(revisions[i].0 as u64));
        pair.push(number_text(revisions[i].1));
        assert(text_views(pair@) =~= seq![
            decimal(revisions@[i as int].0 as nat),
            decimal(revisions@[i as int].1 as nat),
        ]);
        values.push(array_text(&pair));
        i += 1;
        assert(text_views(values@) =~= text_views(before).push(revision_texts(revisions@)[i - 1]));
        assert(text_views(values@) =~= revision_texts(revisions@).take(i as int));
    }
    assert(text_views(values@) =~= revision_texts(revisions@));
    array_text(&values)
}

/// The texts of a request of a plan as JSON string literals.
#[derive(Debug)]
pub struct BatchLiterals {
    pub model: String,
    pub plan_hash: String,
    pub prompt: String,
    pub provider: String,
}

/// The literals as character sequences.
pub struct BatchLiteralsView {
    pub model: Seq<char>,
    pub plan_hash: Seq<char>,
    pub prompt: Seq<char>,
    pub provider: Seq<char>,
}

impl View for BatchLiterals {
    type V = BatchLiteralsView;

    open spec fn view(&self) -> BatchLiteralsView {
        BatchLiteralsView {
            model: self.model@,
            plan_hash: self.plan_hash@,
            prompt: self.prompt@,
            provider: self.provider@,
        }
    }
}

/// The document by which the work on one request of a plan is identified.
pub open spec fn batch_text(
    entry: LlmPlanEntry,
    revisions: Seq<(u32, u64)>,
    transcript_revision: u64,
    literals: BatchLiteralsView,
) -> Seq<char> {
    object(
        seq![
            member("batch_index"@, decimal(entry.batch_index as nat)),
            member("context_cue_ids"@, array(numerals(entry.context_cue_ids@))),
            member("cue_revisions"@, array(revision_texts(revisions))),
            member("model"@, literals.model),
            member("output_cue_ids"@, array(numerals(entry.output_cue_ids@))),
            member("plan_hash"@, literals.plan_hash),
            member("prompt"@, literals.prompt),
            member("provider"@, literals.provider),
            member("transcript_revision"@, decimal(transcript_revision as nat)),
        ],
    )
}

/// Put the document together by which the work on a request is identified.
pub fn batch_document(
    entry: &LlmPlanEntry,
    revisions: &Vec<(u32, u64)>,
    transcript_revision: u64,
    literals: &BatchLiterals,
) -> (text: String)
    ensures
        text@ == batch_text(*entry, revisions@, transcript_revision, literals@),
{
    let mut members: Vec<String> = Vec::new();
    assert(text_views(members@) =~= seq![]);
    push_member(&mut members, "batch_index", number_text(entry.batch_index as u64).as_str());
    push_member(&mut members, "context_cue_ids", numbers_text(&entry.context_cue_ids).as_str());
    push_member(&mut members, "cue_revisions", revisions_document(revisions).as_str());
    push_member(&mut members, "model", literals.model.as_str());
    push_member(&mut members, "output_cue_ids", numbers_text(&entry.output_cue_ids).as_str());
    push_member(&mut members, "plan_hash", literals.plan_hash.as_str());
    push_member(&mut members, "prompt", literals.prompt.as_str());
    push_member(&mut members, "provider", literals.provider.as_str());
    push_member(&mut members, "transcript_revision", number_text(transcript_revision).as_str());
    assert(text_views(members@) =~= seq![
        member("batch_index"@, decimal(entry.batch_index as nat)),
        member("context_cue_ids"@, array(numerals(entry.context_cue_ids@))),
        member("cue_revisions"@, array(revision_texts(revisions@))),
        member("model"@, literals.model@),
        member("output_cue_ids"@, array(numerals(entry.output_cue_ids@))),
        member("plan_hash"@, literals.plan_hash@),
        member("prompt"@, literals.prompt@),
        member("provider"@, literals.provider@),
        member("transcript_revision"@, decimal(transcript_revision as nat)),
    ]);
    object_text(&members)
}

/// The texts of a plan as literals.
pub open spec fn batch_literals(plan: LlmPlan) -> BatchLiteralsView {
    BatchLiteralsView {
        model: json_quoted(plan.model@),
        plan_hash: json_quoted(plan.plan_hash@),
        prompt: json_quoted(plan.prompt_bundle_hash@),
        provider: json_quoted(plan.provider_profile_revision@),
    }
}

/// The identity of the work on one request of a plan, given the revisions of
/// the cues.
pub open spec fn work_identity(
    plan: LlmPlan,
    entry: LlmPlanEntry,
    revisions: Seq<(u32, u64)>,
) -> Seq<char> {
    marked_hash(batch_text(entry, revisions, plan.transcript_revision, batch_literals(plan)))
}

fn quote_batch(plan: &LlmPlan) -> (literals: BatchLiterals)
    ensures
        literals@ == batch_literals(*plan),
{
    BatchLiterals {
        model: quoted(plan.model.as_str()),
        plan_hash: quoted(plan.plan_hash.as_str()),
        prompt: quoted(plan.prompt_bundle_hash.as_str()),
        provider: quoted(plan.provider_profile_revision.as_str()),
    }
}

/// The identity of the work on one request of a plan.
pub fn work_unit_input_hash(
    plan: &LlmPlan,
    entry: &LlmPlanEntry,
    cue_revisions: &Vec<(u32, u64)>,
) -> (hash: String)
    ensures
        hash@ == work_identity(*plan, *entry, cue_revisions@),
{
    let literals = quote_batch(plan);
    let text = batch_document(entry, cue_revisions, plan.transcript_revision, &literals);
    mark_hash(text.as_str())
}

pub open spec fn role_text(role: LlmRole) -> Seq<char> {
    match role {
        LlmRole::System => "system"@,
        LlmRole::User => "user"@,
        LlmRole::Assistant => "assistant"@,
    }
}

/// A message, given the literal of its content.
pub open spec fn message_text(role: LlmRole, content: Seq<char>) -> Seq<char> {
    object(seq![member("content"@, content), member("role"@, in_quotes(role_text(role)))])
}

pub fn message_document(role: LlmRole, content_literal: &str) -> (text: String)
    ensures
        text@ == message_text(role, content_literal@),
{
    let name = match role {
        LlmRole::System => "system",
        LlmRole::User => "user",
        LlmRole::Assistant => "assistant",
    };
    let mut members: Vec<String> = Vec::new();
    assert(text_views(members@) =~= seq![]);
    push_member(&mut members, "content", content_literal);
    push_member(&mut members, "role", quote_plain(name).as_str());
    assert(text_views(members@) =~= seq![
        member("content"@, content_literal@),
        member("role"@, in_quotes(role_text(role))),
    ]);
    object_text(&members)
}

pub open spec fn message_texts(messages: Seq<LlmMessage>) -> Seq<Seq<char>> {
    Seq::new(
        messages.len(),
        |i: int| message_text(messages[i].role, json_quoted(messages[i].content@)),
    )
}

pub open spec fn output_text(output: StructuredOutput) -> Seq<char> {
    match output {
        StructuredOutput::JsonSchema => "json_schema"@,
        StructuredOutput::JsonObject => "json_object"@,
        StructuredOutput::PromptOnly => "prompt_only"@,
    }
}

/// The texts of a request as JSON values.
#[derive(Debug)]
pub struct RequestLiterals {
    pub messages: Vec<String>,
    pub model: String,
    pub prompt_bundle_hash: String,
    pub provider_profile_revision: String,
}

/// The literals as character sequences.
pub struct RequestLiteralsView {
    pub messages: Seq<Seq<char>>,
    pub model: Seq<char>,
    pub prompt_bundle_hash: Seq<char>,
    pub provider_profile_revision: Seq<char>,
}

impl View for RequestLiterals {
    type V = RequestLiteralsView;

    open spec fn view(&self) -> RequestLiteralsView {
        RequestLiteralsView {
            messages: text_views(self.messages@),
            model: self.model@,
            prompt_bundle_hash: self.prompt_bundle_hash@,
            provider_profile_revision: self.provider_profile_revision@,
        }
    }
}

/// The document by which a request to the model is identified.
pub open spec fn request_text(
    stage: LlmStage,
    structured_output: StructuredOutput,
    seed: Option<i64>,
    literals: RequestLiteralsView,
) -> Seq<char> {
    object(
        seq![
            member("messages"@, array(literals.messages)),
            member("model"@, literals.model),
            member("prompt_bundle_hash"@, literals.prompt_bundle_hash),
            member("provider_profile_revision"@, literals.provider_profile_revision),
            member(
                "seed"@,
                match seed {
                    Some(seed) => signed_decimal(seed as int),
                    None => "null"@,
                },
            ),
            member("stage"@, in_quotes(stage.text())),
            member("structured_output"@, in_quotes(output_text(structured_output))),
        ],
    )
}

/// Put the document together by which a request to the model is identified.
pub fn request_document(
    stage: LlmStage,
    structured_output: StructuredOutput,
    seed: Option<i64>,
    literals: &RequestLiterals,
) -> (text: String)
    ensures
        text@ == request_text(stage, structured_output, seed, literals@),
{
    let mut seed_text = String::new();
    match seed {
        Some(seed) => {
            push_signed(&mut seed_text, seed);
            assert(seed_text@ =~= signed_decimal(seed as int));
        },
        None => {
            seed_text.append("null");
            assert(seed_text@ =~= "null"@);
        },
    }
    let output = match structured_output {
        StructuredOutput::JsonSchema => "json_schema",
        StructuredOutput::JsonObject => "json_object",
        StructuredOutput::PromptOnly => "prompt_only",
    };
    let mut members: Vec<String> = Vec::new();
    assert(text_views(members@) =~= seq![]);
    push_member(&mut members, "messages", array_text(&literals.messages).as_str());
    push_member(&mut members, "model", literals.model.as_str());
    push_member(&mut members, "prompt_bundle_hash", literals.prompt_bundle_hash.as_str());
    push_member(
        &mut members,
        "provider_profile_revision",
        literals.provider_profile_revision.as_str(),
    );
    push_member(&mut members, "seed", seed_text.as_str());
    push_member(&mut members, "stage", quote_plain(stage.as_str()).as_str());
    push_member(&mut members, "structured_output", quote_plain(output).as_str());
    assert(text_views(members@) =~= seq![
        member("messages"@, array(text_views(literals.messages@))),
        member("model"@, literals.model@),
        member("prompt_bundle_hash"@, literals.prompt_bundle_hash@),
        member("provider_profile_revision"@, literals.provider_profile_revision@),
        member(
            "seed"@,
            match seed {
                Some(seed) => signed_decimal(seed as int),
                None => "null"@,
            },
        ),
        member("stage"@, in_quotes(stage.text())),
        member("structured_output"@, in_quotes(output_text(structured_output))),
    ]);
    object_text(&members)
}

/// The texts of a request as literals.
pub open spec fn request_literals(
    request: LlmPipelineRequest,
    messages: Seq<LlmMessage>,
) -> RequestLiteralsView {
    RequestLiteralsView {
        messages: message_texts(messages),
        model: json_quoted(request.model@),
        prompt_bundle_hash: json_quoted(request.prompt.content_hash@),
        provider_profile_revision: json_quoted(request.provider_profile_revision@),
    }
}

/// The identity of a request to the model.
pub open spec fn request_identity(
    request: LlmPipelineRequest,
    messages: Seq<LlmMessage>,
) -> Seq<char> {
    text_identity(
        request_text(
            request.stage,
            request.structured_output,
            request.seed,
            request_literals(request, messages),
        ),
    )
}

fn quote_request(request: &LlmPipelineRequest, messages: &Vec<LlmMessage>) -> (literals:
    RequestLiterals)
    ensures
        literals@ == request_literals(*request, messages@),
{
    let mut values: Vec<String> = Vec::new();
    let mut i: usize = 0;
    while i < messages.len()
        invariant
            i <= messages.len(),
            text_views(values@) == message_texts(messages@).take(i as int),
        decreases messages.len() - i,
    {
        let ghost before = values@;
        let content = quoted(messages[i].content.as_str());
        values.push(message_document(messages[i].role, content.as_str()));
        i += 1;
        assert(text_views(values@) =~= text_views(before).push(message_texts(messages@)[i - 1]));
        assert(text_views(values@) =~= message_texts(messages@).take(i as int));
    }
    assert(text_views(values@) =~= message_texts(messages@));
    RequestLiterals {
        messages: values,
        model: quoted(request.model.as_str()),
        prompt_bundle_hash: quoted(request.prompt.content_hash.as_str()),
        provider_profile_revision: quoted(request.provider_profile_revision.as_str()),
    }
}

/// The identity of a request to the model.
pub fn hash_request(request: &LlmPipelineRequest, messages: &Vec<LlmMessage>) -> (hash: String)
    ensures
        hash@ == request_identity(*request, messages@),
        hash@.len() == 64,
{
    let literals = quote_request(request, messages);
    let text = request_document(
        request.stage,
        request.structured_output,
        request.seed,
        &literals,
    );
    text_hash(text.as_str())
}

/// Two plans that differ only in bookkeeping have the same identity: it does
/// not depend on the plan's own identifier, its job or its token limits.
pub proof fn law_plan_identity_is_its_content(a: LlmPlan, b: LlmPlan)
    requires
        a.stage == b.stage,
        a.transcript_revision == b.transcript_revision,
        entry_texts(a.entries@) == entry_texts(b.entries@),
        option_text(a.input_artifact_id) == option_text(b.input_artifact_id),
        a.model@ == b.model@,
        a.prompt_artifact_hash@ == b.prompt_artifact_hash@,
        a.prompt_bundle_hash@ == b.prompt_bundle_hash@,
        a.provider_profile_revision@ == b.provider_profile_revision@,
        option_text(a.target_language) == option_text(b.target_language),
    ensures
        plan_identity(a) == plan_identity(b),
{
}

/// The identity of a plan covers the stage, the model, the prompt, the revision
/// of the transcript, the languages and the cues of every request.
pub proof fn law_plans_are_known_by_their_content(plan: LlmPlan, i: int)
    ensures
        plan_identity(plan) == "blake3:"@ + text_identity(
            object(
                seq![
                    member("entries"@, array(entry_texts(plan.entries@))),
                    member(
                        "input_artifact_id"@,
                        literal_or_null(quoted_option(option_text(plan.input_artifact_id))),
                    ),
                    member("model"@, json_quoted(plan.model@)),
                    member("prompt_artifact_hash"@, json_quoted(plan.prompt_artifact_hash@)),
                    member("prompt_bundle_hash"@, json_quoted(plan.prompt_bundle_hash@)),
                    member(
                        "provider_profile_revision"@,
                        json_quoted(plan.provider_profile_revision@),
                    ),
                    member("stage"@, "\""@ + plan.stage.text() + "\""@),
                    member(
                        "target_language"@,
                        literal_or_null(quoted_option(option_text(plan.target_language))),
                    ),
                    member("transcript_revision"@, decimal(plan.transcript_revision as nat)),
                ],
            ),
        ),
        entry_texts(plan.entries@).len() == plan.entries@.len(),
        0 <= i < plan.entries@.len() ==> entry_texts(plan.entries@)[i] == object(
            seq![
                member("batch_index"@, decimal(plan.entries@[i].batch_index as nat)),
                member("context_cue_ids"@, array(numerals(plan.entries@[i].context_cue_ids@))),
                member("output_cue_ids"@, array(numerals(plan.entries@[i].output_cue_ids@))),
            ],
        ),
{
}

/// The identity of a unit of work covers its plan, its cues and their revisions.
pub proof fn law_units_are_known_by_their_input(
    plan: LlmPlan,
    entry: LlmPlanEntry,
    revisions: Seq<(u32, u64)>,
    i: int,
)
    ensures
        work_identity(plan, entry, revisions) == "blake3:"@ + text_identity(
            object(
                seq![
                    member("batch_index"@, decimal(entry.batch_index as nat)),
                    member("context_cue_ids"@, array(numerals(entry.context_cue_ids@))),
                    member("cue_revisions"@, array(revision_texts(revisions))),
                    member("model"@, json_quoted(plan.model@)),
                    member("output_cue_ids"@, array(numerals(entry.output_cue_ids@))),
                    member("plan_hash"@, json_quoted(plan.plan_hash@)),
                    member("prompt"@, json_quoted(plan.prompt_bundle_hash@)),
                    member("provider"@, json_quoted(plan.provider_profile_revision@)),
                    member("transcript_revision"@, decimal(plan.transcript_revision as nat)),
                ],
            ),
        ),
        revision_texts(revisions).len() == revisions.len(),
        0 <= i < revisions.len() ==> revision_texts(revisions)[i] == array(
            seq![decimal(revisions[i].0 as nat), decimal(revisions[i].1 as nat)],
        ),
{
}

/// The identity of a request covers its messages, its model and all that shapes
/// the reply.
pub proof fn law_requests_are_known_by_their_messages(
    request: LlmPipelineRequest,
    messages: Seq<LlmMessage>,
    i: int,
)
    ensures
        request_identity(request, messages) == text_identity(
            object(
                seq![
                    member("messages"@, array(message_texts(messages))),
                    member("model"@, json_quoted(request.model@)),
                    member("prompt_bundle_hash"@, json_quoted(request.prompt.content_hash@)),
                    member(
                        "provider_profile_revision"@,
                        json_quoted(request.provider_profile_revision@),
                    ),
                    member(
                        "seed"@,
                        match request.seed {
                            Some(seed) => signed_decimal(seed as int),
                            None => "null"@,
                        },
                    ),
                    member("stage"@, "\""@ + request.stage.text() + "\""@),
                    member(
                        "structured_output"@,
                        "\""@ + (match request.structured_output {
                            StructuredOutput::JsonSchema => "json_schema"@,
                            StructuredOutput::JsonObject => "json_object"@,
                            StructuredOutput::PromptOnly => "prompt_only"@,
                        }) + "\""@,
                    ),
                ],
            ),
        ),
        message_texts(messages).len() == messages.len(),
        0 <= i < messages.len() && messages[i].role is System ==> message_texts(messages)[i] == object(
            seq![
                member("content"@, json_quoted(messages[i].content@)),
                member("role"@, "\""@ + "system"@ + "\""@),
            ],
        ),
        0 <= i < messages.len() && messages[i].role is User ==> message_texts(messages)[i] == object(
            seq![
                member("content"@, json_quoted(messages[i].content@)),
                member("role"@, "\""@ + "user"@ + "\""@),
            ],
        ),
        0 <= i < messages.len() && messages[i].role is Assistant ==> message_texts(messages)[i] == object(
            seq![
                member("content"@, json_quoted(messages[i].content@)),
                member("role"@, "\""@ + "assistant"@ + "\""@),
            ],
        ),
{
}

} // verus!
