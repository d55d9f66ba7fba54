//! Values of the language-model stages.
use vstd::prelude::*;

use crate::identity::JobId;
use crate::llm::prompt::{content_of, contents, PromptFiles};
use crate::ports::{LlmStage, StructuredOutput};
use crate::subtitle::transcript::Transcript;
use crate::text::{join_with, joined_with};

verus! {

/// The context of a model about which nothing is known, in tokens.
pub const DEFAULT_CONTEXT_TOKENS: u32 = 8_192;

/// What is set aside for the output where nothing is known, in tokens.
pub const DEFAULT_OUTPUT_TOKENS: u32 = 2_048;

/// What the stages are held to.
#[derive(Debug, Clone, Copy, PartialEq, Eq, Structural)]
pub struct LlmPolicy {
    /// Cues per request.
    pub max_items: usize,
    /// Repairs of a reply of the split stage.
    pub split_retries: u32,
    /// Repairs of a reply of the correction or translation stage.
    pub text_retries: u32,
    /// How similar a correction has to be to its source.
    pub similarity_percent: u32,
}

impl LlmPolicy {
    pub open spec fn retries_of(self, stage: LlmStage) -> u32 {
        match stage {
            LlmStage::Split => self.split_retries,
            LlmStage::Correct => self.text_retries,
            LlmStage::Translate => self.text_retries,
        }
    }

    /// How often a reply of a stage is repaired.
    pub fn retries(&self, stage: LlmStage) -> (n: u32)
        ensures
            n == self.retries_of(stage),
    {
        match stage {
            LlmStage::Split => self.split_retries,
            LlmStage::Correct => self.text_retries,
            LlmStage::Translate => self.text_retries,
        }
    }
}

/// The frozen prompt of one stage.
#[derive(Debug, PartialEq, Eq)]
pub struct PromptSnapshot {
    pub schema_version: u32,
    pub stage: LlmStage,
    pub files: PromptFiles,
    pub content_hash: String,
}

impl Clone for PromptSnapshot {
    fn clone(&self) -> (copy: Self)
        ensures
            copy.same_as(*self),
    {
        PromptSnapshot {
            schema_version: self.schema_version,
            stage: self.stage,
            files: self.files.clone(),
            content_hash: self.content_hash.clone(),
        }
    }
}

impl PromptSnapshot {
    /// Both are the same prompt.
    pub open spec fn same_as(self, other: PromptSnapshot) -> bool {
        &&& self.schema_version == other.schema_version
        &&& self.stage == other.stage
        &&& self.files@ == other.files@
        &&& self.content_hash@ == other.content_hash@
    }

    /// The file `system.txt`, or all files one after the other without it.
    pub open spec fn system_text(self) -> Seq<char> {
        match content_of(self.files@, "system.txt"@, 0) {
            Some(content) => content,
            None => joined_with(contents(self.files@), "\n"@),
        }
    }

    pub fn system_prompt(&self) -> (prompt: String)
        ensures
            prompt@ == self.system_text(),
    {
        match self.files.get("system.txt") {
            Some(content) => content,
            None => {
                let values = self.files.values();
                join_with(&values, "\n")
            },
        }
    }
}

/// Where a stage keeps what has to survive a restart.
#[derive(Debug, PartialEq, Eq)]
pub struct LlmDurableContext {
    pub job_id: JobId,
    pub job_dir: String,
    pub input_artifact_id: Option<String>,
    pub transcript_revision: u64,
    /// An existing plan is discarded and made anew.
    pub invalidate_plan: bool,
}

/// What a language-model stage is asked to do.
#[derive(Debug, PartialEq, Eq)]
pub struct LlmPipelineRequest {
    pub stage: LlmStage,
    pub model: String,
    pub provider_profile_revision: String,
    pub prompt: PromptSnapshot,
    pub max_context_tokens: Option<u32>,
    pub max_output_tokens: Option<u32>,
    /// Characters per token, in thousandths.
    pub chars_per_token: i64,
    pub structured_output: StructuredOutput,
    pub seed: Option<i64>,
    pub target_language: Option<String>,
    /// With it, plans, prompts and batch results are kept in the job's directory.
    pub durable: Option<LlmDurableContext>,
}

/// The requests of a stage, decided on before the first of them is sent.
#[derive(Debug, PartialEq, Eq)]
pub struct LlmPlan {
    pub schema_version: u32,
    pub plan_id: String,
    pub job_id: Option<String>,
    pub stage: LlmStage,
    pub input_artifact_id: Option<String>,
    pub transcript_revision: u64,
    pub model: String,
    pub provider_profile_revision: String,
    pub prompt_bundle_hash: String,
    pub prompt_artifact_hash: String,
    pub effective_capability: String,
    pub max_context_tokens: Option<u32>,
    pub max_output_tokens: Option<u32>,
    pub target_language: Option<String>,
    pub entries: Vec<LlmPlanEntry>,
    pub plan_hash: String,
}

/// One request of a plan.
#[derive(Debug, PartialEq, Eq)]
pub struct LlmPlanEntry {
    pub batch_index: u32,
    pub output_cue_ids: Vec<u32>,
    pub context_cue_ids: Vec<u32>,
    pub estimated_input_tokens: u32,
    pub reserved_output_tokens: u32,
    /// Text revisions by cue, in the order of the cues' identifiers.
    pub expected_text_revisions: Vec<(u32, u64)>,
    /// Translation revisions by cue, in the order of the cues' identifiers.
    pub expected_translation_revisions: Vec<(u32, u64)>,
}

/// What a language-model stage yields.
#[derive(Debug, PartialEq, Eq)]
pub struct LlmPipelineResult {
    pub transcript: Transcript,
    pub plan: LlmPlan,
    pub degraded_cue_ids: Vec<u32>,
}

/// A cue that is sent to the model: to be worked on, or as context.
#[derive(Debug, PartialEq, Eq)]
pub struct CueInput {
    pub id: u32,
    pub text: String,
}

impl Clone for CueInput {
    fn clone(&self) -> (copy: Self)
        ensures
            copy == *self,
    {
        CueInput { id: self.id, text: self.text.clone() }
    }
}

/// The cues of one request.
#[derive(Debug, PartialEq, Eq)]
pub struct BatchInput {
    pub index: u32,
    pub output: Vec<CueInput>,
    pub context: Vec<CueInput>,
}

/// The split has repairs of its own; correction and translation share theirs.
pub proof fn law_stages_have_their_repairs(policy: LlmPolicy, stage: LlmStage)
    ensures
        stage == LlmStage::Split ==> policy.retries_of(stage) == policy.split_retries,
        stage == LlmStage::Correct || stage == LlmStage::Translate ==> policy.retries_of(stage)
            == policy.text_retries,
{
}

/// The prompt of a stage is its file for the system, else all its files.
pub proof fn law_system_files_are_the_prompt(prompt: PromptSnapshot)
    ensures
        content_of(prompt.files@, "system.txt"@, 0) matches Some(text) ==> prompt.system_text()
            == text,
        content_of(prompt.files@, "system.txt"@, 0) is None ==> prompt.system_text() == joined_with(
            contents(prompt.files@),
            "\n"@,
        ),
{
}

/// Two prompts are the same where they agree in all parts.
pub proof fn law_same_prompts_agree_in_all_parts(a: PromptSnapshot, b: PromptSnapshot)
    ensures
        a.same_as(b) <==> a.schema_version == b.schema_version && a.stage == b.stage && a.files@
            == b.files@ && a.content_hash@ == b.content_hash@,
        a.same_as(b) ==> a.system_text() == b.system_text(),
        a.same_as(a),
{
}

} // verus!
