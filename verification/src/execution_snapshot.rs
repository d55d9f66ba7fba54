//! What a job was asked to do, frozen when it was created. A retry or a resumed
//! batch goes by this and by nothing else.
use vstd::prelude::*;

use crate::identity::{BatchId, JobId, UlidStr};
use crate::ports::StructuredOutput;
use crate::use_cases::llm_pipeline::types::PromptSnapshot;

verus! {

/// Size and time of a source file.
#[derive(Debug, Clone, Copy, PartialEq, Eq, Structural)]
pub struct SourceStatSnapshot {
    pub size: u64,
    pub modified_at_ms: Option<u64>,
}

/// Which sound track of a media file is used.
#[derive(Debug, Clone, Copy, PartialEq, Eq, Structural)]
pub enum AudioStreamSelection {
    /// The one that suits best.
    Auto,
}

/// The recognizer of a job.
#[derive(Debug, PartialEq, Eq)]
pub struct AsrExecutionSnapshot {
    pub engine: String,
    pub model_locator: String,
    pub model_id: Option<String>,
    pub model_digest: Option<String>,
    pub device: String,
    pub compute_type: String,
}

/// Where and how the subtitles are written.
#[derive(Debug, PartialEq, Eq)]
pub struct OutputPlanSnapshot {
    pub path: String,
    pub format: String,
    pub layout: String,
    pub conflict_policy: String,
    pub fallback_to_source: bool,
}

/// The language-model stages of a job.
#[derive(Debug, PartialEq, Eq)]
pub struct LlmExecutionSnapshot {
    pub provider_profile_revision: String,
    pub model: String,
    pub max_context_tokens: Option<u32>,
    pub max_output_tokens: Option<u32>,
    /// Characters per token, in thousandths.
    pub chars_per_token: i64,
    pub structured_output: StructuredOutput,
    pub seed: Option<i64>,
    pub target_language: String,
    pub split_prompt: PromptSnapshot,
    pub correct_prompt: PromptSnapshot,
    pub translate_prompt: PromptSnapshot,
}

/// Everything a job was asked to do.
#[derive(Debug, PartialEq, Eq)]
pub struct JobExecutionSnapshot {
    pub snapshot_id: UlidStr,
    pub schema_version: u32,
    pub created_at: String,
    pub job_id: JobId,
    pub batch_id: BatchId,
    pub canonical_source_path: String,
    pub source_stat: SourceStatSnapshot,
    pub job_dir: String,
    pub profile_revision: UlidStr,
    pub profile_name: String,
    pub asr: AsrExecutionSnapshot,
    pub audio_stream: AudioStreamSelection,
    pub source_language: Option<String>,
    pub target_language: Option<String>,
    pub output: OutputPlanSnapshot,
    pub cache_max_bytes: u64,
    pub llm: Option<LlmExecutionSnapshot>,
}

} // verus!
