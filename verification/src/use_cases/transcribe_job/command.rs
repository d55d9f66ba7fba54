//! What is needed to run one job.
use vstd::prelude::*;
use vstd::string::*;

use crate::contracts::{option_text, AppResult, ApplicationError, ApplicationErrorView};
use crate::execution_snapshot::{JobExecutionSnapshot, LlmExecutionSnapshot};
use crate::identity::{BatchId, JobId, UlidStr};
use crate::ports::{
    LlmStage, StructuredOutput, SubtitleExportRequest, SubtitleFormat, SubtitleLayout,
};
use crate::use_cases::llm_pipeline::types::{
    LlmDurableContext, LlmPipelineRequest, PromptSnapshot,
};

verus! {

/// How the language-model stages of a job work.
#[derive(Debug, PartialEq, Eq)]
pub struct LlmProcessOptions {
    pub model: String,
    pub provider_profile_revision: String,
    pub split_prompt: PromptSnapshot,
    pub correct_prompt: PromptSnapshot,
    pub translate_prompt: PromptSnapshot,
    pub max_context_tokens: Option<u32>,
    pub max_output_tokens: Option<u32>,
    /// Characters per token, in thousandths.
    pub chars_per_token: i64,
    pub structured_output: StructuredOutput,
    pub seed: Option<i64>,
    pub target_language: String,
}

impl Clone for LlmProcessOptions {
    fn clone(&self) -> (copy: Self)
        ensures
            copy.same_as(*self),
    {
        LlmProcessOptions {
            model: self.model.clone(),
            provider_profile_revision: self.provider_profile_revision.clone(),
            split_prompt: self.split_prompt.clone(),
            correct_prompt: self.correct_prompt.clone(),
            translate_prompt: self.translate_prompt.clone(),
            max_context_tokens: self.max_context_tokens,
            max_output_tokens: self.max_output_tokens,
            chars_per_token: self.chars_per_token,
            structured_output: self.structured_output,
            seed: self.seed,
            target_language: self.target_language.clone(),
        }
    }
}

impl LlmProcessOptions {
    /// Both say the same.
    pub open spec fn same_as(self, other: LlmProcessOptions) -> bool {
        &&& self.model@ == other.model@
        &&& self.provider_profile_revision@ == other.provider_profile_revision@
        &&& self.split_prompt.same_as(other.split_prompt)
        &&& self.correct_prompt.same_as(other.correct_prompt)
        &&& self.translate_prompt.same_as(other.translate_prompt)
        &&& self.max_context_tokens == other.max_context_tokens
        &&& self.max_output_tokens == other.max_output_tokens
        &&& self.chars_per_token == other.chars_per_token
        &&& self.structured_output == other.structured_output
        &&& self.seed == other.seed
        &&& self.target_language@ == other.target_language@
    }

    /// The prompt of a stage.
    pub open spec fn prompt_of(self, stage: LlmStage) -> PromptSnapshot {
        match stage {
            LlmStage::Split => self.split_prompt,
            LlmStage::Correct => self.correct_prompt,
            LlmStage::Translate => self.translate_prompt,
        }
    }

    /// What a stage is asked to do.
    pub fn request(&self, stage: LlmStage, durable: Option<LlmDurableContext>) -> (request:
        LlmPipelineRequest)
        ensures
            request.stage == stage,
            request.model@ == self.model@,
            request.provider_profile_revision@ == self.provider_profile_revision@,
            request.prompt.same_as(self.prompt_of(stage)),
            request.max_context_tokens == self.max_context_tokens,
            request.max_output_tokens == self.max_output_tokens,
            request.chars_per_token == self.chars_per_token,
            request.structured_output == self.structured_output,
            request.seed == self.seed,
            option_text(request.target_language) == Some(self.target_language@),
            request.durable == durable,
    {
        let prompt = match stage {
            LlmStage::Split => self.split_prompt.clone(),
            LlmStage::Correct => self.correct_prompt.clone(),
            LlmStage::Translate => self.translate_prompt.clone(),
        };
        LlmPipelineRequest {
            stage,
            model: self.model.clone(),
            provider_profile_revision: self.provider_profile_revision.clone(),
            prompt,
            max_context_tokens: self.max_context_tokens,
            max_output_tokens: self.max_output_tokens,
            chars_per_token: self.chars_per_token,
            structured_output: self.structured_output,
            seed: self.seed,
            target_language: Some(self.target_language.clone()),
            durable,
        }
    }

    /// The options and the frozen record say the same.
    pub open spec fn frozen_as(self, snapshot: LlmExecutionSnapshot) -> bool {
        &&& self.model@ == snapshot.model@
        &&& self.provider_profile_revision@ == snapshot.provider_profile_revision@
        &&& self.split_prompt.same_as(snapshot.split_prompt)
        &&& self.correct_prompt.same_as(snapshot.correct_prompt)
        &&& self.translate_prompt.same_as(snapshot.translate_prompt)
        &&& self.max_context_tokens == snapshot.max_context_tokens
        &&& self.max_output_tokens == snapshot.max_output_tokens
        &&& self.chars_per_token == snapshot.chars_per_token
        &&& self.structured_output == snapshot.structured_output
        &&& self.seed == snapshot.seed
        &&& self.target_language@ == snapshot.target_language@
    }

    /// Freeze the options.
    pub fn snapshot(&self) -> (snapshot: LlmExecutionSnapshot)
        ensures
            self.frozen_as(snapshot),
    {
        LlmExecutionSnapshot {
            provider_profile_revision: self.provider_profile_revision.clone(),
            model: self.model.clone(),
            max_context_tokens: self.max_context_tokens,
            max_output_tokens: self.max_output_tokens,
            chars_per_token: self.chars_per_token,
            structured_output: self.structured_output,
            seed: self.seed,
            target_language: self.target_language.clone(),
            split_prompt: self.split_prompt.clone(),
            correct_prompt: self.correct_prompt.clone(),
            translate_prompt: self.translate_prompt.clone(),
        }
    }

    /// The options that were frozen.
    pub fn from_snapshot(snapshot: &LlmExecutionSnapshot) -> (options: Self)
        ensures
            options.frozen_as(*snapshot),
    {
        LlmProcessOptions {
            model: snapshot.model.clone(),
            provider_profile_revision: snapshot.provider_profile_revision.clone(),
            split_prompt: snapshot.split_prompt.clone(),
            correct_prompt: snapshot.correct_prompt.clone(),
            translate_prompt: snapshot.translate_prompt.clone(),
            max_context_tokens: snapshot.max_context_tokens,
            max_output_tokens: snapshot.max_output_tokens,
            chars_per_token: snapshot.chars_per_token,
            structured_output: snapshot.structured_output,
            seed: snapshot.seed,
            target_language: snapshot.target_language.clone(),
        }
    }
}

/// What is needed to run one job.
#[derive(Debug, PartialEq, Eq)]
pub struct TranscribeJobCommand {
    pub job_id: JobId,
    pub batch_id: Option<BatchId>,
    pub execution_snapshot_id: UlidStr,
    pub profile_revision: UlidStr,
    pub input: String,
    pub job_dir: String,
    pub language: Option<String>,
    pub export: SubtitleExportRequest,
    pub llm: Option<LlmProcessOptions>,
}

/// The command runs the job that was frozen.
pub open spec fn runs(command: TranscribeJobCommand, snapshot: JobExecutionSnapshot) -> bool {
    &&& command.job_id@ == snapshot.job_id@
    &&& command.batch_id matches Some(id) && id@ == snapshot.batch_id@
    &&& command.execution_snapshot_id@ == snapshot.snapshot_id@
    &&& command.profile_revision@ == snapshot.profile_revision@
    &&& command.input@ == snapshot.canonical_source_path@
    &&& command.job_dir@ == snapshot.job_dir@
    &&& option_text(command.language) == option_text(snapshot.source_language)
    &&& command.export.output_path@ == snapshot.output.path@
    &&& SubtitleFormat::named(snapshot.output.format@) == Some(command.export.format)
    &&& SubtitleLayout::named(snapshot.output.layout@) == Some(command.export.layout)
    &&& command.export.fallback_to_source == snapshot.output.fallback_to_source
    &&& match (command.llm, snapshot.llm) {
        (Some(options), Some(frozen)) => options.frozen_as(frozen),
        (None, None) => true,
        _ => false,
    }
}

/// What is wrong with the output of a frozen job, if anything.
pub open spec fn output_error(snapshot: JobExecutionSnapshot) -> Option<ApplicationErrorView> {
    if SubtitleFormat::named(snapshot.output.format@) is None {
        Some(
            ApplicationErrorView::Invalid(
                "unknown subtitle format in execution snapshot: "@ + snapshot.output.format@,
            ),
        )
    } else if SubtitleLayout::named(snapshot.output.layout@) is None {
        Some(
            ApplicationErrorView::Invalid(
                "unknown subtitle layout in execution snapshot: "@ + snapshot.output.layout@,
            ),
        )
    } else {
        None
    }
}

impl TranscribeJobCommand {
    /// The command that runs a frozen job. Nothing of it comes from the
    /// settings of today.
    pub fn from_snapshot(snapshot: &JobExecutionSnapshot) -> (result: AppResult<Self>)
        ensures
            match result {
                Ok(command) => output_error(*snapshot) is None && runs(command, *snapshot),
                Err(error) => output_error(*snapshot) == Some(error@),
            },
    {
        let format = match SubtitleFormat::parse(snapshot.output.format.as_str()) {
            Some(format) => format,
            None => {
                let mut text = "unknown subtitle format in execution snapshot: ".to_owned();
                text.append(snapshot.output.format.as_str());
                return Err(ApplicationError::invalid(text.as_str()));
            },
        };
        let layout = match SubtitleLayout::parse(snapshot.output.layout.as_str()) {
            Some(layout) => layout,
            None => {
                let mut text = "unknown subtitle layout in execution snapshot: ".to_owned();
                text.append(snapshot.output.layout.as_str());
                return Err(ApplicationError::invalid(text.as_str()));
            },
        };
        let llm = match &snapshot.llm {
            Some(frozen) => Some(LlmProcessOptions::from_snapshot(frozen)),
            None => None,
        };
        Ok(
            TranscribeJobCommand {
                job_id: snapshot.job_id.clone(),
                batch_id: Some(snapshot.batch_id.clone()),
                execution_snapshot_id: snapshot.snapshot_id.clone(),
                profile_revision: snapshot.profile_revision.clone(),
                input: snapshot.canonical_source_path.clone(),
                job_dir: snapshot.job_dir.clone(),
                language: snapshot.source_language.clone(),
                export: SubtitleExportRequest {
                    output_path: snapshot.output.path.clone(),
                    format,
                    layout,
                    fallback_to_source: snapshot.output.fallback_to_source,
                },
                llm,
            },
        )
    }
}

/// A job runs with the settings that were frozen for it.
pub proof fn law_jobs_run_with_their_settings(
    command: TranscribeJobCommand,
    snapshot: JobExecutionSnapshot,
)
    requires
        runs(command, snapshot),
    ensures
        command.job_id@ == snapshot.job_id@,
        command.batch_id matches Some(id) && id@ == snapshot.batch_id@,
        command.execution_snapshot_id@ == snapshot.snapshot_id@,
        command.profile_revision@ == snapshot.profile_revision@,
        command.input@ == snapshot.canonical_source_path@,
        command.job_dir@ == snapshot.job_dir@,
        match (command.language, snapshot.source_language) {
            (Some(a), Some(b)) => a@ == b@,
            (None, None) => true,
            _ => false,
        },
        command.export.output_path@ == snapshot.output.path@,
        command.export.fallback_to_source == snapshot.output.fallback_to_source,
        snapshot.output.format@ == "srt"@ ==> command.export.format == SubtitleFormat::Srt,
        snapshot.output.format@ == "vtt"@ ==> command.export.format == SubtitleFormat::Vtt,
        command.llm is Some <==> snapshot.llm is Some,
        command.llm matches Some(options) ==> options.model@ == snapshot.llm->0.model@
            && options.target_language@ == snapshot.llm->0.target_language@
            && options.max_context_tokens == snapshot.llm->0.max_context_tokens
            && options.max_output_tokens == snapshot.llm->0.max_output_tokens
            && options.chars_per_token == snapshot.llm->0.chars_per_token && options.seed
            == snapshot.llm->0.seed && options.structured_output == snapshot.llm->0.structured_output
            && options.provider_profile_revision@ == snapshot.llm->0.provider_profile_revision@,
{
    reveal_strlit("srt");
    reveal_strlit("vtt");
    assert("srt"@[0] == 's');
    assert("vtt"@[0] == 'v');
}

/// Freezing options and taking them up again gives the same options.
pub proof fn law_frozen_options_are_taken_up_again(
    options: LlmProcessOptions,
    frozen: LlmExecutionSnapshot,
    again: LlmProcessOptions,
)
    requires
        options.frozen_as(frozen),
        again.frozen_as(frozen),
    ensures
        again.model@ == options.model@,
        again.provider_profile_revision@ == options.provider_profile_revision@,
        again.target_language@ == options.target_language@,
        again.max_context_tokens == options.max_context_tokens,
        again.max_output_tokens == options.max_output_tokens,
        again.chars_per_token == options.chars_per_token,
        again.structured_output == options.structured_output,
        again.seed == options.seed,
{
}

/// Each stage is asked with its own prompt.
pub proof fn law_stages_have_their_own_prompts(options: LlmProcessOptions, stage: LlmStage)
    ensures
        stage == LlmStage::Split ==> options.prompt_of(stage) == options.split_prompt,
        stage == LlmStage::Correct ==> options.prompt_of(stage) == options.correct_prompt,
        stage == LlmStage::Translate ==> options.prompt_of(stage) == options.translate_prompt,
{
}

/// Settings are refused where the format or the layout of the output has no known
/// name, and only there.
pub proof fn law_unknown_outputs_are_refused(snapshot: JobExecutionSnapshot)
    ensures
        output_error(snapshot) is None <==> (snapshot.output.format@ == "srt"@
            || snapshot.output.format@ == "vtt"@ || snapshot.output.format@ == "ass"@) && (
        snapshot.output.layout@ == "source_only"@ || snapshot.output.layout@
            == "translation_only"@ || snapshot.output.layout@ == "bilingual_source_first"@
            || snapshot.output.layout@ == "bilingual_translation_first"@),
{
}

} // verus!
