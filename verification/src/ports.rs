//! Plain values that pass between the application and its adapters.
use vstd::prelude::*;
use vstd::string::*;

use crate::text::same_text;
use crate::workflow::stage::StageKind;

verus! {

#[derive(Debug, Clone, Copy, PartialEq, Eq, Structural)]
pub enum LlmRole {
    System,
    User,
    Assistant,
}

#[derive(Debug, PartialEq, Eq)]
pub struct LlmMessage {
    pub role: LlmRole,
    pub content: String,
}

/// How structured output is asked for, from the strongest form to the weakest.
#[derive(Debug, Clone, Copy, PartialEq, Eq, Structural)]
pub enum StructuredOutput {
    JsonSchema,
    JsonObject,
    PromptOnly,
}

/// The stages that a language model works on.
#[derive(Debug, Clone, Copy, PartialEq, Eq, Structural)]
pub enum LlmStage {
    Split,
    Correct,
    Translate,
}

impl LlmStage {
    pub open spec fn text(self) -> Seq<char> {
        match self {
            LlmStage::Split => "split"@,
            LlmStage::Correct => "correct"@,
            LlmStage::Translate => "translate"@,
        }
    }

    pub fn as_str(self) -> (name: &'static str)
        ensures
            name@ == self.text(),
    {
        match self {
            LlmStage::Split => "split",
            LlmStage::Correct => "correct",
            LlmStage::Translate => "translate",
        }
    }

    /// The stage of a job that this stage works for.
    pub open spec fn kind(self) -> StageKind {
        match self {
            LlmStage::Split => StageKind::Split,
            LlmStage::Correct => StageKind::Correct,
            LlmStage::Translate => StageKind::Translate,
        }
    }

    pub fn stage_kind(self) -> (kind: StageKind)
        ensures
            kind == self.kind(),
    {
        match self {
            LlmStage::Split => StageKind::Split,
            LlmStage::Correct => StageKind::Correct,
            LlmStage::Translate => StageKind::Translate,
        }
    }
}

#[derive(Debug, PartialEq, Eq)]
pub struct LlmRequest {
    pub model: String,
    pub messages: Vec<LlmMessage>,
    /// The numeral of the sampling temperature.
    pub temperature: Option<String>,
    pub max_output_tokens: Option<u32>,
    pub seed: Option<i64>,
    pub structured_output: StructuredOutput,
    /// The JSON Schema of the reply, as JSON text.
    pub schema: Option<String>,
}

#[derive(Debug, PartialEq, Eq)]
pub struct LlmResponse {
    pub content: String,
    pub prompt_tokens: Option<u64>,
    pub completion_tokens: Option<u64>,
}

/// What the gateway can do.
#[derive(Debug, Clone, Copy, PartialEq, Eq)]
pub struct LlmCapabilities {
    pub structured_output: StructuredOutput,
    pub returns_usage: bool,
    pub supports_seed: bool,
    pub supports_model_list: bool,
    pub max_context_tokens: Option<u32>,
    pub max_output_tokens: Option<u32>,
}

#[derive(Debug, Clone, Copy, PartialEq, Eq, Structural)]
pub enum SubtitleFormat {
    Srt,
    Vtt,
    Ass,
}

impl SubtitleFormat {
    /// The name of the format in stored records.
    pub open spec fn text(self) -> Seq<char> {
        match self {
            SubtitleFormat::Srt => "srt"@,
            SubtitleFormat::Vtt => "vtt"@,
            SubtitleFormat::Ass => "ass"@,
        }
    }

    pub fn as_str(self) -> (name: &'static str)
        ensures
            name@ == self.text(),
    {
        match self {
            SubtitleFormat::Srt => "srt",
            SubtitleFormat::Vtt => "vtt",
            SubtitleFormat::Ass => "ass",
        }
    }

    /// The format that `name` names.
    pub open spec fn named(name: Seq<char>) -> Option<SubtitleFormat> {
        if name == "srt"@ {
            Some(SubtitleFormat::Srt)
        } else if name == "vtt"@ {
            Some(SubtitleFormat::Vtt)
        } else if name == "ass"@ {
            Some(SubtitleFormat::Ass)
        } else {
            None
        }
    }

    pub fn parse(name: &str) -> (format: Option<Self>)
        ensures
            format == Self::named(name@),
    {
        if same_text(name, "srt") {
            Some(SubtitleFormat::Srt)
        } else if same_text(name, "vtt") {
            Some(SubtitleFormat::Vtt)
        } else if same_text(name, "ass") {
            Some(SubtitleFormat::Ass)
        } else {
            None
        }
    }
}

/// Which texts are shown, and in which order.
#[derive(Debug, Clone, Copy, PartialEq, Eq, Structural)]
pub enum SubtitleLayout {
    SourceOnly,
    TranslationOnly,
    BilingualSourceFirst,
    BilingualTranslationFirst,
}

impl SubtitleLayout {
    /// The name of the layout in stored records.
    pub open spec fn text(self) -> Seq<char> {
        match self {
            SubtitleLayout::SourceOnly => "source_only"@,
            SubtitleLayout::TranslationOnly => "translation_only"@,
            SubtitleLayout::BilingualSourceFirst => "bilingual_source_first"@,
            SubtitleLayout::BilingualTranslationFirst => "bilingual_translation_first"@,
        }
    }

    pub fn as_str(self) -> (name: &'static str)
        ensures
            name@ == self.text(),
    {
        match self {
            SubtitleLayout::SourceOnly => "source_only",
            SubtitleLayout::TranslationOnly => "translation_only",
            SubtitleLayout::BilingualSourceFirst => "bilingual_source_first",
            SubtitleLayout::BilingualTranslationFirst => "bilingual_translation_first",
        }
    }

    /// The layout that `name` names.
    pub open spec fn named(name: Seq<char>) -> Option<SubtitleLayout> {
        if name == "source_only"@ {
            Some(SubtitleLayout::SourceOnly)
        } else if name == "translation_only"@ {
            Some(SubtitleLayout::TranslationOnly)
        } else if name == "bilingual_source_first"@ {
            Some(SubtitleLayout::BilingualSourceFirst)
        } else if name == "bilingual_translation_first"@ {
            Some(SubtitleLayout::BilingualTranslationFirst)
        } else {
            None
        }
    }

    pub fn parse(name: &str) -> (layout: Option<Self>)
        ensures
            layout == Self::named(name@),
    {
        if same_text(name, "source_only") {
            Some(SubtitleLayout::SourceOnly)
        } else if same_text(name, "translation_only") {
            Some(SubtitleLayout::TranslationOnly)
        } else if same_text(name, "bilingual_source_first") {
            Some(SubtitleLayout::BilingualSourceFirst)
        } else if same_text(name, "bilingual_translation_first") {
            Some(SubtitleLayout::BilingualTranslationFirst)
        } else {
            None
        }
    }
}

/// Where and how subtitles are written.
#[derive(Debug, PartialEq, Eq)]
pub struct SubtitleExportRequest {
    pub output_path: String,
    pub format: SubtitleFormat,
    pub layout: SubtitleLayout,
    /// Cues without a translation show their source.
    pub fallback_to_source: bool,
}

/// Reading back the name of a format or a layout gives it again.
pub proof fn law_names_are_read_back(format: SubtitleFormat, layout: SubtitleLayout)
    ensures
        SubtitleFormat::named(format.text()) == Some(format),
        SubtitleLayout::named(layout.text()) == Some(layout),
{
    reveal_strlit("srt");
    reveal_strlit("vtt");
    reveal_strlit("ass");
    assert("srt"@[0] == 's' && "vtt"@[0] == 'v' && "ass"@[0] == 'a');
    reveal_strlit("source_only");
    reveal_strlit("translation_only");
    reveal_strlit("bilingual_source_first");
    reveal_strlit("bilingual_translation_first");
    assert("source_only"@.len() == 11 && "translation_only"@.len() == 16
        && "bilingual_source_first"@.len() == 22 && "bilingual_translation_first"@.len() == 27);
}

/// Which recognizer is run, and how.
#[derive(Debug, PartialEq, Eq)]
pub struct AsrRuntimeSpec {
    pub engine_family: String,
    pub model_id: String,
    pub device: String,
    pub compute_type: String,
    pub locator: String,
    pub verified_digest: Option<String>,
}

/// A note of something that happened, delivered to others later.
#[derive(Debug, PartialEq, Eq)]
pub struct OutboxEvent {
    pub aggregate_type: String,
    pub aggregate_id: String,
    pub event_type: String,
    pub payload_json: String,
    pub created_at: String,
}

/// The names of formats, layouts and stages as they are stored.
pub proof fn law_names_as_they_are_stored(
    format: SubtitleFormat,
    layout: SubtitleLayout,
    stage: LlmStage,
)
    ensures
        format is Srt ==> format.text() == "srt"@,
        format is Vtt ==> format.text() == "vtt"@,
        format is Ass ==> format.text() == "ass"@,
        layout is SourceOnly ==> layout.text() == "source_only"@,
        layout is TranslationOnly ==> layout.text() == "translation_only"@,
        layout is BilingualSourceFirst ==> layout.text() == "bilingual_source_first"@,
        layout is BilingualTranslationFirst ==> layout.text() == "bilingual_translation_first"@,
        stage is Split ==> stage.text() == "split"@ && stage.kind() == StageKind::Split,
        stage is Correct ==> stage.text() == "correct"@ && stage.kind() == StageKind::Correct,
        stage is Translate ==> stage.text() == "translate"@ && stage.kind() == StageKind::Translate,
{
}

} // verus!
