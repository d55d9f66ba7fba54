//! The chat surface of a language-model provider.
use vstd::prelude::*;
use vstd::string::*;

verus! {

/// Version of the capability probe. A new version makes old results unusable.
pub const CAPABILITY_PROBE_VERSION: u32 = 1;

#[derive(Debug, Clone, Copy, PartialEq, Eq, Structural)]
pub enum Role {
    System,
    User,
    Assistant,
}

#[derive(Debug, PartialEq, Eq)]
pub struct ChatMessage {
    pub role: Role,
    pub content: String,
}

impl Clone for ChatMessage {
    fn clone(&self) -> (copy: Self)
        ensures
            copy == *self,
    {
        ChatMessage { role: self.role, content: self.content.clone() }
    }
}

impl ChatMessage {
    pub fn system(content: &str) -> (message: Self)
        ensures
            message.role == Role::System,
            message.content@ == content@,
    {
        ChatMessage { role: Role::System, content: content.to_owned() }
    }

    pub fn user(content: &str) -> (message: Self)
        ensures
            message.role == Role::User,
            message.content@ == content@,
    {
        ChatMessage { role: Role::User, content: content.to_owned() }
    }

    pub fn assistant(content: &str) -> (message: Self)
        ensures
            message.role == Role::Assistant,
            message.content@ == content@,
    {
        ChatMessage { role: Role::Assistant, content: content.to_owned() }
    }
}

/// How structured JSON is requested from the provider.
#[derive(Debug, Clone, Copy, PartialEq, Eq, Structural)]
pub enum StructuredMode {
    JsonSchema,
    JsonObject,
    PromptOnly,
}

impl Default for StructuredMode {
    fn default() -> (mode: Self)
        ensures
            mode == StructuredMode::PromptOnly,
    {
        StructuredMode::PromptOnly
    }
}

#[derive(Debug, PartialEq, Eq)]
pub struct ChatRequest {
    pub model: String,
    pub messages: Vec<ChatMessage>,
    /// The numeral of the sampling temperature, as it goes into the request.
    pub temperature: Option<String>,
    pub max_tokens: Option<u32>,
    /// Ask for JSON where no structured mode does.
    pub response_format_json: Option<bool>,
    pub seed: Option<i64>,
    /// Overrides the mode that the provider's capabilities give.
    pub structured_mode: Option<StructuredMode>,
    /// The JSON Schema of the reply, as JSON text.
    pub response_schema: Option<String>,
}

#[derive(Debug, PartialEq, Eq)]
pub struct ChatResponse {
    pub content: String,
    pub finish_reason: Option<String>,
    pub prompt_tokens: Option<u32>,
    pub completion_tokens: Option<u32>,
}

/// Detected or overridden provider capabilities.
#[derive(Debug, Clone, Copy, PartialEq, Eq)]
pub struct ProviderCapabilities {
    pub json_mode: bool,
    pub json_schema: bool,
    pub tools: bool,
    pub seed: bool,
    pub vision: bool,
    pub returns_usage: bool,
    pub supports_model_list: bool,
    pub max_context_tokens: Option<u32>,
    pub max_output_tokens: Option<u32>,
    /// The values were set by hand and win over detection.
    pub manual_override: bool,
    /// The mode to use where the values were set by hand.
    pub structured_mode: StructuredMode,
}

impl ProviderCapabilities {
    /// Nothing is known of the provider.
    pub open spec fn conservative() -> ProviderCapabilities {
        ProviderCapabilities {
            json_mode: false,
            json_schema: false,
            tools: false,
            seed: false,
            vision: false,
            returns_usage: false,
            supports_model_list: false,
            max_context_tokens: Some(8192),
            max_output_tokens: Some(2048),
            manual_override: false,
            structured_mode: StructuredMode::PromptOnly,
        }
    }

    pub fn conservative_default() -> (capabilities: Self)
        ensures
            capabilities == Self::conservative(),
    {
        ProviderCapabilities {
            json_mode: false,
            json_schema: false,
            tools: false,
            seed: false,
            vision: false,
            returns_usage: false,
            supports_model_list: false,
            max_context_tokens: Some(8192),
            max_output_tokens: Some(2048),
            manual_override: false,
            structured_mode: StructuredMode::PromptOnly,
        }
    }

    /// The mode by which structured output is asked for: what was set by hand,
    /// otherwise the strongest that was detected.
    pub open spec fn effective_mode(self) -> StructuredMode {
        if self.manual_override {
            self.structured_mode
        } else if self.json_schema {
            StructuredMode::JsonSchema
        } else if self.json_mode {
            StructuredMode::JsonObject
        } else {
            StructuredMode::PromptOnly
        }
    }

    pub fn effective_structured_mode(&self) -> (mode: StructuredMode)
        ensures
            mode == self.effective_mode(),
    {
        if self.manual_override {
            return self.structured_mode;
        }
        if self.json_schema {
            StructuredMode::JsonSchema
        } else if self.json_mode {
            StructuredMode::JsonObject
        } else {
            StructuredMode::PromptOnly
        }
    }
}

impl Default for ProviderCapabilities {
    fn default() -> (capabilities: Self)
        ensures
            capabilities == (ProviderCapabilities {
                max_context_tokens: None,
                max_output_tokens: None,
                ..ProviderCapabilities::conservative()
            }),
    {
        let mut capabilities = ProviderCapabilities::conservative_default();
        capabilities.max_context_tokens = None;
        capabilities.max_output_tokens = None;
        capabilities
    }
}

/// A schema is used where the provider takes one, else a JSON object, else the
/// prompt alone. What was set by hand wins.
pub proof fn law_the_best_mode_is_used(c: ProviderCapabilities)
    ensures
        c.manual_override ==> c.effective_mode() == c.structured_mode,
        !c.manual_override && c.json_schema ==> c.effective_mode() == StructuredMode::JsonSchema,
        !c.manual_override && !c.json_schema && c.json_mode ==> c.effective_mode()
            == StructuredMode::JsonObject,
        !c.manual_override && !c.json_schema && !c.json_mode ==> c.effective_mode()
            == StructuredMode::PromptOnly,
{
}

/// Of a provider that has not been probed nothing is expected: no structured
/// output, and room for a small context and a small reply.
pub proof fn law_nothing_is_expected_unprobed()
    ensures
        ({
            let c = ProviderCapabilities::conservative();
            &&& !c.json_mode && !c.json_schema && !c.tools && !c.seed && !c.vision
            &&& !c.returns_usage && !c.supports_model_list && !c.manual_override
            &&& c.max_context_tokens == Some(8192u32) && c.max_output_tokens == Some(2048u32)
            &&& c.effective_mode() == StructuredMode::PromptOnly
        }),
{
}

} // verus!
