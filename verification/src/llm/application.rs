//! Between the values of the application and those of a provider.
use vstd::prelude::*;

use crate::ports::{
    LlmCapabilities, LlmMessage, LlmRequest, LlmResponse, LlmRole, StructuredOutput,
};

use super::provider::{
    ChatMessage, ChatRequest, ChatResponse, ProviderCapabilities, Role, StructuredMode,
};

verus! {

pub open spec fn mode_for(output: StructuredOutput) -> StructuredMode {
    match output {
        StructuredOutput::JsonSchema => StructuredMode::JsonSchema,
        StructuredOutput::JsonObject => StructuredMode::JsonObject,
        StructuredOutput::PromptOnly => StructuredMode::PromptOnly,
    }
}

pub fn map_structured_mode(output: StructuredOutput) -> (mode: StructuredMode)
    ensures
        mode == mode_for(output),
{
    match output {
        StructuredOutput::JsonSchema => StructuredMode::JsonSchema,
        StructuredOutput::JsonObject => StructuredMode::JsonObject,
        StructuredOutput::PromptOnly => StructuredMode::PromptOnly,
    }
}

pub open spec fn output_for(mode: StructuredMode) -> StructuredOutput {
    match mode {
        StructuredMode::JsonSchema => StructuredOutput::JsonSchema,
        StructuredMode::JsonObject => StructuredOutput::JsonObject,
        StructuredMode::PromptOnly => StructuredOutput::PromptOnly,
    }
}

pub fn map_structured_output(mode: StructuredMode) -> (output: StructuredOutput)
    ensures
        output == output_for(mode),
{
    match mode {
        StructuredMode::JsonSchema => StructuredOutput::JsonSchema,
        StructuredMode::JsonObject => StructuredOutput::JsonObject,
        StructuredMode::PromptOnly => StructuredOutput::PromptOnly,
    }
}

pub open spec fn role_for(role: LlmRole) -> Role {
    match role {
        LlmRole::System => Role::System,
        LlmRole::User => Role::User,
        LlmRole::Assistant => Role::Assistant,
    }
}

pub fn map_message(message: &LlmMessage) -> (mapped: ChatMessage)
    ensures
        mapped.role == role_for(message.role),
        mapped.content@ == message.content@,
{
    match message.role {
        LlmRole::System => ChatMessage::system(message.content.as_str()),
        LlmRole::User => ChatMessage::user(message.content.as_str()),
        LlmRole::Assistant => ChatMessage::assistant(message.content.as_str()),
    }
}

/// `mapped` is the provider's form of `request`.
pub open spec fn is_provider_request(request: LlmRequest, mapped: ChatRequest) -> bool {
    &&& mapped.model == request.model
    &&& mapped.messages@.len() == request.messages@.len()
    &&& forall|i: int|
        0 <= i < request.messages@.len() ==> (#[trigger] mapped.messages@[i]).role == role_for(
            request.messages@[i].role,
        ) && mapped.messages@[i].content@ == request.messages@[i].content@
    &&& mapped.temperature == request.temperature
    &&& mapped.max_tokens == request.max_output_tokens
    &&& mapped.response_format_json == (if request.structured_output
        == StructuredOutput::PromptOnly {
        None
    } else {
        Some(true)
    })
    &&& mapped.seed == request.seed
    &&& mapped.structured_mode == Some(mode_for(request.structured_output))
    &&& mapped.response_schema == request.schema
}

/// The request as the provider takes it.
pub fn provider_request(request: LlmRequest) -> (mapped: ChatRequest)
    ensures
        is_provider_request(request, mapped),
{
    let mut messages: Vec<ChatMessage> = Vec::new();
    let mut i: usize = 0;
    while i < request.messages.len()
        invariant
            i <= request.messages.len(),
            messages@.len() == i,
            forall|k: int|
                0 <= k < i ==> (#[trigger] messages@[k]).role == role_for(
                    request.messages@[k].role,
                ) && messages@[k].content@ == request.messages@[k].content@,
        decreases request.messages.len() - i,
    {
        messages.push(map_message(&request.messages[i]));
        i += 1;
    }
    let response_format_json = match request.structured_output {
        StructuredOutput::PromptOnly => None,
        StructuredOutput::JsonSchema | StructuredOutput::JsonObject => Some(true),
    };
    ChatRequest {
        model: request.model,
        messages,
        temperature: request.temperature,
        max_tokens: request.max_output_tokens,
        response_format_json,
        seed: request.seed,
        structured_mode: Some(map_structured_mode(request.structured_output)),
        response_schema: request.schema,
    }
}

pub open spec fn widened(n: Option<u32>) -> Option<u64> {
    match n {
        Some(n) => Some(n as u64),
        None => None,
    }
}

/// The response as the application takes it.
pub fn application_response(response: ChatResponse) -> (mapped: LlmResponse)
    ensures
        mapped.content == response.content,
        mapped.prompt_tokens == widened(response.prompt_tokens),
        mapped.completion_tokens == widened(response.completion_tokens),
{
    LlmResponse {
        content: response.content,
        prompt_tokens: match response.prompt_tokens {
            Some(n) => Some(n as u64),
            None => None,
        },
        completion_tokens: match response.completion_tokens {
            Some(n) => Some(n as u64),
            None => None,
        },
    }
}

/// The capabilities as the application takes them.
pub fn application_capabilities(capabilities: &ProviderCapabilities) -> (mapped: LlmCapabilities)
    ensures
        mapped == (LlmCapabilities {
            structured_output: output_for(capabilities.effective_mode()),
            returns_usage: capabilities.returns_usage,
            supports_seed: capabilities.seed,
            supports_model_list: capabilities.supports_model_list,
            max_context_tokens: capabilities.max_context_tokens,
            max_output_tokens: capabilities.max_output_tokens,
        }),
{
    LlmCapabilities {
        structured_output: map_structured_output(capabilities.effective_structured_mode()),
        returns_usage: capabilities.returns_usage,
        supports_seed: capabilities.seed,
        supports_model_list: capabilities.supports_model_list,
        max_context_tokens: capabilities.max_context_tokens,
        max_output_tokens: capabilities.max_output_tokens,
    }
}

/// Modes and outputs correspond one to one.
pub proof fn law_modes_correspond(mode: StructuredMode, output: StructuredOutput)
    ensures
        mode_for(output_for(mode)) == mode,
        output_for(mode_for(output)) == output,
{
}

/// A request goes to the provider as it is: model, messages in their order,
/// limits, seed and schema. JSON is asked for unless the prompt alone has to do.
pub proof fn law_requests_go_out_as_they_are(request: LlmRequest, mapped: ChatRequest, i: int)
    requires
        is_provider_request(request, mapped),
    ensures
        mapped.model == request.model && mapped.temperature == request.temperature,
        mapped.max_tokens == request.max_output_tokens && mapped.seed == request.seed,
        mapped.response_schema == request.schema,
        mapped.messages@.len() == request.messages@.len(),
        0 <= i < request.messages@.len() ==> {
            let sent = mapped.messages@[i];
            let given = request.messages@[i];
            &&& sent.content@ == given.content@
            &&& given.role == LlmRole::System ==> sent.role == Role::System
            &&& given.role == LlmRole::User ==> sent.role == Role::User
            &&& given.role == LlmRole::Assistant ==> sent.role == Role::Assistant
        },
        request.structured_output == StructuredOutput::PromptOnly ==> mapped.response_format_json
            is None && mapped.structured_mode == Some(StructuredMode::PromptOnly),
        request.structured_output == StructuredOutput::JsonObject ==> mapped.response_format_json
            == Some(true) && mapped.structured_mode == Some(StructuredMode::JsonObject),
        request.structured_output == StructuredOutput::JsonSchema ==> mapped.response_format_json
            == Some(true) && mapped.structured_mode == Some(StructuredMode::JsonSchema),
{
    if 0 <= i < request.messages@.len() {
        assert(mapped.messages@[i].content@ == request.messages@[i].content@);
    }
}

/// Each mode has its own name on both sides, and the counts of a reply are kept.
pub proof fn law_modes_and_counts_are_kept(mode: StructuredMode, n: Option<u32>)
    ensures
        mode == StructuredMode::JsonSchema ==> output_for(mode) == StructuredOutput::JsonSchema,
        mode == StructuredMode::JsonObject ==> output_for(mode) == StructuredOutput::JsonObject,
        mode == StructuredMode::PromptOnly ==> output_for(mode) == StructuredOutput::PromptOnly,
        n matches Some(count) ==> widened(n) == Some(count as u64),
        n is None ==> widened(n) is None,
{
}

} // verus!
