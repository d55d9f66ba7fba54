use videocaptionerr::contracts::ErrorCode;
use videocaptionerr::llm::application::{
    application_capabilities, application_response, provider_request,
};
use videocaptionerr::llm::circuit::{CircuitBreaker, CircuitState, DEFAULT_FAILURE_THRESHOLD};
use videocaptionerr::llm::json_parse::extract_json_value;
use videocaptionerr::llm::openai::{
    endpoint, http_status_error, parse_chat_response, request_body, retry_after_ms, OpenAiConfig,
    OpenAiProvider,
};
use videocaptionerr::llm::probe::{CapabilityProbe, ProbeConfig};
use videocaptionerr::llm::prompt::{normalize_prompt, PromptBundle, PromptFiles, PromptStage};
use videocaptionerr::llm::provider::{
    ChatMessage, ChatRequest, ChatResponse, ProviderCapabilities, Role, StructuredMode,
};
use videocaptionerr::llm::templates::ProviderTemplate;
use videocaptionerr::llm::token::{
    estimate_messages_tokens, estimate_tokens, fits_context, DEFAULT_CHARS_PER_TOKEN, TOKEN_SAFETY_MARGIN,
};
use videocaptionerr::ports::{LlmMessage, LlmRequest, LlmRole, StructuredOutput};
use videocaptionerr::use_cases::llm_pipeline::agent::{
    max_semantic_attempts, repair_user_message,
};

#[test]
fn accepts_host_and_v1_base_urls() {
    assert_eq!(
        endpoint("https://example.test", "chat/completions"),
        "https://example.test/chat/completions"
    );
    assert_eq!(
        endpoint("https://example.test/v1/", "chat/completions"),
        "https://example.test/v1/chat/completions"
    );
}

#[test]
fn cache_identity_excludes_api_key() {
    let mut a = ProbeConfig::new("p", 3, "https://example.test/v1", "secret-a", "m");
    let mut b = a.clone();
    b.api_key = "secret-b".into();
    assert_eq!(
        CapabilityProbe::new(a.clone()).cache_key(),
        CapabilityProbe::new(b).cache_key()
    );
    let mut c = a.clone();
    c.base_url = "https://example.test/v1//".into();
    assert_eq!(
        CapabilityProbe::new(a.clone()).cache_key(),
        CapabilityProbe::new(c).cache_key()
    );
    a.profile_revision += 1;
    assert_ne!(
        CapabilityProbe::new(a).cache_key(),
        CapabilityProbe::new(ProbeConfig::new(
            "p",
            3,
            "https://example.test/v1",
            "secret-a",
            "m"
        ))
        .cache_key()
    );
}

#[test]
fn manual_override_has_priority() {
    let mut caps = ProviderCapabilities::conservative_default();
    caps.json_schema = true;
    let mut config = ProbeConfig::new("p", 1, "https://example.test", "", "m");
    config.manual_override = Some(caps.clone());
    assert!(config.manual_override.unwrap().json_schema);
}

#[test]
fn parse_aliases() {
    assert_eq!(
        ProviderTemplate::parse("openai-compatible"),
        Some(ProviderTemplate::Generic)
    );
    assert_eq!(
        ProviderTemplate::parse("lm-studio"),
        Some(ProviderTemplate::LmStudio)
    );
}

#[test]
fn estimate_grows_with_text() {
    let short = estimate_tokens("hi", DEFAULT_CHARS_PER_TOKEN);
    let long = estimate_tokens(&"word ".repeat(200), DEFAULT_CHARS_PER_TOKEN);
    assert!(long > short);
}

#[test]
fn fits_context_respects_margin() {
    assert!(fits_context(100, 50, 200, 100));
    assert!(!fits_context(100, 50, 150, TOKEN_SAFETY_MARGIN));
}

#[test]
fn repair_message_marks_violation_without_provider_jargon() {
    let msg = repair_user_message("cue 1 empty");
    assert!(matches!(msg.role, LlmRole::User));
    assert!(msg.content.contains("cue 1 empty"));
    assert!(msg.content.contains("JSON"));
}

#[test]
fn semantic_budget_matches_manual_two_retries() {
    assert_eq!(max_semantic_attempts(2), 3);
    assert_eq!(max_semantic_attempts(0), 1);
}

#[test]
fn auth_locks_immediately() {
    let mut cb = CircuitBreaker::new("p");
    cb.record_failure(ErrorCode::LlmAuthFailed, None, 0);
    assert_eq!(cb.state(0), CircuitState::Open);
    assert_eq!(cb.guard(0).unwrap_err().code, ErrorCode::LlmAuthFailed);
    cb.reset();
    assert!(cb.guard(0).is_ok());
}

#[test]
fn repeated_5xx_opens() {
    let mut cb = CircuitBreaker::new("p").with_open_duration(50);
    for _ in 0..DEFAULT_FAILURE_THRESHOLD {
        cb.record_failure(ErrorCode::LlmProviderUnavailable, None, 0);
    }
    assert_eq!(cb.state(0), CircuitState::Open);
    assert!(cb.guard(0).is_err());
    assert_eq!(cb.state(60), CircuitState::HalfOpen);
    assert!(cb.guard(60).is_ok());
    cb.record_success();
    assert_eq!(cb.state(60), CircuitState::Closed);
}

#[test]
fn parses_fenced_and_prose() {
    let text = extract_json_value("Here you go:\n```json\n{\"a\":1}\n```\n").unwrap();
    let v: serde_json::Value = serde_json::from_str(&text).unwrap();
    assert_eq!(v["a"], 1);
    let text = extract_json_value("prefix {\"items\":[]} suffix").unwrap();
    let v: serde_json::Value = serde_json::from_str(&text).unwrap();
    assert!(v["items"].is_array());
}

#[test]
fn prose_without_json_is_refused() {
    assert_eq!(
        extract_json_value("no document here").unwrap_err().code,
        ErrorCode::LlmInvalidResponse
    );
}

#[test]
fn request_body_never_contains_api_key() {
    let request = ChatRequest {
        model: "model".into(),
        messages: vec![ChatMessage::user("hello")],
        temperature: None,
        max_tokens: None,
        response_format_json: None,
        seed: None,
        structured_mode: Some(StructuredMode::JsonObject),
        response_schema: None,
    };
    let body = request_body(&request, StructuredMode::JsonObject);
    assert!(!body.contains("sk-secret"));
    assert!(body.contains("json_object"));
    let value: serde_json::Value = serde_json::from_str(&body).unwrap();
    assert_eq!(value["messages"][0]["content"], "hello");
    assert_eq!(value["messages"][0]["role"], "user");
    assert_eq!(value["model"], "model");
}

#[test]
fn request_bodies_are_valid_json_whatever_the_text() {
    let request = ChatRequest {
        model: "m\"odel\\".into(),
        messages: vec![
            ChatMessage::system("line one\nline \"two\""),
            ChatMessage::assistant("\u{1}ünïcode 你好"),
        ],
        temperature: Some("0.2".into()),
        max_tokens: Some(64),
        response_format_json: None,
        seed: Some(-7),
        structured_mode: None,
        response_schema: Some("{\"type\":\"object\"}".into()),
    };
    let body = request_body(&request, StructuredMode::JsonSchema);
    let value: serde_json::Value = serde_json::from_str(&body).unwrap();
    assert_eq!(value["model"], "m\"odel\\");
    assert_eq!(value["messages"][0]["content"], "line one\nline \"two\"");
    assert_eq!(value["messages"][1]["content"], "\u{1}ünïcode 你好");
    assert_eq!(value["messages"][1]["role"], "assistant");
    assert_eq!(value["max_tokens"], 64);
    assert_eq!(value["seed"], -7);
    assert_eq!(value["temperature"], 0.2);
}

#[test]
fn retry_after_delta_is_parsed() {
    assert_eq!(retry_after_ms("3", 0), Some(3000));
}

#[test]
fn retry_after_dates_are_parsed() {
    // 2015-10-21 07:28:00 UTC
    let moment: i64 = 1_445_412_480_000;
    assert_eq!(
        retry_after_ms(" Wed, 21 Oct 2015 07:28:00 GMT ", moment - 2_500),
        Some(2_500)
    );
    assert_eq!(retry_after_ms("soon", moment), None);
}

#[test]
fn replies_are_read() {
    let reply = parse_chat_response(
        "{\"choices\":[{\"message\":{\"content\":\"{}\"},\"finish_reason\":\"stop\"}],\"usage\":{\"prompt_tokens\":3,\"completion_tokens\":2}}",
    )
    .unwrap();
    assert_eq!(reply.content, "{}");
    assert_eq!(reply.finish_reason.as_deref(), Some("stop"));
    assert_eq!(reply.prompt_tokens, Some(3));
    assert_eq!(reply.completion_tokens, Some(2));
    for body in ["", "{}", "{\"choices\":[]}", "{\"choices\":[{}]}"] {
        assert_eq!(
            parse_chat_response(body).unwrap_err().code,
            ErrorCode::LlmInvalidResponse
        );
    }
}

#[test]
fn statuses_are_told_apart() {
    assert_eq!(http_status_error(401, None).code, ErrorCode::LlmAuthFailed);
    assert_eq!(http_status_error(404, None).code, ErrorCode::LlmModelNotFound);
    let limited = http_status_error(429, Some(1500));
    assert_eq!(limited.code, ErrorCode::LlmRateLimited);
    assert_eq!(limited.retry_after_ms, Some(1500));
    assert_eq!(limited.message, "LLM provider returned HTTP 429");
    assert_eq!(http_status_error(503, None).code, ErrorCode::LlmProviderUnavailable);
}

#[test]
fn providers_normalize_their_address() {
    let provider = OpenAiProvider::new(OpenAiConfig::new("p", " https://example.test/v1/ ", "k", "m"));
    assert_eq!(provider.base_url(), "https://example.test/v1");
    assert_eq!(provider.chat_endpoint(), "https://example.test/v1/chat/completions");
    assert_eq!(provider.models_endpoint(), "https://example.test/v1/models");
}

#[test]
fn hashes_are_order_independent() {
    let mut a = PromptFiles::new();
    a.insert("b.txt", "b\n");
    a.insert("a.txt", "a\n");
    let mut b = PromptFiles::new();
    b.insert("a.txt", "a\n");
    b.insert("b.txt", "b\n");
    assert_eq!(
        PromptBundle::from_files(PromptStage::Split, a).content_hash,
        PromptBundle::from_files(PromptStage::Split, b).content_hash
    );
}

#[test]
fn bundles_are_hashed_by_name_and_content() {
    let mut files = PromptFiles::new();
    files.insert("system.txt", &normalize_prompt("line one\r\nline two"));
    let bundle = PromptBundle::from_files(PromptStage::Translate, files);
    assert_eq!(bundle.system_prompt(), "line one\nline two\n");
    let mut bytes: Vec<u8> = Vec::new();
    bytes.extend(b"system.txt\0line one\nline two\n\0");
    assert_eq!(bundle.content_hash, blake3::hash(&bytes).to_hex().to_string());
}

#[test]
fn maps_application_requests_without_owning_pipeline_policy() {
    let request = provider_request(LlmRequest {
        model: "requested-model".into(),
        messages: vec![LlmMessage { role: LlmRole::User, content: "hello".into() }],
        temperature: Some("0.2".into()),
        max_output_tokens: Some(64),
        seed: Some(7),
        structured_output: StructuredOutput::JsonObject,
        schema: None,
    });
    let response = application_response(ChatResponse {
        content: "{\"ok\":true}".into(),
        finish_reason: Some("stop".into()),
        prompt_tokens: Some(3),
        completion_tokens: Some(2),
    });
    assert_eq!(response.prompt_tokens, Some(3));
    assert_eq!(response.completion_tokens, Some(2));
    assert_eq!(request.model, "requested-model");
    assert_eq!(request.messages[0].content, "hello");
    assert_eq!(request.structured_mode, Some(StructuredMode::JsonObject));
    assert_eq!(request.seed, Some(7));
    assert_eq!(request.messages[0].role, Role::User);
    let capabilities = application_capabilities(&ProviderCapabilities::conservative_default());
    assert_eq!(capabilities.structured_output, StructuredOutput::PromptOnly);
}

#[test]
fn directory_files_are_normalized_and_sorted() {
    let raw = vec![
        ("user.txt".to_string(), "hello\r\n".to_string()),
        ("system.txt".to_string(), "be brief\r\n".to_string()),
    ];
    let bundle = PromptBundle::from_directory(PromptStage::Split, "/prompts/split", &raw).unwrap();
    assert_eq!(bundle.schema_version, 1);
    assert_eq!(bundle.files.entries()[0].0, "system.txt");
    assert_eq!(
        bundle.files.get("user.txt"),
        Some(normalize_prompt("hello\r\n"))
    );
    assert_eq!(bundle.system_prompt(), normalize_prompt("be brief\r\n"));
    let mut hasher = blake3::Hasher::new();
    for (name, content) in bundle.files.entries() {
        hasher.update(name.as_bytes());
        hasher.update(&[0]);
        hasher.update(content.as_bytes());
        hasher.update(&[0]);
    }
    assert_eq!(bundle.content_hash, hasher.finalize().to_hex().to_string());
    assert_eq!(bundle.snapshot_dir("/jobs/1"), "/jobs/1/llm/prompts/split");
}

#[test]
fn empty_prompt_directory_is_reported() {
    let error =
        PromptBundle::from_directory(PromptStage::Correct, "/prompts/correct", &Vec::new())
            .unwrap_err();
    assert_eq!(error.code, ErrorCode::InvalidConfig);
    assert_eq!(
        error.message,
        "prompt stage /prompts/correct contains no files"
    );
}

#[test]
fn template_defaults() {
    assert_eq!(
        ProviderTemplate::Ollama.default_base_url(),
        "http://127.0.0.1:11434/v1"
    );
    let capabilities = ProviderTemplate::LmStudio.default_capabilities();
    assert_eq!(capabilities.max_context_tokens, Some(4096));
    assert_eq!(capabilities.max_output_tokens, Some(2048));
    assert_eq!(capabilities.structured_mode, StructuredMode::JsonObject);
}

#[test]
fn message_estimates_add_up() {
    assert_eq!(estimate_tokens("hello world", DEFAULT_CHARS_PER_TOKEN), 4);
    assert_eq!(estimate_tokens("again", DEFAULT_CHARS_PER_TOKEN), 2);
    assert_eq!(
        estimate_messages_tokens(&["hello world", "again"], DEFAULT_CHARS_PER_TOKEN),
        10
    );
}
