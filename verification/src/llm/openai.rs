//! The wire format of providers that speak the OpenAI chat protocol: addresses,
//! request bodies, replies and error statuses.
use vstd::prelude::*;
use vstd::string::*;

use crate::contracts::{option_text, ErrorCode, VcError, VcErrorView, VcResult};
use crate::json::{
    array_len_at, is_json, json_array_len, json_document, json_present, json_quoted, json_text,
    json_unsigned, member, member_text, object, object_text, optional_member, present_at,
    push_optional, quoted, text_at, unsigned_at,
};
use crate::text::{
    decimal, ends_with, has_suffix, join_with, joined_with, law_numbers_are_read,
    law_trimming_takes_the_edges, parse_u64, push_decimal, push_signed, signed_decimal,
    strip_trailing, text_views, trim, trimmed, unsigned_value, whitespace, without_trailing,
};

use super::provider::{
    ChatMessage, ChatRequest, ChatResponse, ProviderCapabilities, Role, StructuredMode,
};

verus! {

/// How long a request may take, in milliseconds.
pub const DEFAULT_TIMEOUT_MS: u64 = 120_000;

/// Settings of one provider.
#[derive(Debug, PartialEq, Eq)]
pub struct OpenAiConfig {
    pub id: String,
    pub base_url: String,
    pub api_key: String,
    pub model: String,
    pub capabilities: ProviderCapabilities,
    pub timeout_ms: u64,
}

impl OpenAiConfig {
    pub fn new(id: &str, base_url: &str, api_key: &str, model: &str) -> (config: Self)
        ensures
            config.id@ == id@,
            config.base_url@ == base_url@,
            config.api_key@ == api_key@,
            config.model@ == model@,
            config.capabilities == ProviderCapabilities::conservative(),
            config.timeout_ms == DEFAULT_TIMEOUT_MS,
    {
        OpenAiConfig {
            id: id.to_owned(),
            base_url: base_url.to_owned(),
            api_key: api_key.to_owned(),
            model: model.to_owned(),
            capabilities: ProviderCapabilities::conservative_default(),
            timeout_ms: DEFAULT_TIMEOUT_MS,
        }
    }
}

/// A base address without surrounding white space and trailing slashes.
pub open spec fn plain_base_url(base_url: Seq<char>) -> Seq<char> {
    without_trailing(trimmed(base_url), '/')
}

pub fn trim_base_url(base_url: &str) -> (url: String)
    ensures
        url@ == plain_base_url(base_url@),
{
    let inner = trim(base_url);
    strip_trailing(inner.as_str(), '/')
}

/// The address of an operation: the base itself where it names the operation
/// already, otherwise the operation below it.
pub open spec fn endpoint_url(base_url: Seq<char>, suffix: Seq<char>) -> Seq<char> {
    let base = plain_base_url(base_url);
    if has_suffix(base, suffix) {
        base
    } else {
        base + "/"@ + suffix
    }
}

pub fn endpoint(base_url: &str, suffix: &str) -> (url: String)
    ensures
        url@ == endpoint_url(base_url@, suffix@),
{
    let mut base = trim_base_url(base_url);
    if !ends_with(base.as_str(), suffix) {
        base.append("/");
        base.append(suffix);
    }
    base
}

/// A provider as requests address it. The key is kept in memory only.
#[derive(Debug, PartialEq, Eq)]
pub struct OpenAiProvider {
    id: String,
    base_url: String,
    api_key: String,
    model: String,
    capabilities: ProviderCapabilities,
}

/// The settings of a provider, its base address normalized.
pub struct ProviderView {
    pub id: Seq<char>,
    pub base_url: Seq<char>,
    pub api_key: Seq<char>,
    pub model: Seq<char>,
    pub capabilities: ProviderCapabilities,
}

impl View for OpenAiProvider {
    type V = ProviderView;

    closed spec fn view(&self) -> ProviderView {
        ProviderView {
            id: self.id@,
            base_url: self.base_url@,
            api_key: self.api_key@,
            model: self.model@,
            capabilities: self.capabilities,
        }
    }
}

impl OpenAiProvider {
    pub fn new(config: OpenAiConfig) -> (provider: Self)
        ensures
            provider@ == (ProviderView {
                id: config.id@,
                base_url: plain_base_url(config.base_url@),
                api_key: config.api_key@,
                model: config.model@,
                capabilities: config.capabilities,
            }),
    {
        OpenAiProvider {
            id: config.id,
            base_url: trim_base_url(config.base_url.as_str()),
            api_key: config.api_key,
            model: config.model,
            capabilities: config.capabilities,
        }
    }

    pub fn id(&self) -> (id: &str)
        ensures
            id@ == self@.id,
    {
        self.id.as_str()
    }

    pub fn base_url(&self) -> (url: &str)
        ensures
            url@ == self@.base_url,
    {
        self.base_url.as_str()
    }

    pub fn api_key(&self) -> (key: &str)
        ensures
            key@ == self@.api_key,
    {
        self.api_key.as_str()
    }

    pub fn model(&self) -> (model: &str)
        ensures
            model@ == self@.model,
    {
        self.model.as_str()
    }

    pub fn capabilities(&self) -> (capabilities: &ProviderCapabilities)
        ensures
            *capabilities == self@.capabilities,
    {
        &self.capabilities
    }

    pub fn chat_endpoint(&self) -> (url: String)
        ensures
            url@ == endpoint_url(self@.base_url, "chat/completions"@),
    {
        endpoint(self.base_url.as_str(), "chat/completions")
    }

    pub fn models_endpoint(&self) -> (url: String)
        ensures
            url@ == endpoint_url(self@.base_url, "models"@),
    {
        endpoint(self.base_url.as_str(), "models")
    }
}

pub open spec fn role_literal(role: Role) -> Seq<char> {
    match role {
        Role::System => "\"system\""@,
        Role::User => "\"user\""@,
        Role::Assistant => "\"assistant\""@,
    }
}

/// A message whose content is given as a string literal.
pub open spec fn message_object(role: Role, content_literal: Seq<char>) -> Seq<char> {
    object(seq![member("content"@, content_literal), member("role"@, role_literal(role))])
}

/// A message whose content is given as a JSON string literal.
pub fn message_value(role: Role, content_literal: &str) -> (text: String)
    ensures
        text@ == message_object(role, content_literal@),
{
    let role_text = match role {
        Role::System => "\"system\"",
        Role::User => "\"user\"",
        Role::Assistant => "\"assistant\"",
    };
    let mut members: Vec<String> = Vec::new();
    members.push(member_text("content", content_literal));
    members.push(member_text("role", role_text));
    assert(text_views(members@) =~= seq![
        member("content"@, content_literal@),
        member("role"@, role_literal(role)),
    ]);
    object_text(&members)
}

/// The reply format that a request asks for, if it asks for one.
pub open spec fn response_format(
    mode: StructuredMode,
    schema: Option<Seq<char>>,
    json_wanted: Option<bool>,
) -> Option<Seq<char>> {
    let plain_json = object(seq![member("type"@, "\"json_object\""@)]);
    match mode {
        StructuredMode::JsonSchema => match schema {
            Some(schema) => Some(
                object(
                    seq![
                        member(
                            "json_schema"@,
                            object(
                                seq![
                                    member("name"@, "\"videocaptionerr_response\""@),
                                    member("schema"@, schema),
                                    member("strict"@, "true"@),
                                ],
                            ),
                        ),
                        member("type"@, "\"json_schema\""@),
                    ],
                ),
            ),
            None => Some(plain_json),
        },
        StructuredMode::JsonObject => Some(plain_json),
        StructuredMode::PromptOnly => if json_wanted == Some(true) {
            Some(plain_json)
        } else {
            None
        },
    }
}

fn plain_json_format() -> (text: String)
    ensures
        text@ == object(seq![member("type"@, "\"json_object\""@)]),
{
    let mut members: Vec<String> = Vec::new();
    members.push(member_text("type", "\"json_object\""));
    assert(text_views(members@) =~= seq![member("type"@, "\"json_object\""@)]);
    object_text(&members)
}

fn schema_format(schema: &str) -> (text: String)
    ensures
        Some(text@) == response_format(StructuredMode::JsonSchema, Some(schema@), None),
{
    let mut inner: Vec<String> = Vec::new();
    inner.push(member_text("name", "\"videocaptionerr_response\""));
    inner.push(member_text("schema", schema));
    inner.push(member_text("strict", "true"));
    assert(text_views(inner@) =~= seq![
        member("name"@, "\"videocaptionerr_response\""@),
        member("schema"@, schema@),
        member("strict"@, "true"@),
    ]);
    let inner_text = object_text(&inner);
    let mut outer: Vec<String> = Vec::new();
    outer.push(member_text("json_schema", inner_text.as_str()));
    outer.push(member_text("type", "\"json_schema\""));
    assert(text_views(outer@) =~= seq![
        member("json_schema"@, inner_text@),
        member("type"@, "\"json_schema\""@),
    ]);
    object_text(&outer)
}

fn format_text(mode: StructuredMode, schema: &Option<String>, json_wanted: Option<bool>) -> (text:
    Option<String>)
    ensures
        option_text(text) == response_format(mode, option_text(*schema), json_wanted),
{
    match mode {
        StructuredMode::JsonSchema => match schema {
            Some(schema) => Some(schema_format(schema.as_str())),
            None => Some(plain_json_format()),
        },
        StructuredMode::JsonObject => Some(plain_json_format()),
        StructuredMode::PromptOnly => match json_wanted {
            Some(true) => Some(plain_json_format()),
            _ => None,
        },
    }
}

/// The mode that a request goes by: its own, otherwise the provider's.
pub open spec fn mode_of(request: ChatRequest, effective: StructuredMode) -> StructuredMode {
    match request.structured_mode {
        Some(mode) => mode,
        None => effective,
    }
}

/// The members of a request body, in alphabetical order.
pub open spec fn body_members(
    model_literal: Seq<char>,
    messages: Seq<Seq<char>>,
    request: ChatRequest,
    effective: StructuredMode,
) -> Seq<Seq<char>> {
    optional_member(
        "max_tokens"@,
        match request.max_tokens {
            Some(n) => Some(decimal(n as nat)),
            None => None,
        },
    ) + seq![member("messages"@, "["@ + joined_with(messages, ","@) + "]"@)] + seq![
        member("model"@, model_literal),
    ] + optional_member(
        "response_format"@,
        response_format(
            mode_of(request, effective),
            option_text(request.response_schema),
            request.response_format_json,
        ),
    ) + optional_member(
        "seed"@,
        match request.seed {
            Some(n) => Some(signed_decimal(n as int)),
            None => None,
        },
    ) + optional_member("temperature"@, option_text(request.temperature))
}

/// Assemble a request body from quoted texts.
pub fn assemble_body(
    model_literal: &str,
    messages: &Vec<String>,
    request: &ChatRequest,
    effective_mode: StructuredMode,
) -> (body: String)
    ensures
        body@ == object(
            body_members(model_literal@, text_views(messages@), *request, effective_mode),
        ),
{
    let mut members: Vec<String> = Vec::new();
    assert(text_views(members@) =~= seq![]);
    let max_tokens = match request.max_tokens {
        Some(n) => {
            let mut text = String::new();
            push_decimal(&mut text, n as u64);
            assert(text@ =~= decimal(n as nat));
            Some(text)
        },
        None => None,
    };
    push_optional(&mut members, "max_tokens", &max_tokens);
    let mut list = "[".to_owned();
    let inner = join_with(messages, ",");
    list.append(inner.as_str());
    list.append("]");
    let list = Some(list);
    push_optional(&mut members, "messages", &list);
    let model = Some(model_literal.to_owned());
    push_optional(&mut members, "model", &model);
    let mode = match request.structured_mode {
        Some(mode) => mode,
        None => effective_mode,
    };
    let format = format_text(mode, &request.response_schema, request.response_format_json);
    push_optional(&mut members, "response_format", &format);
    let seed = match request.seed {
        Some(n) => {
            let mut text = String::new();
            push_signed(&mut text, n);
            assert(text@ =~= signed_decimal(n as int));
            Some(text)
        },
        None => None,
    };
    push_optional(&mut members, "seed", &seed);
    push_optional(&mut members, "temperature", &request.temperature);
    assert(text_views(members@) =~= body_members(
        model_literal@,
        text_views(messages@),
        *request,
        effective_mode,
    ));
    object_text(&members)
}

/// The messages of a request as JSON objects.
pub open spec fn message_objects(messages: Seq<ChatMessage>) -> Seq<Seq<char>> {
    Seq::new(
        messages.len(),
        |i: int| message_object(messages[i].role, json_quoted(messages[i].content@)),
    )
}

/// The body of a chat request. It is made of the request and the mode alone;
/// the key never goes into it.
pub fn request_body(request: &ChatRequest, effective_mode: StructuredMode) -> (body: String)
    ensures
        body@ == object(
            body_members(
                json_quoted(request.model@),
                message_objects(request.messages@),
                *request,
                effective_mode,
            ),
        ),
{
    let mut messages: Vec<String> = Vec::new();
    let mut i: usize = 0;
    while i < request.messages.len()
        invariant
            i <= request.messages.len(),
            messages@.len() == i,
            text_views(messages@) == message_objects(request.messages@).take(i as int),
        decreases request.messages.len() - i,
    {
        let ghost before = messages@;
        let literal = quoted(request.messages[i].content.as_str());
        messages.push(message_value(request.messages[i].role, literal.as_str()));
        i += 1;
        assert(text_views(messages@) =~= text_views(before).push(messages@.last()@));
        assert(message_objects(request.messages@).take(i as int) =~= message_objects(
            request.messages@,
        ).take(i - 1).push(message_objects(request.messages@)[i - 1]));
    }
    assert(message_objects(request.messages@).take(i as int) =~= message_objects(
        request.messages@,
    ));
    let model = quoted(request.model.as_str());
    assemble_body(model.as_str(), &messages, request, effective_mode)
}

/// What the content of a reply's message is.
#[derive(Debug, PartialEq, Eq)]
pub enum ReplyContent {
    Missing,
    Text(String),
    /// The texts of the parts of a list, where they have one.
    Parts(Vec<Option<String>>),
    /// Anything else.
    Other,
}

/// A token count as providers write it: a number or a numeral.
#[derive(Debug, PartialEq, Eq)]
pub struct ReplyCount {
    pub number: Option<u64>,
    pub numeral: Option<String>,
}

/// What a reply holds at the places that are read.
#[derive(Debug, PartialEq, Eq)]
pub struct Reply {
    pub has_choice: bool,
    pub has_message: bool,
    pub content: ReplyContent,
    pub finish_reason: Option<String>,
    pub prompt_tokens: ReplyCount,
    pub completion_tokens: ReplyCount,
}

/// The count, where it fits the type.
pub open spec fn count_value(number: Option<u64>, numeral: Option<Seq<char>>) -> Option<u32> {
    match number {
        Some(n) if n <= u32::MAX => Some(n as u32),
        _ => match numeral {
            Some(text) => match unsigned_value(text, u32::MAX as nat) {
                Some(n) => Some(n as u32),
                None => None,
            },
            None => None,
        },
    }
}

fn as_u32(count: &ReplyCount) -> (value: Option<u32>)
    ensures
        value == count_value(count.number, option_text(count.numeral)),
{
    if let Some(n) = count.number {
        if n <= 0xFFFF_FFFF {
            return Some(n as u32);
        }
    }
    match &count.numeral {
        Some(text) => match parse_u64(text.as_str()) {
            Some(n) => if n <= 0xFFFF_FFFF {
                Some(n as u32)
            } else {
                None
            },
            None => None,
        },
        None => None,
    }
}

/// The texts of the parts one after the other.
pub open spec fn parts_text(parts: Seq<Option<Seq<char>>>) -> Seq<char>
    decreases parts.len(),
{
    if parts.len() == 0 {
        seq![]
    } else {
        parts_text(parts.drop_last()) + match parts.last() {
            Some(text) => text,
            None => seq![],
        }
    }
}

/// What the content of a reply's message is, with its texts as sequences.
pub enum ContentView {
    Missing,
    Text(Seq<char>),
    Parts(Seq<Option<Seq<char>>>),
    Other,
}

impl ReplyContent {
    pub open spec fn view(&self) -> ContentView {
        match *self {
            ReplyContent::Missing => ContentView::Missing,
            ReplyContent::Text(text) => ContentView::Text(text@),
            ReplyContent::Parts(parts) => ContentView::Parts(
                Seq::new(parts@.len(), |i: int| option_text(parts@[i])),
            ),
            ReplyContent::Other => ContentView::Other,
        }
    }
}

/// The text of a message, from a string or from the texts of its parts.
pub open spec fn content_text(content: ContentView) -> Result<Seq<char>, VcErrorView> {
    let unsupported = Err(
        VcErrorView::plain(
            ErrorCode::LlmInvalidResponse,
            "LLM provider returned unsupported message content"@,
        ),
    );
    match content {
        ContentView::Missing => Err(
            VcErrorView::plain(
                ErrorCode::LlmInvalidResponse,
                "LLM provider response contained no content"@,
            ),
        ),
        ContentView::Text(text) => Ok(text),
        ContentView::Parts(parts) => if parts_text(parts).len() > 0 {
            Ok(parts_text(parts))
        } else {
            unsupported
        },
        ContentView::Other => unsupported,
    }
}

fn content_string(content: ReplyContent) -> (result: VcResult<String>)
    ensures
        match result {
            Ok(text) => content_text(content.view()) == Ok::<Seq<char>, VcErrorView>(text@),
            Err(error) => content_text(content.view()) == Err::<Seq<char>, VcErrorView>(error@),
        },
{
    match content {
        ReplyContent::Missing => {
            return Err(
                VcError::new(
                    ErrorCode::LlmInvalidResponse,
                    "LLM provider response contained no content",
                ),
            );
        },
        ReplyContent::Text(text) => {
            return Ok(text);
        },
        ReplyContent::Parts(parts) => {
            let ghost views = Seq::new(parts@.len(), |i: int| option_text(parts@[i]));
            let mut out = String::new();
            let mut i: usize = 0;
            assert(views.take(0) =~= seq![]);
            while i < parts.len()
                invariant
                    i <= parts.len(),
                    views == Seq::new(parts@.len(), |i: int| option_text(parts@[i])),
                    out@ == parts_text(views.take(i as int)),
                decreases parts.len() - i,
            {
                assert(views.take(i + 1).drop_last() =~= views.take(i as int));
                if let Some(text) = &parts[i] {
                    out.append(text.as_str());
                }
                i += 1;
                assert(out@ =~= parts_text(views.take(i as int)));
            }
            assert(views.take(i as int) =~= views);
            if !out.as_str().is_empty() {
                return Ok(out);
            }
        },
        ReplyContent::Other => {},
    }
    Err(
        VcError::new(
            ErrorCode::LlmInvalidResponse,
            "LLM provider returned unsupported message content",
        ),
    )
}

/// A reply with its texts as sequences.
pub struct ReplyView {
    pub has_choice: bool,
    pub has_message: bool,
    pub content: ContentView,
    pub finish_reason: Option<Seq<char>>,
    pub prompt_tokens: Option<u32>,
    pub completion_tokens: Option<u32>,
}

impl Reply {
    pub open spec fn view(&self) -> ReplyView {
        ReplyView {
            has_choice: self.has_choice,
            has_message: self.has_message,
            content: self.content.view(),
            finish_reason: option_text(self.finish_reason),
            prompt_tokens: count_value(
                self.prompt_tokens.number,
                option_text(self.prompt_tokens.numeral),
            ),
            completion_tokens: count_value(
                self.completion_tokens.number,
                option_text(self.completion_tokens.numeral),
            ),
        }
    }
}

/// A response with its texts as sequences.
pub struct ResponseView {
    pub content: Seq<char>,
    pub finish_reason: Option<Seq<char>>,
    pub prompt_tokens: Option<u32>,
    pub completion_tokens: Option<u32>,
}

impl ChatResponse {
    pub open spec fn view(&self) -> ResponseView {
        ResponseView {
            content: self.content@,
            finish_reason: option_text(self.finish_reason),
            prompt_tokens: self.prompt_tokens,
            completion_tokens: self.completion_tokens,
        }
    }
}

/// What a reply amounts to.
pub open spec fn accepted(reply: ReplyView) -> Result<ResponseView, VcErrorView> {
    if !reply.has_choice {
        Err(
            VcErrorView::plain(
                ErrorCode::LlmInvalidResponse,
                "LLM provider response contained no choices"@,
            ),
        )
    } else if !reply.has_message {
        Err(
            VcErrorView::plain(
                ErrorCode::LlmInvalidResponse,
                "LLM provider response contained no message"@,
            ),
        )
    } else {
        match content_text(reply.content) {
            Err(error) => Err(error),
            Ok(content) => Ok(
                ResponseView {
                    content,
                    finish_reason: reply.finish_reason,
                    prompt_tokens: reply.prompt_tokens,
                    completion_tokens: reply.completion_tokens,
                },
            ),
        }
    }
}

/// A response, or the error in place of it, agrees with `expected`.
pub open spec fn answers(
    result: VcResult<ChatResponse>,
    expected: Result<ResponseView, VcErrorView>,
) -> bool {
    match result {
        Ok(response) => expected == Ok::<ResponseView, VcErrorView>(response.view()),
        Err(error) => expected == Err::<ResponseView, VcErrorView>(error@),
    }
}

/// Decide what a reply amounts to.
pub fn accept_reply(reply: Reply) -> (result: VcResult<ChatResponse>)
    ensures
        answers(result, accepted(reply.view())),
{
    if !reply.has_choice {
        return Err(
            VcError::new(
                ErrorCode::LlmInvalidResponse,
                "LLM provider response contained no choices",
            ),
        );
    }
    if !reply.has_message {
        return Err(
            VcError::new(
                ErrorCode::LlmInvalidResponse,
                "LLM provider response contained no message",
            ),
        );
    }
    let prompt_tokens = as_u32(&reply.prompt_tokens);
    let completion_tokens = as_u32(&reply.completion_tokens);
    let content = match content_string(reply.content) {
        Ok(content) => content,
        Err(error) => {
            return Err(error);
        },
    };
    Ok(
        ChatResponse {
            content,
            finish_reason: reply.finish_reason,
            prompt_tokens,
            completion_tokens,
        },
    )
}

/// Where the text of the `i`-th part of the content stands.
pub open spec fn part_pointer(i: int) -> Seq<char> {
    "/choices/0/message/content/"@ + decimal(i as nat) + "/text"@
}

/// The content of the first message of a document.
pub open spec fn document_content(body: Seq<char>) -> ContentView {
    let place = "/choices/0/message/content"@;
    if !json_present(body, place) {
        ContentView::Missing
    } else if json_text(body, place) is Some {
        ContentView::Text(json_text(body, place)->0)
    } else {
        match json_array_len(body, place) {
            Some(n) => ContentView::Parts(
                Seq::new(n as nat, |i: int| json_text(body, part_pointer(i))),
            ),
            None => ContentView::Other,
        }
    }
}

/// What a document holds at the places that are read.
pub open spec fn document_reply(body: Seq<char>) -> ReplyView {
    ReplyView {
        has_choice: json_array_len(body, "/choices"@) matches Some(n) && n > 0,
        has_message: json_present(body, "/choices/0/message"@),
        content: document_content(body),
        finish_reason: json_text(body, "/choices/0/finish_reason"@),
        prompt_tokens: count_value(
            json_unsigned(body, "/usage/prompt_tokens"@),
            json_text(body, "/usage/prompt_tokens"@),
        ),
        completion_tokens: count_value(
            json_unsigned(body, "/usage/completion_tokens"@),
            json_text(body, "/usage/completion_tokens"@),
        ),
    }
}

fn read_content(body: &str) -> (content: ReplyContent)
    ensures
        content.view() == document_content(body@),
{
    let place = "/choices/0/message/content";
    if !present_at(body, place) {
        return ReplyContent::Missing;
    }
    if let Some(text) = text_at(body, place) {
        return ReplyContent::Text(text);
    }
    match array_len_at(body, place) {
        Some(n) => {
            let mut parts: Vec<Option<String>> = Vec::new();
            let mut i: usize = 0;
            while i < n
                invariant
                    i <= n,
                    parts@.len() == i,
                    forall|k: int|
                        0 <= k < i ==> option_text(#[trigger] parts@[k]) == json_text(
                            body@,
                            part_pointer(k),
                        ),
                decreases n - i,
            {
                let mut pointer = "/choices/0/message/content/".to_owned();
                push_decimal(&mut pointer, i as u64);
                pointer.append("/text");
                assert(pointer@ =~= part_pointer(i as int));
                parts.push(text_at(body, pointer.as_str()));
                i += 1;
            }
            let content = ReplyContent::Parts(parts);
            proof {
                if let ContentView::Parts(views) = content.view() {
                    assert(views =~= Seq::new(
                        n as nat,
                        |i: int| json_text(body@, part_pointer(i)),
                    ));
                }
            }
            content
        },
        None => ReplyContent::Other,
    }
}

/// Read the reply out of the body of a response.
fn read_reply(body: &str) -> (reply: Reply)
    ensures
        reply.view() == document_reply(body@),
{
    let has_choice = match array_len_at(body, "/choices") {
        Some(n) => n > 0,
        None => false,
    };
    let has_message = present_at(body, "/choices/0/message");
    let content = read_content(body);
    let finish_reason = text_at(body, "/choices/0/finish_reason");
    let prompt_tokens = ReplyCount {
        number: unsigned_at(body, "/usage/prompt_tokens"),
        numeral: text_at(body, "/usage/prompt_tokens"),
    };
    let completion_tokens = ReplyCount {
        number: unsigned_at(body, "/usage/completion_tokens"),
        numeral: text_at(body, "/usage/completion_tokens"),
    };
    Reply { has_choice, has_message, content, finish_reason, prompt_tokens, completion_tokens }
}

/// Read the body of a successful response.
pub fn parse_chat_response(body: &str) -> (result: VcResult<ChatResponse>)
    ensures
        answers(
            result,
            if json_document(body@) {
                accepted(document_reply(body@))
            } else {
                Err(
                    VcErrorView::plain(
                        ErrorCode::LlmInvalidResponse,
                        "LLM provider returned invalid JSON"@,
                    ),
                )
            },
        ),
{
    if !is_json(body) {
        return Err(
            VcError::new(ErrorCode::LlmInvalidResponse, "LLM provider returned invalid JSON"),
        );
    }
    accept_reply(read_reply(body))
}

/// The moment that the crate `chrono` reads from a date in the format of
/// electronic mail, in milliseconds of Unix time.
pub uninterp spec fn rfc2822_moment(text: Seq<char>) -> Option<i64>;

/// `chrono::DateTime::parse_from_rfc2822` of the crate `chrono`, with the
/// moment as milliseconds of Unix time.
#[verifier::external_body]
fn parse_date(text: &str) -> (moment_ms: Option<i64>)
    ensures
        moment_ms == rfc2822_moment(text@),
{
    chrono::DateTime::parse_from_rfc2822(text).ok().map(|date| date.timestamp_millis())
}

/// The delay until a moment, none if it has passed.
pub open spec fn delay_until(moment_ms: i64, now_ms: i64) -> u64 {
    if moment_ms > now_ms {
        (moment_ms - now_ms) as u64
    } else {
        0
    }
}

/// The delay that a `Retry-After` header asks for, given what its value is as
/// a date: seconds where the value is a number, otherwise the time until then.
pub open spec fn header_delay(value: Seq<char>, date: Option<i64>, now_ms: i64) -> Option<u64> {
    match unsigned_value(value, u64::MAX as nat) {
        Some(seconds) => Some(
            if seconds * 1000 <= u64::MAX {
                (seconds * 1000) as u64
            } else {
                u64::MAX
            },
        ),
        None => match date {
            Some(moment) => Some(delay_until(moment, now_ms)),
            None => None,
        },
    }
}

/// The delay of a header value whose reading as a date is given.
pub fn delay_of(value: &str, date: Option<i64>, now_ms: i64) -> (delay_ms: Option<u64>)
    ensures
        delay_ms == header_delay(value@, date, now_ms),
{
    if let Some(seconds) = parse_u64(value) {
        let product: u128 = seconds as u128 * 1000;
        if product <= 0xFFFF_FFFF_FFFF_FFFF {
            return Some(product as u64);
        }
        return Some(u64::MAX);
    }
    match date {
        Some(moment) => if moment > now_ms {
            Some((moment as i128 - now_ms as i128) as u64)
        } else {
            Some(0)
        },
        None => None,
    }
}

/// The delay that a `Retry-After` header asks for, if it can be read. The
/// present moment is in milliseconds of Unix time.
pub fn retry_after_ms(header: &str, now_ms: i64) -> (delay_ms: Option<u64>)
    ensures
        delay_ms == header_delay(trimmed(header@), rfc2822_moment(trimmed(header@)), now_ms),
{
    let value = trim(header);
    let date = parse_date(value.as_str());
    delay_of(value.as_str(), date, now_ms)
}

/// The kind of error that an HTTP status stands for.
pub open spec fn status_code(status: u16) -> ErrorCode {
    if status == 401 || status == 403 {
        ErrorCode::LlmAuthFailed
    } else if status == 404 {
        ErrorCode::LlmModelNotFound
    } else if status == 408 || status == 429 {
        ErrorCode::LlmRateLimited
    } else {
        ErrorCode::LlmProviderUnavailable
    }
}

pub fn http_status_error(status: u16, retry_after_ms: Option<u64>) -> (error: VcError)
    ensures
        error@ == (VcErrorView {
            code: status_code(status),
            message: "LLM provider returned HTTP "@ + decimal(status as nat),
            detail: None,
            retry_after_ms,
        }),
{
    let code = match status {
        401 | 403 => ErrorCode::LlmAuthFailed,
        404 => ErrorCode::LlmModelNotFound,
        408 | 429 => ErrorCode::LlmRateLimited,
        _ => ErrorCode::LlmProviderUnavailable,
    };
    let mut text = "LLM provider returned HTTP ".to_owned();
    push_decimal(&mut text, status as u64);
    let error = VcError::new(code, text.as_str());
    match retry_after_ms {
        Some(delay) => error.with_retry_after_ms(delay),
        None => error,
    }
}

/// The address of a request is the base without its last slashes, one slash and
/// the name of the service, which is not written twice.
pub proof fn law_addresses_have_one_slash(base: Seq<char>, slashes: Seq<char>, suffix: Seq<char>)
    requires
        base.len() > 0,
        !whitespace(base[0]),
        !whitespace(base.last()),
        base.last() != '/',
        forall|i: int| 0 <= i < slashes.len() ==> #[trigger] slashes[i] == '/',
    ensures
        plain_base_url(base + slashes) == base,
        has_suffix(base, suffix) ==> endpoint_url(base + slashes, suffix) == base,
        !has_suffix(base, suffix) ==> endpoint_url(base + slashes, suffix) == base + seq!['/']
            + suffix,
{
    reveal_strlit("/");
    assert("/"@ =~= seq!['/']);
    let whole = base + slashes;
    let none = Seq::<char>::empty();
    assert(whole[0] == base[0]);
    assert(!whitespace(whole.last())) by {
        if slashes.len() > 0 {
            assert(whole.last() == slashes[slashes.len() - 1]);
        }
    }
    law_trimming_takes_the_edges(none, whole, none);
    assert(none + whole + none =~= whole);
    lemma_slashes_are_cut(base, slashes);
}

proof fn lemma_slashes_are_cut(base: Seq<char>, slashes: Seq<char>)
    requires
        base.len() > 0,
        base.last() != '/',
        forall|i: int| 0 <= i < slashes.len() ==> #[trigger] slashes[i] == '/',
    ensures
        without_trailing(base + slashes, '/') == base,
    decreases slashes.len(),
{
    if slashes.len() > 0 {
        assert((base + slashes).drop_last() =~= base + slashes.drop_last());
        assert(slashes[slashes.len() - 1] == '/');
        assert forall|i: int| 0 <= i < slashes.drop_last().len() implies #[trigger]
        slashes.drop_last()[i] == '/' by {
            assert(slashes[i] == '/');
        }
        lemma_slashes_are_cut(base, slashes.drop_last());
    } else {
        assert(base + slashes =~= base);
    }
}

/// A rejected key, an unknown model and a provider that is busy are told apart by
/// the status. All else means that the provider cannot be had.
pub proof fn law_statuses_tell_what_is_wrong(status: u16)
    ensures
        status == 401 || status == 403 ==> status_code(status) == ErrorCode::LlmAuthFailed,
        status == 404 ==> status_code(status) == ErrorCode::LlmModelNotFound,
        status == 408 || status == 429 ==> status_code(status) == ErrorCode::LlmRateLimited,
        status != 401 && status != 403 && status != 404 && status != 408 && status != 429
            ==> status_code(status) == ErrorCode::LlmProviderUnavailable,
{
}

/// A wish for a pause in seconds is a pause of as many seconds; one until a date
/// lasts until then, and not at all where the date is over. Other texts are no
/// wish.
pub proof fn law_pauses_are_read(seconds: nat, text: Seq<char>, date: i64, now_ms: i64, other: Option<i64>)
    ensures
        seconds * 1000 <= u64::MAX ==> header_delay(decimal(seconds), other, now_ms) == Some(
            (seconds * 1000) as u64,
        ),
        unsigned_value(text, u64::MAX as nat) is None ==> {
            &&& date > now_ms && date - now_ms <= u64::MAX ==> header_delay(text, Some(date), now_ms)
                == Some((date - now_ms) as u64)
            &&& date <= now_ms ==> header_delay(text, Some(date), now_ms) == Some(0u64)
            &&& header_delay(text, None, now_ms) is None
        },
{
    law_numbers_are_read(text, seconds, u64::MAX as nat, 0);
}

/// A count is taken as a number or as its numeral, where it is small enough.
pub proof fn law_counts_are_read(n: u64, small: nat)
    ensures
        n <= u32::MAX ==> count_value(Some(n), None) == Some(n as u32),
        n > u32::MAX ==> count_value(Some(n), None) is None,
        small <= u32::MAX ==> count_value(None, Some(decimal(small))) == Some(small as u32),
        count_value(None, None) is None,
{
    law_numbers_are_read(seq![], small, u32::MAX as nat, 0);
}

/// A text is taken as it is, and parts are taken one behind the other. A reply
/// without any text is refused.
pub proof fn law_replies_are_taken_as_they_are(
    reply: ReplyView,
    text: Seq<char>,
    parts: Seq<Option<Seq<char>>>,
)
    ensures
        content_text(ContentView::Text(text)) == Ok::<Seq<char>, VcErrorView>(text),
        content_text(ContentView::Missing) is Err,
        content_text(ContentView::Other) is Err,
        parts_text(parts.push(Some(text))) == parts_text(parts) + text,
        parts_text(parts.push(None)) == parts_text(parts),
        parts_text(seq![]) == Seq::<char>::empty(),
        parts_text(parts).len() > 0 ==> content_text(ContentView::Parts(parts)) == Ok::<
            Seq<char>,
            VcErrorView,
        >(parts_text(parts)),
        parts_text(parts).len() == 0 ==> content_text(ContentView::Parts(parts)) is Err,
        accepted(reply) is Ok <==> reply.has_choice && reply.has_message && content_text(
            reply.content,
        ) is Ok,
        accepted(reply) matches Ok(response) ==> content_text(reply.content) == Ok::<
            Seq<char>,
            VcErrorView,
        >(response.content) && response.finish_reason == reply.finish_reason
            && response.prompt_tokens == reply.prompt_tokens && response.completion_tokens
            == reply.completion_tokens,
        accepted(reply) matches Err(error) ==> error.code == ErrorCode::LlmInvalidResponse,
{
    assert(parts.push(Some(text)).drop_last() =~= parts);
    assert(parts.push(None).drop_last() =~= parts);
    assert(parts_text(parts) + Seq::<char>::empty() =~= parts_text(parts));
}

/// What is read of a reply is its first choice and its token counts.
pub proof fn law_the_first_choice_is_read(body: Seq<char>)
    ensures
        ({
            let reply = document_reply(body);
            &&& reply.has_choice <==> (json_array_len(body, "/choices"@) matches Some(n) && n > 0)
            &&& reply.has_message == json_present(body, "/choices/0/message"@)
            &&& reply.finish_reason == json_text(body, "/choices/0/finish_reason"@)
            &&& json_text(body, "/choices/0/message/content"@) matches Some(text) ==> json_present(
                body,
                "/choices/0/message/content"@,
            ) ==> reply.content == ContentView::Text(text)
            &&& json_unsigned(body, "/usage/prompt_tokens"@) matches Some(n) ==> n <= u32::MAX
                ==> reply.prompt_tokens == Some(n as u32)
            &&& json_unsigned(body, "/usage/completion_tokens"@) matches Some(n) ==> n <= u32::MAX
                ==> reply.completion_tokens == Some(n as u32)
        }),
{
}

/// A schema is sent where the mode wants one and there is one; JSON is asked for
/// in the modes that want it; the prompt alone asks only where it is told to.
pub proof fn law_formats_follow_the_mode(
    mode: StructuredMode,
    schema: Option<Seq<char>>,
    json_wanted: Option<bool>,
)
    ensures
        ({
            let asked = response_format(mode, schema, json_wanted);
            let plain = object(seq![member("type"@, "\"json_object\""@)]);
            &&& mode == StructuredMode::JsonObject ==> asked == Some(plain)
            &&& mode == StructuredMode::JsonSchema && schema is None ==> asked == Some(plain)
            &&& mode == StructuredMode::JsonSchema ==> (schema matches Some(text) ==> asked == Some(
                object(
                    seq![
                        member(
                            "json_schema"@,
                            object(
                                seq![
                                    member("name"@, "\"videocaptionerr_response\""@),
                                    member("schema"@, text),
                                    member("strict"@, "true"@),
                                ],
                            ),
                        ),
                        member("type"@, "\"json_schema\""@),
                    ],
                ),
            ))
            &&& mode == StructuredMode::PromptOnly && json_wanted == Some(true) ==> asked == Some(
                plain,
            )
            &&& mode == StructuredMode::PromptOnly && json_wanted != Some(true) ==> asked is None
        }),
{
}

/// The body names the model and the messages, and each option that is set.
pub proof fn law_bodies_name_what_is_set(
    model: Seq<char>,
    messages: Seq<Seq<char>>,
    request: ChatRequest,
    effective: StructuredMode,
)
    ensures
        ({
            let parts = body_members(model, messages, request, effective);
            &&& parts.contains(member("model"@, model))
            &&& parts.contains(member("messages"@, "["@ + joined_with(messages, ","@) + "]"@))
            &&& request.max_tokens matches Some(n) ==> parts.contains(
                member("max_tokens"@, decimal(n as nat)),
            )
            &&& request.seed matches Some(n) ==> parts.contains(
                member("seed"@, signed_decimal(n as int)),
            )
            &&& request.temperature matches Some(t) ==> parts.contains(member("temperature"@, t@))
            &&& parts.len() == 2 + (if request.max_tokens is Some {
                1int
            } else {
                0
            }) + (if request.seed is Some {
                1int
            } else {
                0
            }) + (if request.temperature is Some {
                1int
            } else {
                0
            }) + (if response_format(
                mode_of(request, effective),
                option_text(request.response_schema),
                request.response_format_json,
            ) is Some {
                1int
            } else {
                0
            })
            &&& request.structured_mode matches Some(mode) ==> mode_of(request, effective) == mode
            &&& request.structured_mode is None ==> mode_of(request, effective) == effective
        }),
{
    let parts = body_members(model, messages, request, effective);
    let a: int = if request.max_tokens is Some {
        1
    } else {
        0
    };
    let f: int = if response_format(
        mode_of(request, effective),
        option_text(request.response_schema),
        request.response_format_json,
    ) is Some {
        1
    } else {
        0
    };
    let s: int = if request.seed is Some {
        1
    } else {
        0
    };
    if let Some(n) = request.max_tokens {
        assert(parts[0] == member("max_tokens"@, decimal(n as nat)));
    }
    assert(parts[a] == member("messages"@, "["@ + joined_with(messages, ","@) + "]"@));
    assert(parts[a + 1] == member("model"@, model));
    if let Some(n) = request.seed {
        assert(parts[a + 2 + f] == member("seed"@, signed_decimal(n as int)));
    }
    if let Some(t) = request.temperature {
        assert(parts[a + 2 + f + s] == member("temperature"@, t@));
    }
}

/// Messages are sent with their role and content, in their order.
pub proof fn law_messages_are_sent_in_order(messages: Seq<ChatMessage>, i: int)
    requires
        0 <= i < messages.len(),
    ensures
        message_objects(messages).len() == messages.len(),
        messages[i].role == Role::System ==> message_objects(messages)[i] == object(
            seq![
                member("content"@, json_quoted(messages[i].content@)),
                member("role"@, "\"system\""@),
            ],
        ),
        messages[i].role == Role::User ==> message_objects(messages)[i] == object(
            seq![
                member("content"@, json_quoted(messages[i].content@)),
                member("role"@, "\"user\""@),
            ],
        ),
        messages[i].role == Role::Assistant ==> message_objects(messages)[i] == object(
            seq![
                member("content"@, json_quoted(messages[i].content@)),
                member("role"@, "\"assistant\""@),
            ],
        ),
{
}

/// A content in parts is read part by part, in their order.
pub proof fn law_parts_are_read_in_order(body: Seq<char>, n: usize, i: int)
    requires
        json_present(body, "/choices/0/message/content"@),
        json_text(body, "/choices/0/message/content"@) is None,
    ensures
        json_array_len(body, "/choices/0/message/content"@) == Some(n) ==> {
            &&& document_content(body) matches ContentView::Parts(parts)
            &&& parts.len() == n
            &&& 0 <= i < n ==> parts[i] == json_text(
                body,
                "/choices/0/message/content/"@ + decimal(i as nat) + "/text"@,
            )
        },
        json_array_len(body, "/choices/0/message/content"@) is None ==> document_content(body)
            == ContentView::Other,
{
}

} // verus!
