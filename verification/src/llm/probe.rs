//! Finding out what a provider can do. Probes are small requests that try one
//! feature each; limits are never found by sending too much.
use vstd::prelude::*;
use vstd::string::*;

use crate::hash::{text_hash, text_identity};
use crate::text::{decimal, push_decimal, same_text, strip_trailing, text_views, without_trailing};

use super::provider::{
    ChatMessage, ChatRequest, ProviderCapabilities, StructuredMode, CAPABILITY_PROBE_VERSION,
};

verus! {

/// How long a probe may take, in milliseconds.
pub const PROBE_TIMEOUT_MS: u64 = 30_000;

/// What is probed.
#[derive(Debug, PartialEq, Eq)]
pub struct ProbeConfig {
    pub provider_profile_id: String,
    pub profile_revision: u64,
    pub base_url: String,
    pub api_key: String,
    pub model: String,
    pub timeout_ms: u64,
    /// Set by hand: wins over what is detected, and is no part of the identity.
    pub manual_override: Option<ProviderCapabilities>,
}

impl Clone for ProbeConfig {
    fn clone(&self) -> (copy: Self)
        ensures
            copy == *self,
    {
        ProbeConfig {
            provider_profile_id: self.provider_profile_id.clone(),
            profile_revision: self.profile_revision,
            base_url: self.base_url.clone(),
            api_key: self.api_key.clone(),
            model: self.model.clone(),
            timeout_ms: self.timeout_ms,
            manual_override: self.manual_override,
        }
    }
}

impl ProbeConfig {
    pub fn new(
        provider_profile_id: &str,
        profile_revision: u64,
        base_url: &str,
        api_key: &str,
        model: &str,
    ) -> (config: Self)
        ensures
            config.provider_profile_id@ == provider_profile_id@,
            config.profile_revision == profile_revision,
            config.base_url@ == base_url@,
            config.api_key@ == api_key@,
            config.model@ == model@,
            config.timeout_ms == PROBE_TIMEOUT_MS,
            config.manual_override is None,
    {
        ProbeConfig {
            provider_profile_id: provider_profile_id.to_owned(),
            profile_revision,
            base_url: base_url.to_owned(),
            api_key: api_key.to_owned(),
            model: model.to_owned(),
            timeout_ms: PROBE_TIMEOUT_MS,
            manual_override: None,
        }
    }

    /// The text that identifies what is probed: address, model, profile and
    /// its revision, and the version of the probe. The key is left out; a new
    /// key comes with a new revision.
    pub open spec fn identity(self) -> Seq<char> {
        without_trailing(self.base_url@, '/') + "\n"@ + self.model@ + "\n"@
            + self.provider_profile_id@ + "\n"@ + decimal(self.profile_revision as nat) + "\n"@
            + decimal(CAPABILITY_PROBE_VERSION as nat)
    }

    /// The key under which a result is cached.
    pub open spec fn cache_identity(self) -> Seq<char> {
        text_identity(self.identity())
    }
}

/// The text that identifies what is probed.
pub fn probe_identity(config: &ProbeConfig) -> (text: String)
    ensures
        text@ == config.identity(),
{
    let mut text = strip_trailing(config.base_url.as_str(), '/');
    text.append("\n");
    text.append(config.model.as_str());
    text.append("\n");
    text.append(config.provider_profile_id.as_str());
    text.append("\n");
    push_decimal(&mut text, config.profile_revision);
    text.append("\n");
    push_decimal(&mut text, CAPABILITY_PROBE_VERSION as u64);
    text
}

fn probe_hash(config: &ProbeConfig) -> (hash: String)
    ensures
        hash@ == config.cache_identity(),
{
    let identity = probe_identity(config);
    text_hash(identity.as_str())
}

/// What a probe has found.
#[derive(Debug, PartialEq, Eq)]
pub struct ProbeResult {
    pub probe_version: u32,
    pub provider_profile_id: String,
    pub profile_revision: u64,
    pub base_url: String,
    pub model: String,
    pub probe_hash: String,
    pub capabilities: ProviderCapabilities,
    pub warnings: Vec<String>,
}

impl ProbeResult {
    pub fn cache_key(&self) -> (key: String)
        ensures
            key == self.probe_hash,
    {
        self.probe_hash.clone()
    }
}

/// Results by their keys, each key once.
#[derive(Debug, PartialEq, Eq)]
pub struct CapabilityCache {
    entries: Vec<ProbeResult>,
}

/// The position of the result under `key`, from `from` on.
pub open spec fn entry_position(entries: Seq<ProbeResult>, key: Seq<char>, from: int) -> Option<int>
    decreases entries.len() - from,
{
    if from < 0 || from >= entries.len() {
        None
    } else if entries[from].probe_hash@ == key {
        Some(from)
    } else {
        entry_position(entries, key, from + 1)
    }
}

/// The results with one more, which takes the place of one under its key.
pub open spec fn with_entry(entries: Seq<ProbeResult>, result: ProbeResult) -> Seq<ProbeResult> {
    match entry_position(entries, result.probe_hash@, 0) {
        Some(p) => entries.update(p, result),
        None => entries.push(result),
    }
}

/// No key occurs twice.
pub open spec fn keys_differ(entries: Seq<ProbeResult>) -> bool {
    forall|i: int, j: int|
        0 <= i < j < entries.len() ==> (#[trigger] entries[i]).probe_hash@ != (
        #[trigger] entries[j]).probe_hash@
}

impl View for CapabilityCache {
    type V = Seq<ProbeResult>;

    closed spec fn view(&self) -> Seq<ProbeResult> {
        self.entries@
    }
}

impl Default for CapabilityCache {
    fn default() -> (cache: Self)
        ensures
            cache@ == Seq::<ProbeResult>::empty(),
    {
        CapabilityCache { entries: Vec::new() }
    }
}

impl CapabilityCache {
    fn position(&self, key: &str) -> (found: Option<usize>)
        ensures
            match found {
                Some(p) => p < self@.len() && entry_position(self@, key@, 0) == Some(p as int),
                None => entry_position(self@, key@, 0) is None,
            },
    {
        let mut i: usize = 0;
        while i < self.entries.len()
            invariant
                i <= self.entries.len(),
                entry_position(self@, key@, 0) == entry_position(self@, key@, i as int),
            decreases self.entries.len() - i,
        {
            if same_text(self.entries[i].probe_hash.as_str(), key) {
                return Some(i);
            }
            i += 1;
        }
        None
    }

    /// The result under the identity of `config`.
    pub fn get(&self, config: &ProbeConfig) -> (result: Option<&ProbeResult>)
        ensures
            match result {
                Some(result) => entry_position(self@, config.cache_identity(), 0) matches Some(p)
                    && *result == self@[p],
                None => entry_position(self@, config.cache_identity(), 0) is None,
            },
    {
        let key = probe_hash(config);
        match self.position(key.as_str()) {
            Some(p) => Some(&self.entries[p]),
            None => None,
        }
    }

    pub fn insert(&mut self, result: ProbeResult)
        ensures
            final(self)@ == with_entry(old(self)@, result),
    {
        match self.position(result.probe_hash.as_str()) {
            Some(p) => {
                self.entries.set(p, result);
            },
            None => {
                self.entries.push(result);
            },
        }
    }

    pub fn len(&self) -> (len: usize)
        ensures
            len == self@.len(),
    {
        self.entries.len()
    }

    pub fn is_empty(&self) -> (answer: bool)
        ensures
            answer == (self@.len() == 0),
    {
        self.entries.len() == 0
    }
}

proof fn lemma_entry_position(entries: Seq<ProbeResult>, key: Seq<char>, from: int)
    requires
        0 <= from,
    ensures
        match entry_position(entries, key, from) {
            Some(p) => from <= p < entries.len() && entries[p].probe_hash@ == key,
            None => forall|k: int|
                from <= k < entries.len() ==> (#[trigger] entries[k]).probe_hash@ != key,
        },
    decreases entries.len() - from,
{
    if from < entries.len() {
        lemma_entry_position(entries, key, from + 1);
    }
}

/// What was put into the cache last under a key is what is found there, and
/// every other key finds what it found before.
pub proof fn law_cache_gives_back_what_was_put(
    entries: Seq<ProbeResult>,
    result: ProbeResult,
    other: Seq<char>,
)
    requires
        keys_differ(entries),
        other != result.probe_hash@,
    ensures
        keys_differ(with_entry(entries, result)),
        entry_position(with_entry(entries, result), result.probe_hash@, 0) matches Some(p)
            && with_entry(entries, result)[p] == result,
        entry_position(with_entry(entries, result), other, 0) matches Some(p)
            ==> entry_position(entries, other, 0) == Some(p) && with_entry(entries, result)[p]
            == entries[p],
        entry_position(entries, other, 0) is Some ==> entry_position(
            with_entry(entries, result),
            other,
            0,
        ) is Some,
{
    let after = with_entry(entries, result);
    let key = result.probe_hash@;
    lemma_entry_position(entries, key, 0);
    lemma_entry_position(after, key, 0);
    lemma_entry_position(entries, other, 0);
    lemma_entry_position(after, other, 0);
    match entry_position(entries, key, 0) {
        Some(p) => {
            assert(after[p].probe_hash@ == key);
        },
        None => {
            assert(after[after.len() - 1].probe_hash@ == key);
        },
    }
    if let Some(p) = entry_position(entries, other, 0) {
        assert(after[p] == entries[p]);
    }
}

/// Nothing but address, model, profile and revision decides on the key; the
/// secret, the timeout and settings by hand do not, nor does a slash at the end
/// of the address.
pub proof fn law_cache_key_excludes_secret(a: ProbeConfig, b: ProbeConfig)
    requires
        without_trailing(a.base_url@, '/') == without_trailing(b.base_url@, '/'),
        a.model@ == b.model@,
        a.provider_profile_id@ == b.provider_profile_id@,
        a.profile_revision == b.profile_revision,
    ensures
        a.cache_identity() == b.cache_identity(),
{
}

/// Where a probe stands.
#[derive(Debug, Clone, Copy, PartialEq, Eq, Structural)]
pub enum ProbeStep {
    /// A plain request: address, key and model are accepted.
    Basic,
    /// A request with a schema.
    Schema,
    /// A request for a JSON object.
    JsonObject,
    /// A request with a seed.
    Seed,
    /// The list of models.
    Models,
    Done,
    /// The plain request failed; there is no result.
    Failed,
}

/// What came of asking for the list of models.
#[derive(Debug, Clone, Copy, PartialEq, Eq, Structural)]
pub enum ModelList {
    Listed,
    Refused,
    Unreachable,
}

/// What came of the last action.
#[derive(Debug, Clone, Copy, PartialEq, Eq, Structural)]
pub enum ProbeEvent {
    /// A chat request was answered, with or without token counts.
    Answered { usage: bool },
    /// A chat request failed.
    Refused,
    Models(ModelList),
}

/// What to do next.
#[derive(Debug, PartialEq, Eq)]
pub enum ProbeAction {
    Chat(ChatRequest),
    ListModels,
    Stop,
}

/// A probe and its settings.
#[derive(Debug, PartialEq, Eq)]
pub struct CapabilityProbe {
    config: ProbeConfig,
    step: ProbeStep,
    capabilities: ProviderCapabilities,
    warnings: Vec<String>,
}

/// How far a probe has come.
#[verifier::ext_equal]
pub struct ProbeView {
    pub config: ProbeConfig,
    pub step: ProbeStep,
    pub capabilities: ProviderCapabilities,
    pub warnings: Seq<Seq<char>>,
}

impl View for CapabilityProbe {
    type V = ProbeView;

    closed spec fn view(&self) -> ProbeView {
        ProbeView {
            config: self.config,
            step: self.step,
            capabilities: self.capabilities,
            warnings: text_views(self.warnings@),
        }
    }
}

impl ProbeView {
    pub open spec fn begin(config: ProbeConfig) -> ProbeView {
        ProbeView {
            config,
            step: ProbeStep::Basic,
            capabilities: ProviderCapabilities::conservative(),
            warnings: seq![],
        }
    }

    pub open spec fn warned(self, warning: Seq<char>) -> ProbeView {
        ProbeView { warnings: self.warnings.push(warning), ..self }
    }

    pub open spec fn at(self, step: ProbeStep) -> ProbeView {
        ProbeView { step, ..self }
    }

    /// The probe after an event. An event that does not answer the step that
    /// the probe is at changes nothing.
    pub open spec fn after(self, event: ProbeEvent) -> ProbeView {
        match (self.step, event) {
            (ProbeStep::Basic, ProbeEvent::Answered { usage }) => ProbeView {
                capabilities: ProviderCapabilities { returns_usage: usage, ..self.capabilities },
                ..self.at(ProbeStep::Schema)
            },
            (ProbeStep::Basic, ProbeEvent::Refused) => self.at(ProbeStep::Failed),
            (ProbeStep::Schema, ProbeEvent::Answered { .. }) => ProbeView {
                capabilities: ProviderCapabilities { json_schema: true, ..self.capabilities },
                ..self.at(ProbeStep::Seed)
            },
            (ProbeStep::Schema, ProbeEvent::Refused) => self.at(ProbeStep::JsonObject),
            (ProbeStep::JsonObject, ProbeEvent::Answered { .. }) => ProbeView {
                capabilities: ProviderCapabilities { json_mode: true, ..self.capabilities },
                ..self.at(ProbeStep::Seed)
            },
            (ProbeStep::JsonObject, ProbeEvent::Refused) => self.at(ProbeStep::Seed).warned(
                "structured JSON output is unavailable; using prompt-only JSON"@,
            ),
            (ProbeStep::Seed, ProbeEvent::Answered { .. }) => ProbeView {
                capabilities: ProviderCapabilities { seed: true, ..self.capabilities },
                ..self.at(ProbeStep::Models)
            },
            (ProbeStep::Seed, ProbeEvent::Refused) => self.at(ProbeStep::Models).warned(
                "seed parameter is unavailable"@,
            ),
            (ProbeStep::Models, ProbeEvent::Models(ModelList::Listed)) => ProbeView {
                capabilities: ProviderCapabilities {
                    supports_model_list: true,
                    ..self.capabilities
                },
                ..self.at(ProbeStep::Done)
            },
            (ProbeStep::Models, ProbeEvent::Models(ModelList::Refused)) => self.at(
                ProbeStep::Done,
            ).warned("model-list endpoint is unavailable"@),
            (ProbeStep::Models, ProbeEvent::Models(ModelList::Unreachable)) => self.at(
                ProbeStep::Done,
            ).warned("model-list endpoint could not be reached"@),
            _ => self,
        }
    }

    /// The capabilities that the probe reports: those set by hand, otherwise
    /// what was seen.
    pub open spec fn reported(self) -> ProviderCapabilities {
        match self.config.manual_override {
            Some(set) => ProviderCapabilities { manual_override: true, ..set },
            None => ProviderCapabilities {
                structured_mode: self.capabilities.effective_mode(),
                ..self.capabilities
            },
        }
    }
}

/// The schema that probes ask for.
pub open spec fn probe_schema() -> Seq<char> {
    "{\"additionalProperties\":false,\"properties\":{\"ok\":{\"type\":\"boolean\"}},\"required\":[\"ok\"],\"type\":\"object\"}"@
}

/// `request` is a probe of `model`.
pub open spec fn is_probe_request(
    request: ChatRequest,
    model: Seq<char>,
    mode: StructuredMode,
    schema: Option<Seq<char>>,
    seed: Option<i64>,
) -> bool {
    &&& request.model@ == model
    &&& request.messages@.len() == 1
    &&& request.messages@[0].role == super::provider::Role::User
    &&& request.messages@[0].content@ == "Reply with a minimal JSON object: {\"ok\":true}."@
    &&& request.temperature matches Some(t) && t@ == "0.0"@
    &&& request.max_tokens == Some(16u32)
    &&& request.response_format_json is None
    &&& request.seed == seed
    &&& request.structured_mode == Some(mode)
    &&& crate::contracts::option_text(request.response_schema) == schema
}

fn probe_request(model: &str, mode: StructuredMode, schema: Option<String>, seed: Option<i64>) -> (request:
    ChatRequest)
    ensures
        is_probe_request(
            request,
            model@,
            mode,
            crate::contracts::option_text(schema),
            seed,
        ),
{
    let mut messages: Vec<ChatMessage> = Vec::new();
    messages.push(ChatMessage::user("Reply with a minimal JSON object: {\"ok\":true}."));
    ChatRequest {
        model: model.to_owned(),
        messages,
        temperature: Some("0.0".to_owned()),
        max_tokens: Some(16),
        response_format_json: None,
        seed,
        structured_mode: Some(mode),
        response_schema: schema,
    }
}

impl CapabilityProbe {
    pub fn new(config: ProbeConfig) -> (probe: Self)
        ensures
            probe@ == ProbeView::begin(config),
    {
        let probe = CapabilityProbe {
            config,
            step: ProbeStep::Basic,
            capabilities: ProviderCapabilities::conservative_default(),
            warnings: Vec::new(),
        };
        assert(probe@.warnings =~= seq![]);
        probe
    }

    pub fn cache_key(&self) -> (key: String)
        ensures
            key@ == self@.config.cache_identity(),
    {
        probe_hash(&self.config)
    }

    /// The next thing to do.
    pub fn action(&self) -> (action: ProbeAction)
        ensures
            match self@.step {
                ProbeStep::Basic => action matches ProbeAction::Chat(request) && is_probe_request(
                    request,
                    self@.config.model@,
                    StructuredMode::PromptOnly,
                    None,
                    None,
                ),
                ProbeStep::Schema => action matches ProbeAction::Chat(request) && is_probe_request(
                    request,
                    self@.config.model@,
                    StructuredMode::JsonSchema,
                    Some(probe_schema()),
                    None,
                ),
                ProbeStep::JsonObject => action matches ProbeAction::Chat(request)
                    && is_probe_request(
                    request,
                    self@.config.model@,
                    StructuredMode::JsonObject,
                    None,
                    None,
                ),
                ProbeStep::Seed => action matches ProbeAction::Chat(request) && is_probe_request(
                    request,
                    self@.config.model@,
                    StructuredMode::PromptOnly,
                    None,
                    Some(7i64),
                ),
                ProbeStep::Models => action == ProbeAction::ListModels,
                ProbeStep::Done | ProbeStep::Failed => action == ProbeAction::Stop,
            },
    {
        let model = self.config.model.as_str();
        match self.step {
            ProbeStep::Basic => ProbeAction::Chat(
                probe_request(model, StructuredMode::PromptOnly, None, None),
            ),
            ProbeStep::Schema => {
                let schema =
                    "{\"additionalProperties\":false,\"properties\":{\"ok\":{\"type\":\"boolean\"}},\"required\":[\"ok\"],\"type\":\"object\"}";
                ProbeAction::Chat(
                    probe_request(model, StructuredMode::JsonSchema, Some(schema.to_owned()), None),
                )
            },
            ProbeStep::JsonObject => ProbeAction::Chat(
                probe_request(model, StructuredMode::JsonObject, None, None),
            ),
            ProbeStep::Seed => ProbeAction::Chat(
                probe_request(model, StructuredMode::PromptOnly, None, Some(7)),
            ),
            ProbeStep::Models => ProbeAction::ListModels,
            ProbeStep::Done | ProbeStep::Failed => ProbeAction::Stop,
        }
    }

    fn warn(&mut self, warning: &str)
        ensures
            final(self)@ == old(self)@.warned(warning@),
    {
        let ghost before = self.warnings@;
        self.warnings.push(warning.to_owned());
        assert(text_views(self.warnings@) =~= text_views(before).push(warning@));
    }

    /// Take note of what came of the last action.
    pub fn record(&mut self, event: ProbeEvent)
        ensures
            final(self)@ == old(self)@.after(event),
    {
        match (self.step, event) {
            (ProbeStep::Basic, ProbeEvent::Answered { usage }) => {
                self.capabilities.returns_usage = usage;
                self.step = ProbeStep::Schema;
            },
            (ProbeStep::Basic, ProbeEvent::Refused) => {
                self.step = ProbeStep::Failed;
            },
            (ProbeStep::Schema, ProbeEvent::Answered { .. }) => {
                self.capabilities.json_schema = true;
                self.step = ProbeStep::Seed;
            },
            (ProbeStep::Schema, ProbeEvent::Refused) => {
                self.step = ProbeStep::JsonObject;
            },
            (ProbeStep::JsonObject, ProbeEvent::Answered { .. }) => {
                self.capabilities.json_mode = true;
                self.step = ProbeStep::Seed;
            },
            (ProbeStep::JsonObject, ProbeEvent::Refused) => {
                self.step = ProbeStep::Seed;
                self.warn("structured JSON output is unavailable; using prompt-only JSON");
            },
            (ProbeStep::Seed, ProbeEvent::Answered { .. }) => {
                self.capabilities.seed = true;
                self.step = ProbeStep::Models;
            },
            (ProbeStep::Seed, ProbeEvent::Refused) => {
                self.step = ProbeStep::Models;
                self.warn("seed parameter is unavailable");
            },
            (ProbeStep::Models, ProbeEvent::Models(ModelList::Listed)) => {
                self.capabilities.supports_model_list = true;
                self.step = ProbeStep::Done;
            },
            (ProbeStep::Models, ProbeEvent::Models(ModelList::Refused)) => {
                self.step = ProbeStep::Done;
                self.warn("model-list endpoint is unavailable");
            },
            (ProbeStep::Models, ProbeEvent::Models(ModelList::Unreachable)) => {
                self.step = ProbeStep::Done;
                self.warn("model-list endpoint could not be reached");
            },
            _ => {},
        }
    }

    /// The result, once the probe is done.
    pub fn result(self) -> (result: Option<ProbeResult>)
        ensures
            match result {
                Some(result) => {
                    &&& self@.step == ProbeStep::Done
                    &&& result.probe_version == CAPABILITY_PROBE_VERSION
                    &&& result.provider_profile_id == self@.config.provider_profile_id
                    &&& result.profile_revision == self@.config.profile_revision
                    &&& result.base_url@ == without_trailing(self@.config.base_url@, '/')
                    &&& result.model == self@.config.model
                    &&& result.probe_hash@ == self@.config.cache_identity()
                    &&& result.capabilities == self@.reported()
                    &&& text_views(result.warnings@) == self@.warnings
                },
                None => self@.step != ProbeStep::Done,
            },
    {
        if self.step != ProbeStep::Done {
            return None;
        }
        let mut capabilities = self.capabilities;
        capabilities.structured_mode = capabilities.effective_structured_mode();
        if let Some(set) = self.config.manual_override {
            capabilities = set;
            capabilities.manual_override = true;
        }
        let hash = probe_hash(&self.config);
        let base_url = strip_trailing(self.config.base_url.as_str(), '/');
        Some(
            ProbeResult {
                probe_version: CAPABILITY_PROBE_VERSION,
                provider_profile_id: self.config.provider_profile_id,
                profile_revision: self.config.profile_revision,
                base_url,
                model: self.config.model,
                probe_hash: hash,
                capabilities,
                warnings: self.warnings,
            },
        )
    }
}

/// An answer to a chat request, or a refusal.
pub open spec fn answer(ok: bool) -> ProbeEvent {
    if ok {
        ProbeEvent::Answered { usage: false }
    } else {
        ProbeEvent::Refused
    }
}

/// A probe whose plain request is answered always comes to its end, and what
/// it reports is what was seen. The request for a JSON object is made only
/// where the one with a schema was refused.
pub proof fn law_probe_reports_what_was_seen(
    config: ProbeConfig,
    usage: bool,
    schema: bool,
    json_object: bool,
    seed: bool,
    models: ModelList,
)
    ensures
        ({
            let basic = ProbeView::begin(config).after(ProbeEvent::Answered { usage });
            let structured = if schema {
                basic.after(answer(true))
            } else {
                basic.after(answer(false)).after(answer(json_object))
            };
            let end = structured.after(answer(seed)).after(ProbeEvent::Models(models));
            &&& end.step == ProbeStep::Done
            &&& end.config == config
            &&& end.capabilities == ProviderCapabilities {
                returns_usage: usage,
                json_schema: schema,
                json_mode: !schema && json_object,
                seed,
                supports_model_list: models == ModelList::Listed,
                ..ProviderCapabilities::conservative()
            }
        }),
{
}

/// Settings by hand win over whatever was seen.
pub proof fn law_manual_override_wins(probe: ProbeView, set: ProviderCapabilities)
    requires
        probe.config.manual_override == Some(set),
    ensures
        probe.reported() == (ProviderCapabilities { manual_override: true, ..set }),
        probe.reported().effective_mode() == set.structured_mode,
{
}

/// Each step of a probe learns one thing: token counts from the plain request,
/// schemas, JSON objects where schemas are refused, seeds, and the model list. A
/// plain request that is refused ends the probe.
pub proof fn law_each_step_learns_one_thing(probe: ProbeView, usage: bool)
    ensures
        probe.step == ProbeStep::Basic ==> {
            let after = probe.after(ProbeEvent::Answered { usage });
            &&& after.step == ProbeStep::Schema
            &&& after.capabilities == (ProviderCapabilities {
                returns_usage: usage,
                ..probe.capabilities
            })
            &&& probe.after(ProbeEvent::Refused).step == ProbeStep::Failed
        },
        probe.step == ProbeStep::Schema ==> {
            let after = probe.after(ProbeEvent::Answered { usage });
            &&& after.step == ProbeStep::Seed
            &&& after.capabilities == (ProviderCapabilities {
                json_schema: true,
                ..probe.capabilities
            })
            &&& probe.after(ProbeEvent::Refused).step == ProbeStep::JsonObject
            &&& probe.after(ProbeEvent::Refused).capabilities == probe.capabilities
        },
        probe.step == ProbeStep::JsonObject ==> {
            let after = probe.after(ProbeEvent::Answered { usage });
            &&& after.step == ProbeStep::Seed
            &&& after.capabilities == (ProviderCapabilities {
                json_mode: true,
                ..probe.capabilities
            })
            &&& probe.after(ProbeEvent::Refused).step == ProbeStep::Seed
            &&& probe.after(ProbeEvent::Refused).capabilities == probe.capabilities
            &&& probe.after(ProbeEvent::Refused).warnings == probe.warnings.push(
                "structured JSON output is unavailable; using prompt-only JSON"@,
            )
        },
        probe.step == ProbeStep::Seed ==> {
            let after = probe.after(ProbeEvent::Answered { usage });
            &&& after.step == ProbeStep::Models
            &&& after.capabilities == (ProviderCapabilities { seed: true, ..probe.capabilities })
            &&& probe.after(ProbeEvent::Refused).step == ProbeStep::Models
            &&& probe.after(ProbeEvent::Refused).capabilities == probe.capabilities
            &&& probe.after(ProbeEvent::Refused).warnings == probe.warnings.push(
                "seed parameter is unavailable"@,
            )
        },
        probe.step == ProbeStep::Models ==> {
            let after = probe.after(ProbeEvent::Models(ModelList::Listed));
            &&& after.step == ProbeStep::Done
            &&& after.capabilities == (ProviderCapabilities {
                supports_model_list: true,
                ..probe.capabilities
            })
            &&& after.warnings == probe.warnings
            &&& probe.after(ProbeEvent::Models(ModelList::Refused)).step == ProbeStep::Done
            &&& probe.after(ProbeEvent::Models(ModelList::Refused)).capabilities
                == probe.capabilities
            &&& probe.after(ProbeEvent::Models(ModelList::Refused)).warnings == probe.warnings.push(
                "model-list endpoint is unavailable"@,
            )
            &&& probe.after(ProbeEvent::Models(ModelList::Unreachable)).warnings
                == probe.warnings.push("model-list endpoint could not be reached"@)
            &&& probe.after(ProbeEvent::Models(ModelList::Unreachable)).step == ProbeStep::Done
            &&& probe.after(ProbeEvent::Models(ModelList::Unreachable)).capabilities
                == probe.capabilities
        },
{
}

/// A probe starts from what every provider can do.
pub proof fn law_probes_start_with_little(config: ProbeConfig)
    ensures
        ({
            let probe = ProbeView::begin(config);
            &&& probe.step == ProbeStep::Basic && probe.config == config
            &&& !probe.capabilities.json_mode && !probe.capabilities.json_schema
                && !probe.capabilities.seed && !probe.capabilities.returns_usage
                && !probe.capabilities.supports_model_list && !probe.capabilities.tools
                && !probe.capabilities.vision && !probe.capabilities.manual_override
            &&& probe.capabilities.max_context_tokens == Some(8192u32)
            &&& probe.capabilities.max_output_tokens == Some(2048u32)
            &&& probe.warnings.len() == 0
        }),
{
}

/// What was found is kept under the address without its last slashes, the model,
/// the profile and its revision.
pub proof fn law_probes_are_kept_by_what_they_asked(config: ProbeConfig)
    ensures
        config.cache_identity() == text_identity(
            without_trailing(config.base_url@, '/') + "\n"@ + config.model@ + "\n"@
                + config.provider_profile_id@ + "\n"@ + decimal(config.profile_revision as nat)
                + "\n"@ + decimal(1),
        ),
{
}

/// A probe asks for next to nothing: one short message, few tokens, no chance,
/// and the mode that is to be tried.
pub proof fn law_probes_ask_for_little(
    request: ChatRequest,
    model: Seq<char>,
    mode: StructuredMode,
    schema: Option<Seq<char>>,
    seed: Option<i64>,
)
    requires
        is_probe_request(request, model, mode, schema, seed),
    ensures
        request.model@ == model && request.structured_mode == Some(mode) && request.seed == seed,
        request.messages@.len() == 1 && request.messages@[0].role == super::provider::Role::User,
        request.messages@[0].content@ == "Reply with a minimal JSON object: {\"ok\":true}."@,
        request.max_tokens == Some(16u32),
        request.temperature matches Some(t) && t@ == "0.0"@,
        request.response_format_json is None,
        match (request.response_schema, schema) {
            (Some(a), Some(b)) => a@ == b,
            (None, None) => true,
            _ => false,
        },
{
}

} // verus!
