//! Built-in provider templates. They prefill settings and promise nothing of
//! what a provider can do.
use vstd::prelude::*;
use vstd::string::*;

use super::provider::{ProviderCapabilities, StructuredMode};
use crate::text::{lower, same_text, to_lower};

verus! {

#[derive(Debug, Clone, Copy, PartialEq, Eq, Structural)]
pub enum ProviderTemplate {
    /// Any endpoint that speaks the OpenAI protocol.
    Generic,
    Ollama,
    LmStudio,
}

impl ProviderTemplate {
    /// The template that `key` names.
    pub open spec fn named(key: Seq<char>) -> Option<ProviderTemplate> {
        if key == "generic"@ || key == "openai"@ || key == "openai-compatible"@ {
            Some(ProviderTemplate::Generic)
        } else if key == "ollama"@ {
            Some(ProviderTemplate::Ollama)
        } else if key == "lmstudio"@ || key == "lm-studio"@ || key == "lm_studio"@ {
            Some(ProviderTemplate::LmStudio)
        } else {
            None
        }
    }

    /// Read a template name, whatever its case.
    pub fn parse(s: &str) -> (template: Option<Self>)
        ensures
            template == Self::named(lower(s@)),
    {
        let lowered = to_lower(s);
        let key = lowered.as_str();
        if same_text(key, "generic") || same_text(key, "openai") || same_text(
            key,
            "openai-compatible",
        ) {
            Some(ProviderTemplate::Generic)
        } else if same_text(key, "ollama") {
            Some(ProviderTemplate::Ollama)
        } else if same_text(key, "lmstudio") || same_text(key, "lm-studio") || same_text(
            key,
            "lm_studio",
        ) {
            Some(ProviderTemplate::LmStudio)
        } else {
            None
        }
    }

    pub open spec fn text(self) -> Seq<char> {
        match self {
            ProviderTemplate::Generic => "generic"@,
            ProviderTemplate::Ollama => "ollama"@,
            ProviderTemplate::LmStudio => "lm_studio"@,
        }
    }

    pub fn as_str(self) -> (name: &'static str)
        ensures
            name@ == self.text(),
    {
        match self {
            ProviderTemplate::Generic => "generic",
            ProviderTemplate::Ollama => "ollama",
            ProviderTemplate::LmStudio => "lm_studio",
        }
    }

    /// The address that the template prefills.
    pub fn default_base_url(self) -> (url: &'static str)
        ensures
            url@ == (match self {
                ProviderTemplate::Generic => "https://api.openai.com/v1"@,
                ProviderTemplate::Ollama => "http://127.0.0.1:11434/v1"@,
                ProviderTemplate::LmStudio => "http://127.0.0.1:1234/v1"@,
            }),
    {
        match self {
            ProviderTemplate::Generic => "https://api.openai.com/v1",
            ProviderTemplate::Ollama => "http://127.0.0.1:11434/v1",
            ProviderTemplate::LmStudio => "http://127.0.0.1:1234/v1",
        }
    }

    /// A guess on the careful side, until the provider has been probed: JSON
    /// objects but no schemas, and a list of models.
    pub fn default_capabilities(self) -> (capabilities: ProviderCapabilities)
        ensures
            capabilities == (ProviderCapabilities {
                json_mode: true,
                supports_model_list: true,
                seed: self == ProviderTemplate::Ollama,
                returns_usage: self != ProviderTemplate::Ollama,
                max_context_tokens: Some(
                    if self == ProviderTemplate::LmStudio {
                        4096
                    } else {
                        8192
                    },
                ),
                max_output_tokens: Some(
                    if self == ProviderTemplate::Generic {
                        4096
                    } else {
                        2048
                    },
                ),
                structured_mode: StructuredMode::JsonObject,
                ..ProviderCapabilities::conservative()
            }),
    {
        let mut capabilities = ProviderCapabilities::conservative_default();
        capabilities.json_mode = true;
        capabilities.supports_model_list = true;
        capabilities.structured_mode = StructuredMode::JsonObject;
        match self {
            ProviderTemplate::Generic => {
                capabilities.returns_usage = true;
                capabilities.max_output_tokens = Some(4096);
            },
            ProviderTemplate::Ollama => {
                capabilities.seed = true;
            },
            ProviderTemplate::LmStudio => {
                capabilities.returns_usage = true;
                capabilities.max_context_tokens = Some(4096);
            },
        }
        capabilities
    }
}

/// Reading back the name of a template gives the template.
pub proof fn law_parse_reads_template_names(template: ProviderTemplate)
    ensures
        ProviderTemplate::named(lower(template.text())) == Some(template),
{
    reveal_strlit("generic");
    reveal_strlit("openai");
    reveal_strlit("openai-compatible");
    reveal_strlit("ollama");
    reveal_strlit("lm_studio");
    reveal_strlit("lmstudio");
    reveal_strlit("lm-studio");
    assert(lower(template.text()) =~= template.text());
    assert("generic"@[0] == 'g' && "openai"@[0] == 'o' && "openai-compatible"@[0] == 'o'
        && "ollama"@[0] == 'o' && "lm_studio"@[0] == 'l');
    assert("openai"@[1] == 'p' && "openai-compatible"@[1] == 'p' && "ollama"@[1] == 'l');
}

/// A template answers to its name and to the other spellings that are in use.
/// Nothing answers to any other name.
pub proof fn law_templates_answer_to_their_names(key: Seq<char>)
    ensures
        ProviderTemplate::named(key) == Some(ProviderTemplate::Generic) <==> key == "generic"@
            || key == "openai"@ || key == "openai-compatible"@,
        ProviderTemplate::named(key) == Some(ProviderTemplate::Ollama) <==> key == "ollama"@,
        ProviderTemplate::named(key) == Some(ProviderTemplate::LmStudio) <==> key == "lmstudio"@
            || key == "lm-studio"@ || key == "lm_studio"@,
        ProviderTemplate::Generic.text() == "generic"@,
        ProviderTemplate::Ollama.text() == "ollama"@,
        ProviderTemplate::LmStudio.text() == "lm_studio"@,
{
    reveal_strlit("generic");
    reveal_strlit("openai");
    reveal_strlit("openai-compatible");
    reveal_strlit("ollama");
    reveal_strlit("lm_studio");
    reveal_strlit("lmstudio");
    reveal_strlit("lm-studio");
    assert("generic"@[0] == 'g' && "openai"@[0] == 'o' && "openai-compatible"@[0] == 'o'
        && "ollama"@[0] == 'o' && "lm_studio"@[0] == 'l' && "lmstudio"@[0] == 'l'
        && "lm-studio"@[0] == 'l');
    assert("openai"@[1] == 'p' && "openai-compatible"@[1] == 'p' && "ollama"@[1] == 'l');
}

} // verus!
