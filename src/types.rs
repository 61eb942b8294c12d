use vstd::prelude::*;

verus! {

/// The kinds of LLM provider that a configuration can name.
#[derive(Debug, Clone, Copy, PartialEq, Eq, Structural)]
pub enum LlmProviderPreset {
    Anthropic,
    Openai,
    Openrouter,
    Ollama,
    Lmstudio,
    Custom,
}

/// Which provider to talk to, with optional overrides of its credentials, endpoint and model.
#[derive(Debug, Clone)]
pub struct LlmProviderConfig {
    pub preset: LlmProviderPreset,
    pub api_key: Option<String>,
    pub base_url: Option<String>,
    pub model: Option<String>,
}

impl Default for LlmProviderConfig {
    fn default() -> (r: Self)
        ensures
            r.preset == LlmProviderPreset::Anthropic,
            r.api_key is None,
            r.base_url is None,
            r.model is None,
    {
        LlmProviderConfig {
            preset: LlmProviderPreset::Anthropic,
            api_key: None,
            base_url: None,
            model: None,
        }
    }
}

/// Everything a provider client needs: the provider and the translation settings.
#[derive(Debug, Clone)]
pub struct ApiConfig {
    pub provider: LlmProviderConfig,
    pub adult_mode: bool,
    pub target_language: String,
    pub source_language: Option<String>,
    pub dense_spans: bool,
}

/// Token counts reported by a provider for one call.
#[derive(Debug, Clone, Copy, PartialEq, Eq, Default)]
pub struct Usage {
    pub input_tokens: u32,
    pub output_tokens: u32,
}

impl Usage {
    /// No tokens counted.
    pub fn zero() -> (r: Usage)
        ensures
            r.input_tokens == 0,
            r.output_tokens == 0,
    {
        Usage { input_tokens: 0, output_tokens: 0 }
    }
}

/// The single error type of every pipeline call.
#[derive(Debug, Clone, PartialEq, Eq)]
pub enum ApiError {
    /// The provider needs a credential and none was configured.
    NoApiKey { provider: String },
    /// The request could not be sent or its response could not be read.
    Http(String),
    /// The provider answered with a non-success status.
    ApiResponse { status: u16, message: String },
    /// The response, or the configuration, could not be made sense of.
    Parse(String),
}

impl ApiError {
    /// The message a user sees for this error.
    pub fn message(&self) -> (r: String)
        ensures
            self is Parse ==> r@ == "Failed to parse response: "@ + self->Parse_0@,
            self is Http ==> r@ == "HTTP error: "@ + self->Http_0@,
            self is NoApiKey ==> r@ == "No API key set for provider: "@ + self->provider@,
            self is ApiResponse ==> r@ == "API returned error: "@ + crate::text::decimal(
                self->status as nat,
            ) + " \u{2014} "@ + self->message@,
    {
        let mut out: Vec<char> = Vec::new();
        match self {
            ApiError::NoApiKey { provider } => {
                crate::text::push_str(&mut out, "No API key set for provider: ");
                crate::text::push_str(&mut out, provider.as_str());
            },
            ApiError::Http(m) => {
                crate::text::push_str(&mut out, "HTTP error: ");
                crate::text::push_str(&mut out, m.as_str());
            },
            ApiError::ApiResponse { status, message } => {
                crate::text::push_str(&mut out, "API returned error: ");
                let d = crate::text::decimal_chars(*status as u128);
                crate::text::push_chars(&mut out, &d);
                crate::text::push_str(&mut out, " \u{2014} ");
                crate::text::push_str(&mut out, message.as_str());
            },
            ApiError::Parse(m) => {
                crate::text::push_str(&mut out, "Failed to parse response: ");
                crate::text::push_str(&mut out, m.as_str());
            },
        }
        crate::text::string_from(&out)
    }
}

/// The author of a chat message.
#[derive(Debug, Clone, Copy, PartialEq, Eq, Structural)]
pub enum Role {
    User,
    Assistant,
}

/// One chat message.
#[derive(Debug, Clone)]
pub struct Message {
    pub role: Role,
    pub content: String,
}

/// A request to the hosted vendor's messages endpoint.
#[derive(Debug, Clone)]
pub struct MessagesRequest {
    pub model: String,
    pub max_tokens: u32,
    pub system: String,
    pub messages: Vec<Message>,
}

/// The hosted vendor's answer: content blocks and optional token usage.
#[derive(Debug, Clone)]
pub struct MessagesResponse {
    pub content: Vec<ContentBlock>,
    pub usage: Option<ApiUsage>,
}

/// One content block of a vendor answer; only text blocks carry `text`.
#[derive(Debug, Clone)]
pub struct ContentBlock {
    pub content_type: String,
    pub text: Option<String>,
}

/// Token usage as the hosted vendor reports it.
#[derive(Debug, Clone, Copy, PartialEq, Eq)]
pub struct ApiUsage {
    pub input_tokens: u32,
    pub output_tokens: u32,
}

impl From<ApiUsage> for Usage {
    fn from(u: ApiUsage) -> (r: Usage) {
        Usage { input_tokens: u.input_tokens, output_tokens: u.output_tokens }
    }
}

impl vstd::std_specs::convert::FromSpecImpl<ApiUsage> for Usage {
    open spec fn obeys_from_spec() -> bool {
        true
    }

    open spec fn from_spec(u: ApiUsage) -> Usage {
        Usage { input_tokens: u.input_tokens, output_tokens: u.output_tokens }
    }
}

} // verus!
