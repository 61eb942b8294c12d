use vstd::prelude::*;

use crate::extract::{parse_planned_blocks, parse_variants, planned_blocks_of, planned_variants_of};
use crate::json::{json_get, parse_json, json_parse, Json};
use crate::plan::{variants_view, PlannedBlock, PlannedVariant, VariantModel};
use crate::prompts::{
    base_prompt, base_translation_system_prompt, opt_view, planning_prompt,
    span_planning_system_prompt, span_variants_system_prompt, variants_prompt,
};
use crate::text::{push_str, string_from, strip_suffixes, strip_suffixes_chars, trim, trim_chars, trim_str};
use crate::types::{
    ApiConfig, ApiError, ContentBlock, LlmProviderConfig, LlmProviderPreset, Message,
    MessagesRequest, MessagesResponse, Role, Usage,
};

verus! {

/// The hosted vendor's messages endpoint.
pub const API_URL: &'static str = "https://api.anthropic.com/v1/messages";

/// The protocol version the hosted vendor is addressed with.
pub const API_VERSION: &'static str = "2023-06-01";

/// Seconds a provider request may take.
pub const REQUEST_TIMEOUT_SECS: u64 = 60;

pub const TRANSLATE_MAX_TOKENS: u32 = 512;

pub const PLAN_MAX_TOKENS: u32 = 2048;

pub const VARIANTS_MAX_TOKENS: u32 = 2048;

pub const TEST_MAX_TOKENS: u32 = 1;

pub open spec fn opt_string_view(o: Option<String>) -> Option<Seq<char>> {
    match o {
        Some(s) => Some(s@),
        None => None,
    }
}

/// A configured value, trimmed, when anything but white space is left of it.
pub open spec fn non_blank(o: Option<Seq<char>>) -> Option<Seq<char>> {
    match o {
        Some(s) => if trim(s).len() > 0 {
            Some(trim(s))
        } else {
            None
        },
        None => None,
    }
}

/// A configured value, trimmed, when anything but white space is left of it.
pub fn non_blank_value(o: &Option<String>) -> (r: Option<String>)
    ensures
        opt_string_view(r) == non_blank(opt_string_view(*o)),
{
    match o {
        Some(s) => {
            let t = trim_str(s.as_str());
            if t.len() > 0 {
                Some(string_from(&t))
            } else {
                None
            }
        },
        None => None,
    }
}

// ---- configuration ----

/// The base URL and model that a preset brings with it.
pub struct Defaults {
    pub base_url: Option<String>,
    pub model: Option<String>,
}

pub open spec fn preset_base_url(p: LlmProviderPreset) -> Option<Seq<char>> {
    match p {
        LlmProviderPreset::Openai => Some("https://api.openai.com/v1"@),
        LlmProviderPreset::Openrouter => Some("https://openrouter.ai/api/v1"@),
        LlmProviderPreset::Ollama => Some("http://localhost:11434/v1"@),
        LlmProviderPreset::Lmstudio => Some("http://localhost:1234/v1"@),
        _ => None,
    }
}

pub open spec fn preset_model(p: LlmProviderPreset) -> Option<Seq<char>> {
    match p {
        LlmProviderPreset::Openai => Some("gpt-4o-mini"@),
        LlmProviderPreset::Openrouter => Some("openai/gpt-4o-mini"@),
        LlmProviderPreset::Ollama => Some("llama3.1"@),
        LlmProviderPreset::Lmstudio => Some("llama3.1"@),
        _ => None,
    }
}

/// The base URL and model of a generic chat-completion preset.
pub fn defaults_for_preset(preset: &LlmProviderPreset) -> (r: Defaults)
    ensures
        opt_string_view(r.base_url) == preset_base_url(*preset),
        opt_string_view(r.model) == preset_model(*preset),
{
    match preset {
        LlmProviderPreset::Openai => Defaults {
            base_url: Some("https://api.openai.com/v1".to_owned()),
            model: Some("gpt-4o-mini".to_owned()),
        },
        LlmProviderPreset::Openrouter => Defaults {
            base_url: Some("https://openrouter.ai/api/v1".to_owned()),
            model: Some("openai/gpt-4o-mini".to_owned()),
        },
        LlmProviderPreset::Ollama => Defaults {
            base_url: Some("http://localhost:11434/v1".to_owned()),
            model: Some("llama3.1".to_owned()),
        },
        LlmProviderPreset::Lmstudio => Defaults {
            base_url: Some("http://localhost:1234/v1".to_owned()),
            model: Some("llama3.1".to_owned()),
        },
        LlmProviderPreset::Custom => Defaults { base_url: None, model: None },
        LlmProviderPreset::Anthropic => Defaults { base_url: None, model: None },
    }
}

/// The lower-case name of a preset.
pub open spec fn preset_name(p: LlmProviderPreset) -> Seq<char> {
    match p {
        LlmProviderPreset::Anthropic => "anthropic"@,
        LlmProviderPreset::Openai => "openai"@,
        LlmProviderPreset::Openrouter => "openrouter"@,
        LlmProviderPreset::Ollama => "ollama"@,
        LlmProviderPreset::Lmstudio => "lmstudio"@,
        LlmProviderPreset::Custom => "custom"@,
    }
}

/// The lower-case name of a preset.
pub fn preset_name_of(p: &LlmProviderPreset) -> (r: String)
    ensures
        r@ == preset_name(*p),
{
    match p {
        LlmProviderPreset::Anthropic => "anthropic".to_owned(),
        LlmProviderPreset::Openai => "openai".to_owned(),
        LlmProviderPreset::Openrouter => "openrouter".to_owned(),
        LlmProviderPreset::Ollama => "ollama".to_owned(),
        LlmProviderPreset::Lmstudio => "lmstudio".to_owned(),
        LlmProviderPreset::Custom => "custom".to_owned(),
    }
}

impl ApiConfig {
    /// The settings of a job, with the hosted vendor as provider and `env_api_key`
    /// (what the environment holds for it) as its key.
    pub fn from_env(
        target_language: &str,
        source_language: Option<&str>,
        adult_mode: bool,
        dense_spans: bool,
        env_api_key: Option<String>,
    ) -> (r: ApiConfig)
        ensures
            r.provider.preset == LlmProviderPreset::Anthropic,
            r.provider.api_key == env_api_key,
            r.provider.base_url is None,
            r.provider.model is None,
            r.adult_mode == adult_mode,
            r.dense_spans == dense_spans,
            r.target_language@ == target_language@,
            opt_string_view(r.source_language) == opt_view(source_language),
    {
        let provider = LlmProviderConfig {
            preset: LlmProviderPreset::Anthropic,
            api_key: env_api_key,
            base_url: None,
            model: None,
        };
        ApiConfig {
            provider,
            adult_mode,
            target_language: target_language.to_owned(),
            source_language: match source_language {
                Some(s) => Some(s.to_owned()),
                None => None,
            },
            dense_spans,
        }
    }
}

/// A provider configuration with the hosted vendor's gaps filled: a blank key is
/// replaced by the one the environment holds, a blank model by the host's default model.
pub fn fill_provider_defaults(
    provider: LlmProviderConfig,
    env_api_key: Option<String>,
    default_model: &str,
) -> (r: LlmProviderConfig)
    ensures
        r.preset == provider.preset,
        r.base_url == provider.base_url,
        provider.preset != LlmProviderPreset::Anthropic ==> r == provider,
        provider.preset == LlmProviderPreset::Anthropic ==> {
            &&& r.api_key == if non_blank(opt_string_view(provider.api_key)) is None {
                env_api_key
            } else {
                provider.api_key
            }
            &&& opt_string_view(r.model) == if non_blank(opt_string_view(provider.model)) is None {
                Some(default_model@)
            } else {
                opt_string_view(provider.model)
            }
        },
{
    let mut p = provider;
    if p.preset == LlmProviderPreset::Anthropic {
        if non_blank_value(&p.api_key).is_none() {
            p.api_key = env_api_key;
        }
        if non_blank_value(&p.model).is_none() {
            p.model = Some(default_model.to_owned());
        }
    }
    p
}

// ---- the hosted-vendor client ----

/// A client of the hosted vendor, with its credentials resolved.
pub struct AnthropicClient {
    api_key: String,
    model: String,
    config: ApiConfig,
}

impl AnthropicClient {
    pub closed spec fn spec_api_key(&self) -> Seq<char> {
        self.api_key@
    }

    pub closed spec fn spec_model(&self) -> Seq<char> {
        self.model@
    }

    pub closed spec fn spec_config(&self) -> ApiConfig {
        self.config
    }

    /// A client for the configuration: fails with `NoApiKey` when no key is set,
    /// and uses the host's default model when no model is.
    pub fn new(config: ApiConfig, default_model: &str) -> (r: Result<AnthropicClient, ApiError>)
        ensures
            match r {
                Ok(c) => {
                    &&& non_blank(opt_string_view(config.provider.api_key)) == Some(c.spec_api_key())
                    &&& c.spec_model() == match non_blank(opt_string_view(config.provider.model)) {
                        Some(m) => m,
                        None => default_model@,
                    }
                    &&& c.spec_config() == config
                },
                Err(ApiError::NoApiKey { provider }) => {
                    &&& non_blank(opt_string_view(config.provider.api_key)) is None
                    &&& provider@ == "anthropic"@
                },
                Err(_) => false,
            },
    {
        let api_key = match non_blank_value(&config.provider.api_key) {
            Some(k) => k,
            None => {
                return Err(ApiError::NoApiKey { provider: "anthropic".to_owned() });
            },
        };
        let model = match non_blank_value(&config.provider.model) {
            Some(m) => m,
            None => default_model.to_owned(),
        };
        Ok(AnthropicClient { api_key, model, config })
    }

    pub fn api_url(&self) -> (r: &'static str)
        ensures
            r@ == API_URL@,
    {
        API_URL
    }

    pub fn model(&self) -> (r: &str)
        ensures
            r@ == self.spec_model(),
    {
        self.model.as_str()
    }

    pub fn api_key(&self) -> (r: &str)
        ensures
            r@ == self.spec_api_key(),
    {
        self.api_key.as_str()
    }

    fn request(&self, system: String, content: String, max_tokens: u32) -> (r: MessagesRequest)
        ensures
            r.model@ == self.spec_model(),
            r.max_tokens == max_tokens,
            r.system@ == system@,
            r.messages@.len() == 1,
            r.messages@[0].role == Role::User,
            r.messages@[0].content@ == content@,
    {
        let mut messages: Vec<Message> = Vec::new();
        messages.push(Message { role: Role::User, content });
        MessagesRequest { model: self.model.clone(), max_tokens, system, messages }
    }

    /// The request that translates `segment`, with the full story as context.
    pub fn translate_request(&self, full_story: &str, segment: &str) -> (r: MessagesRequest)
        ensures
            r.model@ == self.spec_model(),
            r.max_tokens == TRANSLATE_MAX_TOKENS,
            r.system@ == base_prompt(
                self.spec_config().target_language@,
                opt_string_view(self.spec_config().source_language),
                self.spec_config().adult_mode,
            ),
            r.messages@.len() == 1,
            r.messages@[0].role == Role::User,
            r.messages@[0].content@ == translate_content(full_story@, segment@),
    {
        let system = base_translation_system_prompt(
            self.config.target_language.as_str(),
            match &self.config.source_language {
                Some(s) => Some(s.as_str()),
                None => None,
            },
            self.config.adult_mode,
        );
        self.request(system, translate_message(full_story, segment), TRANSLATE_MAX_TOKENS)
    }

    /// The request that plans the spans of a translated segment.
    pub fn plan_request(&self, base_text: &str) -> (r: MessagesRequest)
        ensures
            r.model@ == self.spec_model(),
            r.max_tokens == PLAN_MAX_TOKENS,
            r.system@ == planning_prompt(
                self.spec_config().target_language@,
                self.spec_config().dense_spans,
            ),
            r.messages@.len() == 1,
            r.messages@[0].role == Role::User,
            r.messages@[0].content@ == base_text@,
    {
        let system = span_planning_system_prompt(
            self.config.target_language.as_str(),
            None,
            self.config.dense_spans,
        );
        self.request(system, base_text.to_owned(), PLAN_MAX_TOKENS)
    }

    /// The request that generates the variants of one anchor phrase.
    pub fn variants_request(&self, segment_context: &str, anchor_phrase: &str) -> (r:
        MessagesRequest)
        ensures
            r.model@ == self.spec_model(),
            r.max_tokens == VARIANTS_MAX_TOKENS,
            r.system@ == variants_prompt(
                self.spec_config().target_language@,
                self.spec_config().adult_mode,
            ),
            r.messages@.len() == 1,
            r.messages@[0].role == Role::User,
            r.messages@[0].content@ == variants_content(segment_context@, anchor_phrase@),
    {
        let system = span_variants_system_prompt(
            self.config.target_language.as_str(),
            None,
            self.config.adult_mode,
        );
        self.request(
            system,
            variants_message(segment_context, anchor_phrase),
            VARIANTS_MAX_TOKENS,
        )
    }

    /// The one-token request that checks the connection.
    pub fn test_request(&self) -> (r: MessagesRequest)
        ensures
            r.model@ == self.spec_model(),
            r.max_tokens == TEST_MAX_TOKENS,
            r.system@ == TEST_SYSTEM@,
            r.messages@.len() == 1,
            r.messages@[0].content@ == TEST_USER@,
    {
        self.request(TEST_SYSTEM.to_owned(), TEST_USER.to_owned(), TEST_MAX_TOKENS)
    }
}

/// The system prompt of a connection test.
pub const TEST_SYSTEM: &'static str = "You are a connectivity test. Reply with OK.";

/// The user message of a connection test.
pub const TEST_USER: &'static str = "ping";

/// The user message that asks for one segment's translation.
pub open spec fn translate_content(full_story: Seq<char>, segment: Seq<char>) -> Seq<char> {
    "FULL STORY (context):\n"@ + full_story + "\n\nSEGMENT TO TRANSLATE:\n"@ + segment
}

/// The user message that asks for one anchor phrase's variants.
pub open spec fn variants_content(context: Seq<char>, anchor: Seq<char>) -> Seq<char> {
    "SEGMENT CONTEXT:\n"@ + context + "\n\nANCHOR PHRASE:\n"@ + anchor
}

pub fn translate_message(full_story: &str, segment: &str) -> (r: String)
    ensures
        r@ == translate_content(full_story@, segment@),
{
    let mut out: Vec<char> = Vec::new();
    push_str(&mut out, "FULL STORY (context):\n");
    push_str(&mut out, full_story);
    push_str(&mut out, "\n\nSEGMENT TO TRANSLATE:\n");
    push_str(&mut out, segment);
    string_from(&out)
}

pub fn variants_message(segment_context: &str, anchor_phrase: &str) -> (r: String)
    ensures
        r@ == variants_content(segment_context@, anchor_phrase@),
{
    let mut out: Vec<char> = Vec::new();
    push_str(&mut out, "SEGMENT CONTEXT:\n");
    push_str(&mut out, segment_context);
    push_str(&mut out, "\n\nANCHOR PHRASE:\n");
    push_str(&mut out, anchor_phrase);
    string_from(&out)
}

// ---- responses ----

/// Whether an HTTP status reports success.
pub open spec fn is_success(status: u16) -> bool {
    200 <= status && status <= 299
}

/// Fails with `ApiResponse` carrying the status and body unless the status reports success.
pub fn check_status(status: u16, body: &str) -> (r: Result<(), ApiError>)
    ensures
        is_success(status) <==> r is Ok,
        match r {
            Err(ApiError::ApiResponse { status: s, message }) => s == status && message@ == body@,
            Err(_) => false,
            Ok(_) => true,
        },
{
    if 200 <= status && status <= 299 {
        Ok(())
    } else {
        Err(ApiError::ApiResponse { status, message: body.to_owned() })
    }
}

/// The text of the content blocks that carry text, in order.
pub open spec fn blocks_text(bs: Seq<ContentBlock>) -> Seq<char>
    decreases bs.len(),
{
    if bs.len() == 0 {
        Seq::empty()
    } else {
        blocks_text(bs.drop_last()) + match bs.last().text {
            Some(t) => t@,
            None => Seq::empty(),
        }
    }
}

/// The text of a vendor answer: its text blocks joined.
pub fn response_text(resp: &MessagesResponse) -> (r: String)
    ensures
        r@ == blocks_text(resp.content@),
{
    let mut out: Vec<char> = Vec::new();
    let mut i: usize = 0;
    while i < resp.content.len()
        invariant
            i <= resp.content@.len(),
            out@ == blocks_text(resp.content@.subrange(0, i as int)),
        decreases resp.content@.len() - i,
    {
        assert(resp.content@.subrange(0, i + 1).drop_last() =~= resp.content@.subrange(0, i as int));
        match &resp.content[i].text {
            Some(t) => push_str(&mut out, t.as_str()),
            None => {},
        }
        i = i + 1;
    }
    assert(resp.content@.subrange(0, i as int) =~= resp.content@);
    string_from(&out)
}

/// The token counts a vendor answer reports, zero when it reports none.
pub open spec fn usage_of(resp: MessagesResponse) -> (u32, u32) {
    match resp.usage {
        Some(u) => (u.input_tokens, u.output_tokens),
        None => (0, 0),
    }
}

/// The token usage of a vendor answer, zero when it reports none.
pub fn response_usage(resp: &MessagesResponse) -> (r: Usage)
    ensures
        (r.input_tokens, r.output_tokens) == usage_of(*resp),
{
    match resp.usage {
        Some(u) => Usage::from(u),
        None => Usage::zero(),
    }
}

/// The first planned block of model output.
pub fn first_block(text: &str) -> (r: Result<PlannedBlock, ApiError>)
    ensures
        match r {
            Ok(b) => planned_blocks_of(text@) matches Ok(bs) && bs.len() > 0 && bs[0] == b@,
            Err(ApiError::Parse(m)) => match planned_blocks_of(text@) {
                Ok(bs) => bs.len() == 0 && m@ == "No block returned"@,
                Err(e) => e == m@,
            },
            Err(_) => false,
        },
{
    let mut blocks = parse_planned_blocks(text)?;
    if blocks.len() == 0 {
        return Err(ApiError::Parse("No block returned".to_owned()));
    }
    let b = blocks.remove(0);
    Ok(b)
}

/// The translation in a vendor answer, trimmed, with its usage.
pub fn translation_from_response(resp: &MessagesResponse) -> (r: (String, Usage))
    ensures
        r.0@ == trim(blocks_text(resp.content@)),
        (r.1.input_tokens, r.1.output_tokens) == usage_of(*resp),
{
    let t = response_text(resp);
    let tt = trim_str(t.as_str());
    (string_from(&tt), response_usage(resp))
}

/// The planned block in a vendor answer, with its usage.
pub fn plan_from_response(resp: &MessagesResponse) -> (r: Result<(PlannedBlock, Usage), ApiError>)
    ensures
        match r {
            Ok((b, u)) => planned_blocks_of(blocks_text(resp.content@)) matches Ok(bs) && bs.len()
                > 0 && bs[0] == b@ && (u.input_tokens, u.output_tokens) == usage_of(*resp),
            Err(ApiError::Parse(m)) => match planned_blocks_of(blocks_text(resp.content@)) {
                Ok(bs) => bs.len() == 0 && m@ == "No block returned"@,
                Err(e) => e == m@,
            },
            Err(_) => false,
        },
{
    let t = response_text(resp);
    let b = first_block(t.as_str())?;
    Ok((b, response_usage(resp)))
}

/// The span variants in a vendor answer, with its usage.
pub fn variants_from_response(resp: &MessagesResponse) -> (r: Result<
    (Vec<PlannedVariant>, Usage),
    ApiError,
>)
    ensures
        match r {
            Ok((vs, u)) => planned_variants_of(blocks_text(resp.content@)) == Ok::<
                Seq<VariantModel>,
                Seq<char>,
            >(variants_view(vs@)) && (u.input_tokens, u.output_tokens) == usage_of(*resp),
            Err(ApiError::Parse(m)) => planned_variants_of(blocks_text(resp.content@)) == Err::<
                Seq<VariantModel>,
                Seq<char>,
            >(m@),
            Err(_) => false,
        },
{
    let t = response_text(resp);
    let vs = parse_variants(t.as_str())?;
    Ok((vs, response_usage(resp)))
}


// ---- the generic chat-completion client ----

/// A chat-completion request: where it goes, with which credential, and what it says.
#[derive(Debug, Clone)]
pub struct ChatRequest {
    pub url: String,
    pub api_key: Option<String>,
    pub model: String,
    pub system: String,
    pub user: String,
    pub max_tokens: u32,
}

/// A client of a generic chat-completion provider, with endpoint and model resolved.
pub struct OpenAiCompatClient {
    config: ApiConfig,
    base_url: String,
    api_key: Option<String>,
    model: String,
}

/// A configured value, else the preset's, else nothing.
pub open spec fn value_or(configured: Option<Seq<char>>, preset: Option<Seq<char>>) -> Seq<char> {
    match non_blank(configured) {
        Some(v) => v,
        None => match preset {
            Some(d) => d,
            None => Seq::empty(),
        },
    }
}

/// The base URL a configuration resolves to, without trailing slashes.
pub open spec fn resolved_base_url(p: LlmProviderConfig) -> Seq<char> {
    strip_suffixes(trim(value_or(opt_string_view(p.base_url), preset_base_url(p.preset))), "/"@)
}

/// The model a configuration resolves to.
pub open spec fn resolved_model(p: LlmProviderConfig) -> Seq<char> {
    trim(value_or(opt_string_view(p.model), preset_model(p.preset)))
}

/// Presets that cannot be used without a key.
pub open spec fn needs_key(p: LlmProviderPreset) -> bool {
    p == LlmProviderPreset::Openai || p == LlmProviderPreset::Openrouter
}

fn resolve(configured: &Option<String>, preset: Option<String>) -> (r: Vec<char>)
    ensures
        r@ == trim(value_or(opt_string_view(*configured), opt_string_view(preset))),
{
    let chosen = match non_blank_value(configured) {
        Some(v) => v,
        None => match preset {
            Some(d) => d,
            None => String::new(),
        },
    };
    trim_str(chosen.as_str())
}

impl OpenAiCompatClient {
    pub closed spec fn spec_base_url(&self) -> Seq<char> {
        self.base_url@
    }

    pub closed spec fn spec_model(&self) -> Seq<char> {
        self.model@
    }

    pub closed spec fn spec_api_key(&self) -> Option<Seq<char>> {
        opt_string_view(self.api_key)
    }

    pub closed spec fn spec_config(&self) -> ApiConfig {
        self.config
    }

    /// A client for the configuration. The base URL and the model come from the
    /// configuration, else from the preset; either missing is an error, as is a
    /// missing key for a preset that needs one.
    pub fn new(config: ApiConfig) -> (r: Result<OpenAiCompatClient, ApiError>)
        ensures
            match r {
                Ok(c) => {
                    &&& c.spec_base_url() == resolved_base_url(config.provider)
                    &&& c.spec_model() == resolved_model(config.provider)
                    &&& c.spec_api_key() == non_blank(opt_string_view(config.provider.api_key))
                    &&& c.spec_config() == config
                    &&& resolved_base_url(config.provider).len() > 0
                    &&& resolved_model(config.provider).len() > 0
                    &&& !(needs_key(config.provider.preset) && c.spec_api_key() is None)
                },
                Err(ApiError::Parse(m)) => {
                    ||| resolved_base_url(config.provider).len() == 0 && m@
                        == "OpenAI-compatible baseUrl is required"@
                    ||| resolved_base_url(config.provider).len() > 0 && resolved_model(
                        config.provider,
                    ).len() == 0 && m@ == "OpenAI-compatible model is required"@
                },
                Err(ApiError::NoApiKey { provider }) => {
                    &&& resolved_base_url(config.provider).len() > 0
                    &&& resolved_model(config.provider).len() > 0
                    &&& needs_key(config.provider.preset)
                    &&& non_blank(opt_string_view(config.provider.api_key)) is None
                    &&& provider@ == preset_name(config.provider.preset)
                },
                Err(_) => false,
            },
    {
        let defaults = defaults_for_preset(&config.provider.preset);
        let base = resolve(&config.provider.base_url, defaults.base_url);
        let slash = crate::text::chars_of("/");
        let base = strip_suffixes_chars(&base, &slash);
        if base.len() == 0 {
            return Err(ApiError::Parse("OpenAI-compatible baseUrl is required".to_owned()));
        }
        let model = resolve(&config.provider.model, defaults.model);
        if model.len() == 0 {
            return Err(ApiError::Parse("OpenAI-compatible model is required".to_owned()));
        }
        let api_key = non_blank_value(&config.provider.api_key);
        let needs = match config.provider.preset {
            LlmProviderPreset::Openai => true,
            LlmProviderPreset::Openrouter => true,
            _ => false,
        };
        if needs && api_key.is_none() {
            return Err(ApiError::NoApiKey { provider: preset_name_of(&config.provider.preset) });
        }
        Ok(
            OpenAiCompatClient {
                config,
                base_url: string_from(&base),
                api_key,
                model: string_from(&model),
            },
        )
    }

    pub fn base_url(&self) -> (r: &str)
        ensures
            r@ == self.spec_base_url(),
    {
        self.base_url.as_str()
    }

    pub fn model(&self) -> (r: &str)
        ensures
            r@ == self.spec_model(),
    {
        self.model.as_str()
    }

    pub fn has_api_key(&self) -> (r: bool)
        ensures
            r == self.spec_api_key() is Some,
    {
        self.api_key.is_some()
    }

    /// The chat-completion endpoint under the base URL.
    pub fn chat_completions_url(&self) -> (r: String)
        ensures
            r@ == self.spec_base_url() + "/chat/completions"@,
    {
        let mut out: Vec<char> = Vec::new();
        push_str(&mut out, self.base_url.as_str());
        push_str(&mut out, "/chat/completions");
        string_from(&out)
    }

    fn chat(&self, system: String, user: String, max_tokens: u32) -> (r: ChatRequest)
        ensures
            r.url@ == self.spec_base_url() + "/chat/completions"@,
            opt_string_view(r.api_key) == self.spec_api_key(),
            r.model@ == self.spec_model(),
            r.system@ == system@,
            r.user@ == user@,
            r.max_tokens == max_tokens,
    {
        ChatRequest {
            url: self.chat_completions_url(),
            api_key: match &self.api_key {
                Some(k) => Some(k.clone()),
                None => None,
            },
            model: self.model.clone(),
            system,
            user,
            max_tokens,
        }
    }

    /// The request that translates `segment`, with the full story as context.
    pub fn translate_request(&self, full_story: &str, segment: &str) -> (r: ChatRequest)
        ensures
            r.url@ == self.spec_base_url() + "/chat/completions"@,
            r.model@ == self.spec_model(),
            r.max_tokens == TRANSLATE_MAX_TOKENS,
            r.system@ == base_prompt(
                self.spec_config().target_language@,
                opt_string_view(self.spec_config().source_language),
                self.spec_config().adult_mode,
            ),
            r.user@ == translate_content(full_story@, segment@),
    {
        let system = base_translation_system_prompt(
            self.config.target_language.as_str(),
            match &self.config.source_language {
                Some(s) => Some(s.as_str()),
                None => None,
            },
            self.config.adult_mode,
        );
        self.chat(system, translate_message(full_story, segment), TRANSLATE_MAX_TOKENS)
    }

    /// The request that plans the spans of a translated segment.
    pub fn plan_request(&self, base_text: &str) -> (r: ChatRequest)
        ensures
            r.url@ == self.spec_base_url() + "/chat/completions"@,
            r.model@ == self.spec_model(),
            r.max_tokens == PLAN_MAX_TOKENS,
            r.system@ == planning_prompt(
                self.spec_config().target_language@,
                self.spec_config().dense_spans,
            ),
            r.user@ == base_text@,
    {
        let system = span_planning_system_prompt(
            self.config.target_language.as_str(),
            None,
            self.config.dense_spans,
        );
        self.chat(system, base_text.to_owned(), PLAN_MAX_TOKENS)
    }

    /// The request that generates the variants of one anchor phrase.
    pub fn variants_request(&self, segment_context: &str, anchor_phrase: &str) -> (r: ChatRequest)
        ensures
            r.url@ == self.spec_base_url() + "/chat/completions"@,
            r.model@ == self.spec_model(),
            r.max_tokens == VARIANTS_MAX_TOKENS,
            r.system@ == variants_prompt(
                self.spec_config().target_language@,
                self.spec_config().adult_mode,
            ),
            r.user@ == variants_content(segment_context@, anchor_phrase@),
    {
        let system = span_variants_system_prompt(
            self.config.target_language.as_str(),
            None,
            self.config.adult_mode,
        );
        self.chat(system, variants_message(segment_context, anchor_phrase), VARIANTS_MAX_TOKENS)
    }

    /// The one-token request that checks the connection.
    pub fn test_request(&self) -> (r: ChatRequest)
        ensures
            r.url@ == self.spec_base_url() + "/chat/completions"@,
            r.max_tokens == TEST_MAX_TOKENS,
            r.system@ == TEST_SYSTEM@,
            r.user@ == TEST_USER@,
    {
        self.chat(TEST_SYSTEM.to_owned(), TEST_USER.to_owned(), TEST_MAX_TOKENS)
    }
}

/// The answer text of a chat completion: the first choice's message content, or nothing.
pub open spec fn chat_text(v: Json) -> Seq<char> {
    match json_get(v, "choices"@) {
        Some(Json::Array(cs)) => if cs@.len() > 0 {
            match json_get(cs@[0], "message"@) {
                Some(m) => match crate::json::json_get_str(m, "content"@) {
                    Some(c) => c,
                    None => Seq::empty(),
                },
                None => Seq::empty(),
            }
        } else {
            Seq::empty()
        },
        _ => Seq::empty(),
    }
}

/// The token counts of a chat completion, when its `usage` reports both.
pub open spec fn chat_usage(v: Json) -> Option<(u64, u64)> {
    match json_get(v, "usage"@) {
        Some(u) => match (json_get(u, "prompt_tokens"@), json_get(u, "completion_tokens"@)) {
            (Some(Json::Number(Some(a))), Some(Json::Number(Some(b)))) => Some((a, b)),
            _ => None,
        },
        None => None,
    }
}

fn chat_text_exec(v: &Json) -> (r: Vec<char>)
    ensures
        r@ == trim(chat_text(*v)),
{
    let empty: Vec<char> = Vec::new();
    match v.get("choices") {
        Some(Json::Array(cs)) => {
            if cs.len() > 0 {
                match cs[0].get("message") {
                    Some(m) => match m.get_str("content") {
                        Some(c) => trim_str(c.as_str()),
                        None => trim_chars(&empty),
                    },
                    None => trim_chars(&empty),
                }
            } else {
                trim_chars(&empty)
            }
        },
        _ => trim_chars(&empty),
    }
}

fn chat_usage_exec(v: &Json) -> (r: Usage)
    ensures
        match chat_usage(*v) {
            Some((a, b)) => r.input_tokens == a % 0x1_0000_0000 && r.output_tokens == b
                % 0x1_0000_0000,
            None => r.input_tokens == 0 && r.output_tokens == 0,
        },
{
    match v.get("usage") {
        Some(u) => match (u.get("prompt_tokens"), u.get("completion_tokens")) {
            (Some(Json::Number(Some(a))), Some(Json::Number(Some(b)))) => Usage {
                input_tokens: (*a % 0x1_0000_0000) as u32,
                output_tokens: (*b % 0x1_0000_0000) as u32,
            },
            _ => Usage::zero(),
        },
        None => Usage::zero(),
    }
}

/// Reads a chat-completion response: the answer text, trimmed, and the token usage
/// (counts taken modulo 2^32, zero when not reported).
pub fn chat_response(status: u16, body: &str) -> (r: Result<(String, Usage), ApiError>)
    ensures
        match json_parse(body@) {
            Err(m) => r matches Err(ApiError::Http(e)) && e@ == m,
            Ok(v) => if is_success(status) {
                r matches Ok((t, u)) && t@ == trim(chat_text(v)) && match chat_usage(v) {
                    Some((a, b)) => u.input_tokens == a % 0x1_0000_0000 && u.output_tokens == b
                        % 0x1_0000_0000,
                    None => u.input_tokens == 0 && u.output_tokens == 0,
                }
            } else {
                r matches Err(ApiError::ApiResponse { status: s, message }) && s == status
                    && message@ == body@
            },
        },
{
    let v = match parse_json(body) {
        Ok(v) => v,
        Err(m) => {
            return Err(ApiError::Http(m));
        },
    };
    check_status(status, body)?;
    let t = chat_text_exec(&v);
    Ok((string_from(&t), chat_usage_exec(&v)))
}

/// The planned block in a chat-completion response, with its usage.
pub fn plan_from_chat(status: u16, body: &str) -> (r: Result<(PlannedBlock, Usage), ApiError>)
    ensures
        match json_parse(body@) {
            Err(m) => r matches Err(ApiError::Http(e)) && e@ == m,
            Ok(v) => if is_success(status) {
                match r {
                    Ok((b, _)) => planned_blocks_of(trim(chat_text(v))) matches Ok(bs) && bs.len()
                        > 0 && bs[0] == b@,
                    Err(ApiError::Parse(m)) => match planned_blocks_of(trim(chat_text(v))) {
                        Ok(bs) => bs.len() == 0 && m@ == "No block returned"@,
                        Err(e) => e == m@,
                    },
                    Err(_) => false,
                }
            } else {
                r matches Err(ApiError::ApiResponse { status: s, message }) && s == status
                    && message@ == body@
            },
        },
{
    let (text, usage) = chat_response(status, body)?;
    let b = first_block(text.as_str())?;
    Ok((b, usage))
}

/// The span variants in a chat-completion response, with its usage.
pub fn variants_from_chat(status: u16, body: &str) -> (r: Result<
    (Vec<PlannedVariant>, Usage),
    ApiError,
>)
    ensures
        match json_parse(body@) {
            Err(m) => r matches Err(ApiError::Http(e)) && e@ == m,
            Ok(v) => if is_success(status) {
                match r {
                    Ok((vs, _)) => planned_variants_of(trim(chat_text(v))) == Ok::<
                        Seq<VariantModel>,
                        Seq<char>,
                    >(variants_view(vs@)),
                    Err(ApiError::Parse(m)) => planned_variants_of(trim(chat_text(v))) == Err::<
                        Seq<VariantModel>,
                        Seq<char>,
                    >(m@),
                    Err(_) => false,
                }
            } else {
                r matches Err(ApiError::ApiResponse { status: s, message }) && s == status
                    && message@ == body@
            },
        },
{
    let (text, usage) = chat_response(status, body)?;
    let vs = parse_variants(text.as_str())?;
    Ok((vs, usage))
}


/// A client of whichever provider a configuration names.
pub enum ProviderClient {
    Anthropic(AnthropicClient),
    OpenAiCompat(OpenAiCompatClient),
}

impl ProviderClient {
    /// The hosted-vendor client for its preset, the generic client for every other;
    /// `default_model` is the hosted vendor's model when none is configured.
    pub fn new(config: ApiConfig, default_model: &str) -> (r: Result<ProviderClient, ApiError>)
        ensures
            config.provider.preset == LlmProviderPreset::Anthropic ==> {
                &&& r is Ok ==> r->Ok_0 is Anthropic
                &&& r is Ok <==> non_blank(opt_string_view(config.provider.api_key)) is Some
            },
            config.provider.preset != LlmProviderPreset::Anthropic ==> {
                &&& r is Ok ==> r->Ok_0 is OpenAiCompat
                &&& r is Ok <==> {
                    &&& resolved_base_url(config.provider).len() > 0
                    &&& resolved_model(config.provider).len() > 0
                    &&& !(needs_key(config.provider.preset) && non_blank(
                        opt_string_view(config.provider.api_key),
                    ) is None)
                }
            },
    {
        if config.provider.preset == LlmProviderPreset::Anthropic {
            match AnthropicClient::new(config, default_model) {
                Ok(c) => Ok(ProviderClient::Anthropic(c)),
                Err(e) => Err(e),
            }
        } else {
            match OpenAiCompatClient::new(config) {
                Ok(c) => Ok(ProviderClient::OpenAiCompat(c)),
                Err(e) => Err(e),
            }
        }
    }
}

} // verus!
