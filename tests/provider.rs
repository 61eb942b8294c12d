use boka::provider::{
    chat_response, check_status, defaults_for_preset, fill_provider_defaults, first_block, plan_from_chat,
    response_text, translation_from_response, variants_from_chat, variants_from_response, AnthropicClient,
    OpenAiCompatClient, ProviderClient,
};
use boka::types::{ApiConfig, ApiError, ApiUsage, ContentBlock, LlmProviderConfig, LlmProviderPreset, MessagesResponse, Role, Usage};

fn config(preset: LlmProviderPreset, key: Option<&str>, url: Option<&str>, model: Option<&str>) -> ApiConfig {
    let mut c = ApiConfig::from_env("fr", None, false, false, None);
    c.provider = LlmProviderConfig {
        preset,
        api_key: key.map(|s| s.to_string()),
        base_url: url.map(|s| s.to_string()),
        model: model.map(|s| s.to_string()),
    };
    c
}

#[test]
fn hosted_client_needs_a_key() {
    match AnthropicClient::new(config(LlmProviderPreset::Anthropic, Some("   "), None, None), "m0") {
        Err(e) => assert_eq!(e, ApiError::NoApiKey { provider: "anthropic".into() }),
        Ok(_) => panic!("blank key accepted"),
    }
    let c = AnthropicClient::new(config(LlmProviderPreset::Anthropic, Some(" k1 "), None, Some(" ")), "m0").ok().unwrap();
    assert_eq!(c.api_key(), "k1");
    assert_eq!(c.model(), "m0");
    assert_eq!(c.api_url(), "https://api.anthropic.com/v1/messages");
    let r = c.translate_request("Story.", "Seg.");
    assert_eq!(r.max_tokens, 512);
    assert_eq!(r.messages[0].role, Role::User);
    assert_eq!(r.messages[0].content, "FULL STORY (context):\nStory.\n\nSEGMENT TO TRANSLATE:\nSeg.");
    assert!(r.system.starts_with("You are a French translation expert."));
    let v = c.variants_request("ctx", "anchor");
    assert_eq!(v.messages[0].content, "SEGMENT CONTEXT:\nctx\n\nANCHOR PHRASE:\nanchor");
    assert_eq!(c.plan_request("base").max_tokens, 2048);
    assert_eq!(c.test_request().messages[0].content, "ping");
}

#[test]
fn generic_client_resolution() {
    let c = OpenAiCompatClient::new(config(LlmProviderPreset::Ollama, None, None, None)).ok().unwrap();
    assert_eq!(c.base_url(), "http://localhost:11434/v1");
    assert_eq!(c.model(), "llama3.1");
    assert!(!c.has_api_key());
    assert_eq!(c.chat_completions_url(), "http://localhost:11434/v1/chat/completions");
    let c = OpenAiCompatClient::new(config(LlmProviderPreset::Custom, Some("k"), Some(" http://h:1/v1/// "), Some(" m "))).ok().unwrap();
    assert_eq!(c.base_url(), "http://h:1/v1");
    assert_eq!(c.model(), "m");
    assert!(c.has_api_key());
    let r = c.translate_request("S", "s");
    assert_eq!(r.url, "http://h:1/v1/chat/completions");
    assert_eq!(r.api_key.as_deref(), Some("k"));
    assert_eq!(r.user, "FULL STORY (context):\nS\n\nSEGMENT TO TRANSLATE:\ns");
}

#[test]
fn generic_client_errors() {
    match OpenAiCompatClient::new(config(LlmProviderPreset::Custom, None, None, Some("m"))) {
        Err(e) => assert_eq!(e, ApiError::Parse("OpenAI-compatible baseUrl is required".into())),
        Ok(_) => panic!(),
    }
    match OpenAiCompatClient::new(config(LlmProviderPreset::Custom, None, Some("http://x"), None)) {
        Err(e) => assert_eq!(e, ApiError::Parse("OpenAI-compatible model is required".into())),
        Ok(_) => panic!(),
    }
    match OpenAiCompatClient::new(config(LlmProviderPreset::Openrouter, Some(""), None, None)) {
        Err(e) => assert_eq!(e, ApiError::NoApiKey { provider: "openrouter".into() }),
        Ok(_) => panic!(),
    }
    assert!(OpenAiCompatClient::new(config(LlmProviderPreset::Openai, Some("sk"), None, None)).is_ok());
}

#[test]
fn provider_dispatch_and_defaults() {
    assert!(matches!(ProviderClient::new(config(LlmProviderPreset::Anthropic, Some("k"), None, None), "m0"), Ok(ProviderClient::Anthropic(_))));
    assert!(matches!(ProviderClient::new(config(LlmProviderPreset::Lmstudio, None, None, None), "m0"), Ok(ProviderClient::OpenAiCompat(_))));
    let d = defaults_for_preset(&LlmProviderPreset::Openai);
    assert_eq!(d.base_url.as_deref(), Some("https://api.openai.com/v1"));
    assert_eq!(d.model.as_deref(), Some("gpt-4o-mini"));
    assert!(defaults_for_preset(&LlmProviderPreset::Custom).model.is_none());
    let p = fill_provider_defaults(
        LlmProviderConfig { preset: LlmProviderPreset::Anthropic, api_key: Some(" ".into()), base_url: None, model: None },
        Some("env".into()),
        "m0",
    );
    assert_eq!(p.api_key.as_deref(), Some("env"));
    assert_eq!(p.model.as_deref(), Some("m0"));
    let q = fill_provider_defaults(
        LlmProviderConfig { preset: LlmProviderPreset::Ollama, api_key: None, base_url: None, model: None },
        Some("env".into()),
        "m0",
    );
    assert!(q.api_key.is_none());
    let default = LlmProviderConfig::default();
    assert_eq!(default.preset, LlmProviderPreset::Anthropic);
}

#[test]
fn chat_responses() {
    let body = r#"{"choices":[{"message":{"content":"  Bonjour  "}}],"usage":{"prompt_tokens":7,"completion_tokens":3}}"#;
    let (t, u) = chat_response(200, body).unwrap();
    assert_eq!(t, "Bonjour");
    assert_eq!(u, Usage { input_tokens: 7, output_tokens: 3 });
    let (t, u) = chat_response(201, r#"{"choices":[]}"#).unwrap();
    assert_eq!(t, "");
    assert_eq!(u, Usage { input_tokens: 0, output_tokens: 0 });
    assert_eq!(chat_response(429, r#"{"error":"slow"}"#).err(), Some(ApiError::ApiResponse { status: 429, message: r#"{"error":"slow"}"#.into() }));
    assert!(matches!(chat_response(200, "not json"), Err(ApiError::Http(_))));
    let plan = r#"{"choices":[{"message":{"content":"```json\n[{\"segments\":[{\"type\":\"static\",\"text\":\"x\"}]}]\n```"}}]}"#;
    assert_eq!(plan_from_chat(200, plan).unwrap().0.segments.len(), 1);
    let vars = r#"{"choices":[{"message":{"content":"[{\"text\":\"a\"},]"}}]}"#;
    assert_eq!(variants_from_chat(200, vars).unwrap().0.len(), 1);
    assert_eq!(check_status(204, "").ok(), Some(()));
}

#[test]
fn vendor_responses() {
    let resp = MessagesResponse {
        content: vec![
            ContentBlock { content_type: "text".into(), text: Some(" Hola".into()) },
            ContentBlock { content_type: "tool".into(), text: None },
            ContentBlock { content_type: "text".into(), text: Some(" mundo ".into()) },
        ],
        usage: Some(ApiUsage { input_tokens: 1, output_tokens: 2 }),
    };
    assert_eq!(response_text(&resp), " Hola mundo ");
    let (t, u) = translation_from_response(&resp);
    assert_eq!(t, "Hola mundo");
    assert_eq!(u, Usage { input_tokens: 1, output_tokens: 2 });
    let empty = MessagesResponse { content: vec![ContentBlock { content_type: "text".into(), text: Some("[]".into()) }], usage: None };
    assert_eq!(first_block("[]").err(), Some(ApiError::Parse("No block returned".into())));
    assert_eq!(variants_from_response(&empty).unwrap().0.len(), 0);
}

#[test]
fn error_messages() {
    assert_eq!(ApiError::Parse("x".into()).message(), "Failed to parse response: x");
    assert_eq!(ApiError::ApiResponse { status: 404, message: "nf".into() }.message(), "API returned error: 404 \u{2014} nf");
    assert_eq!(ApiError::NoApiKey { provider: "openai".into() }.message(), "No API key set for provider: openai");
    assert_eq!(ApiError::Http("t".into()).message(), "HTTP error: t");
}
