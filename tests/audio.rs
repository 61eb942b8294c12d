use boka::audio::{available_voices, default_voice_for_language, duration_ms, engine_language_code, model_status, AudioError};

#[test]
fn voices_by_language() {
    assert_eq!(default_voice_for_language("fr"), "ff_siwis");
    assert_eq!(default_voice_for_language("cn"), "zf_xiaobei");
    assert_eq!(default_voice_for_language("en-gb"), "bf_emma");
    assert_eq!(default_voice_for_language("de"), "af_bella");
    assert_eq!(default_voice_for_language("xx"), "af_bella");
    assert_eq!(available_voices().len(), 15);
    assert_eq!(available_voices()[5].id, "ff_siwis");
}

#[test]
fn engine_codes_and_status() {
    assert_eq!(engine_language_code("jp"), "ja");
    assert_eq!(engine_language_code("pt"), "pt-br");
    assert_eq!(engine_language_code("sv"), "sv");
    let s = model_status(true);
    assert!(s.ready && s.downloaded && !s.loading);
    assert_eq!(s.model_size_bytes, Some(350_000_000));
    assert_eq!(model_status(false).model_size_bytes, None);
    assert_eq!(duration_ms(48_000, 24_000), 2000);
    assert_eq!(AudioError::Cancelled.message(), "Generation cancelled");
    assert_eq!(AudioError::CacheIo("disk".into()).message(), "Cache I/O error: disk");
}
