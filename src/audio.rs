use vstd::prelude::*;

use crate::text::str_eq;

verus! {

/// Why speech could not be had.
#[derive(Debug, Clone, PartialEq, Eq)]
pub enum AudioError {
    ModelNotLoaded,
    GenerationFailed(String),
    Cancelled,
    CacheIo(String),
    WavEncode(String),
}

impl AudioError {
    /// The message a user sees for this error.
    pub fn message(&self) -> (r: String)
        ensures
            self is ModelNotLoaded ==> r@ == "TTS model not loaded \u{2014} call preload_model first"@,
            self is Cancelled ==> r@ == "Generation cancelled"@,
            self is GenerationFailed ==> r@ == "TTS generation failed: "@ + self->GenerationFailed_0@,
            self is CacheIo ==> r@ == "Cache I/O error: "@ + self->CacheIo_0@,
            self is WavEncode ==> r@ == "WAV encoding error: "@ + self->WavEncode_0@,
    {
        let mut out: Vec<char> = Vec::new();
        match self {
            AudioError::ModelNotLoaded => crate::text::push_str(
                &mut out,
                "TTS model not loaded \u{2014} call preload_model first",
            ),
            AudioError::Cancelled => crate::text::push_str(&mut out, "Generation cancelled"),
            AudioError::GenerationFailed(m) => {
                crate::text::push_str(&mut out, "TTS generation failed: ");
                crate::text::push_str(&mut out, m.as_str());
            },
            AudioError::CacheIo(m) => {
                crate::text::push_str(&mut out, "Cache I/O error: ");
                crate::text::push_str(&mut out, m.as_str());
            },
            AudioError::WavEncode(m) => {
                crate::text::push_str(&mut out, "WAV encoding error: ");
                crate::text::push_str(&mut out, m.as_str());
            },
        }
        crate::text::string_from(&out)
    }
}

/// Encoded speech, as the cache hands it out.
#[derive(Debug, Clone)]
pub struct CachedAudio {
    pub audio_base64: String,
    pub duration_ms: u64,
    pub sample_rate: u32,
}

/// Speech ready for the host.
#[derive(Debug, Clone)]
pub struct AudioResponse {
    pub request_id: String,
    pub audio_base64: String,
    pub duration_ms: u64,
    pub sample_rate: u32,
}

/// Progress of a speech request.
#[derive(Debug, Clone, Copy, PartialEq, Eq, Structural)]
pub enum AudioStage {
    ModelLoading,
    Generating,
    Encoding,
    CacheHit,
}

#[derive(Debug, Clone)]
pub struct AudioProgressEvent {
    pub request_id: String,
    pub stage: AudioStage,
    pub message: String,
}

#[derive(Debug, Clone)]
pub struct AudioErrorEvent {
    pub request_id: String,
    pub message: String,
}

/// Whether the speech model is there and ready.
#[derive(Debug, Clone)]
pub struct AudioModelStatus {
    pub downloaded: bool,
    pub loading: bool,
    pub ready: bool,
    pub model_size_bytes: Option<u64>,
    pub error: Option<String>,
}

/// A voice the speech engine offers.
#[derive(Debug, Clone)]
pub struct VoiceInfo {
    pub id: String,
    pub name: String,
    pub language: String,
    pub sample_url: Option<String>,
}

/// Samples per second of generated speech.
pub const SAMPLE_RATE: u32 = 24000;

/// Size of the speech model once downloaded.
pub const MODEL_SIZE_BYTES: u64 = 350000000;

/// The status of the speech model, loaded or not.
pub fn model_status(loaded: bool) -> (r: AudioModelStatus)
    ensures
        r.downloaded == loaded,
        r.ready == loaded,
        !r.loading,
        r.model_size_bytes == if loaded {
            Some(MODEL_SIZE_BYTES)
        } else {
            None
        },
        r.error is None,
{
    AudioModelStatus {
        downloaded: loaded,
        loading: false,
        ready: loaded,
        model_size_bytes: if loaded {
            Some(MODEL_SIZE_BYTES)
        } else {
            None
        },
        error: None,
    }
}

/// How long `samples` samples last at `sample_rate`, in whole milliseconds.
pub fn duration_ms(samples: u64, sample_rate: u32) -> (r: u64)
    requires
        sample_rate > 0,
        samples * 1000 <= u64::MAX,
    ensures
        r == samples * 1000 / (sample_rate as int),
{
    samples * 1000 / (sample_rate as u64)
}

/// The voice a language code gets by default.
pub open spec fn voice_for(language: Seq<char>) -> Seq<char> {
    if language == "fr"@ {
        "ff_siwis"@
    } else if language == "ja"@ {
        "jf_alpha"@
    } else if language == "jp"@ {
        "jf_alpha"@
    } else if language == "zh"@ {
        "zf_xiaobei"@
    } else if language == "cn"@ {
        "zf_xiaobei"@
    } else if language == "es"@ {
        "ef_dora"@
    } else if language == "it"@ {
        "if_sara"@
    } else if language == "pt"@ {
        "pf_dora"@
    } else if language == "hi"@ {
        "hf_alpha"@
    } else if language == "en-gb"@ {
        "bf_emma"@
    } else {
        "af_bella"@
    }
}

/// The voice a language code gets by default; languages without a voice of their
/// own get the American English one.
pub fn default_voice_for_language(language: &str) -> (r: &'static str)
    ensures
        r@ == voice_for(language@),
{
    if str_eq(language, "fr") {
        "ff_siwis"
    } else if str_eq(language, "ja") {
        "jf_alpha"
    } else if str_eq(language, "jp") {
        "jf_alpha"
    } else if str_eq(language, "zh") {
        "zf_xiaobei"
    } else if str_eq(language, "cn") {
        "zf_xiaobei"
    } else if str_eq(language, "es") {
        "ef_dora"
    } else if str_eq(language, "it") {
        "if_sara"
    } else if str_eq(language, "pt") {
        "pf_dora"
    } else if str_eq(language, "hi") {
        "hf_alpha"
    } else if str_eq(language, "en-gb") {
        "bf_emma"
    } else {
        "af_bella"
    }
}

/// The language code the speech engine understands for a code of the host.
pub open spec fn engine_language(code: Seq<char>) -> Seq<char> {
    if code == "ja"@ {
        "ja"@
    } else if code == "jp"@ {
        "ja"@
    } else if code == "zh"@ {
        "zh"@
    } else if code == "cn"@ {
        "zh"@
    } else if code == "en"@ {
        "en-us"@
    } else if code == "en-us"@ {
        "en-us"@
    } else if code == "en-gb"@ {
        "en-us"@
    } else if code == "fr"@ {
        "fr-fr"@
    } else if code == "es"@ {
        "es"@
    } else if code == "de"@ {
        "de"@
    } else if code == "it"@ {
        "it"@
    } else if code == "pt"@ {
        "pt-br"@
    } else if code == "ko"@ {
        "ko"@
    } else {
        code
    }
}

/// The language code the speech engine understands for a code of the host.
pub fn engine_language_code(code: &str) -> (r: &str)
    ensures
        r@ == engine_language(code@),
{
    if str_eq(code, "ja") {
        "ja"
    } else if str_eq(code, "jp") {
        "ja"
    } else if str_eq(code, "zh") {
        "zh"
    } else if str_eq(code, "cn") {
        "zh"
    } else if str_eq(code, "en") {
        "en-us"
    } else if str_eq(code, "en-us") {
        "en-us"
    } else if str_eq(code, "en-gb") {
        "en-us"
    } else if str_eq(code, "fr") {
        "fr-fr"
    } else if str_eq(code, "es") {
        "es"
    } else if str_eq(code, "de") {
        "de"
    } else if str_eq(code, "it") {
        "it"
    } else if str_eq(code, "pt") {
        "pt-br"
    } else if str_eq(code, "ko") {
        "ko"
    } else {
        code
    }
}

fn voice(id: &str, name: &str, language: &str) -> (r: VoiceInfo)
    ensures
        r.id@ == id@,
        r.name@ == name@,
        r.language@ == language@,
        r.sample_url is None,
{
    VoiceInfo {
        id: id.to_owned(),
        name: name.to_owned(),
        language: language.to_owned(),
        sample_url: None,
    }
}

/// The voices the speech engine offers: id, display name and language.
pub open spec fn voice_table() -> Seq<(Seq<char>, Seq<char>, Seq<char>)> {
    seq![
        ("af_bella"@, "Bella (F, EN-US)"@, "en"@),
        ("af_sarah"@, "Sarah (F, EN-US)"@, "en"@),
        ("am_adam"@, "Adam (M, EN-US)"@, "en"@),
        ("bf_emma"@, "Emma (F, EN-GB)"@, "en-gb"@),
        ("bm_george"@, "George (M, EN-GB)"@, "en-gb"@),
        ("ff_siwis"@, "Siwis (F, FR)"@, "fr"@),
        ("jf_alpha"@, "Alpha (F, JA)"@, "ja"@),
        ("jm_kumo"@, "Kumo (M, JA)"@, "ja"@),
        ("zf_xiaobei"@, "Xiaobei (F, ZH)"@, "zh"@),
        ("zm_yunxi"@, "Yunxi (M, ZH)"@, "zh"@),
        ("ef_dora"@, "Dora (F, ES)"@, "es"@),
        ("if_sara"@, "Sara (F, IT)"@, "it"@),
        ("im_nicola"@, "Nicola (M, IT)"@, "it"@),
        ("pf_dora"@, "Dora (F, PT)"@, "pt"@),
        ("hf_alpha"@, "Alpha (F, HI)"@, "hi"@),
    ]
}

/// The voices the speech engine offers.
pub fn available_voices() -> (r: Vec<VoiceInfo>)
    ensures
        r@.len() == voice_table().len(),
        forall|i: int|
            0 <= i < r@.len() ==> (#[trigger] r@[i]).id@ == voice_table()[i].0 && r@[i].name@
                == voice_table()[i].1 && r@[i].language@ == voice_table()[i].2 && r@[i].sample_url is None,
{
    let mut out: Vec<VoiceInfo> = Vec::new();
    out.push(voice("af_bella", "Bella (F, EN-US)", "en"));
    out.push(voice("af_sarah", "Sarah (F, EN-US)", "en"));
    out.push(voice("am_adam", "Adam (M, EN-US)", "en"));
    out.push(voice("bf_emma", "Emma (F, EN-GB)", "en-gb"));
    out.push(voice("bm_george", "George (M, EN-GB)", "en-gb"));
    out.push(voice("ff_siwis", "Siwis (F, FR)", "fr"));
    out.push(voice("jf_alpha", "Alpha (F, JA)", "ja"));
    out.push(voice("jm_kumo", "Kumo (M, JA)", "ja"));
    out.push(voice("zf_xiaobei", "Xiaobei (F, ZH)", "zh"));
    out.push(voice("zm_yunxi", "Yunxi (M, ZH)", "zh"));
    out.push(voice("ef_dora", "Dora (F, ES)", "es"));
    out.push(voice("if_sara", "Sara (F, IT)", "it"));
    out.push(voice("im_nicola", "Nicola (M, IT)", "it"));
    out.push(voice("pf_dora", "Dora (F, PT)", "pt"));
    out.push(voice("hf_alpha", "Alpha (F, HI)", "hi"));
    out
}

} // verus!
