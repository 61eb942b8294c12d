use vstd::prelude::*;

use crate::text::{push_str, str_eq, string_from};

verus! {

/// The display name of a language code; any other text stands for itself.
pub open spec fn language_of(code: Seq<char>) -> Seq<char> {
    if code == "en"@ {
        "English"@
    } else if code == "fr"@ {
        "French"@
    } else if code == "es"@ {
        "Spanish"@
    } else if code == "de"@ {
        "German"@
    } else if code == "it"@ {
        "Italian"@
    } else if code == "pt"@ {
        "Portuguese"@
    } else if code == "ja"@ {
        "Japanese"@
    } else if code == "jp"@ {
        "Japanese"@
    } else if code == "ko"@ {
        "Korean"@
    } else if code == "zh"@ {
        "Mandarin Chinese"@
    } else if code == "cn"@ {
        "Mandarin Chinese"@
    } else if code == "nl"@ {
        "Dutch"@
    } else if code == "sv"@ {
        "Swedish"@
    } else if code == "ru"@ {
        "Russian"@
    } else if code == "ar"@ {
        "Arabic"@
    } else if code == "hi"@ {
        "Hindi"@
    } else if code == "tr"@ {
        "Turkish"@
    } else if code == "pl"@ {
        "Polish"@
    } else if code == "en-gb"@ {
        "British English"@
    } else if code == "th"@ {
        "Thai"@
    } else if code == "vi"@ {
        "Vietnamese"@
    } else if code == "id"@ {
        "Indonesian"@
    } else if code == "ms"@ {
        "Malay"@
    } else if code == "uk"@ {
        "Ukrainian"@
    } else if code == "cs"@ {
        "Czech"@
    } else if code == "ro"@ {
        "Romanian"@
    } else if code == "el"@ {
        "Greek"@
    } else if code == "he"@ {
        "Hebrew"@
    } else if code == "iw"@ {
        "Hebrew"@
    } else if code == "da"@ {
        "Danish"@
    } else if code == "fi"@ {
        "Finnish"@
    } else if code == "no"@ {
        "Norwegian"@
    } else if code == "nb"@ {
        "Norwegian"@
    } else if code == "hu"@ {
        "Hungarian"@
    } else if code == "mn"@ {
        "Mongolian"@
    } else if code == "ka"@ {
        "Georgian"@
    } else if code == "sw"@ {
        "Swahili"@
    } else if code == "tl"@ {
        "Tagalog"@
    } else {
        code
    }
}

/// The display name of a language code; any other text, such as a full language
/// name, is returned as it is.
pub fn language_name(code: &str) -> (r: &str)
    ensures
        r@ == language_of(code@),
{
    if str_eq(code, "en") {
        "English"
    } else if str_eq(code, "fr") {
        "French"
    } else if str_eq(code, "es") {
        "Spanish"
    } else if str_eq(code, "de") {
        "German"
    } else if str_eq(code, "it") {
        "Italian"
    } else if str_eq(code, "pt") {
        "Portuguese"
    } else if str_eq(code, "ja") {
        "Japanese"
    } else if str_eq(code, "jp") {
        "Japanese"
    } else if str_eq(code, "ko") {
        "Korean"
    } else if str_eq(code, "zh") {
        "Mandarin Chinese"
    } else if str_eq(code, "cn") {
        "Mandarin Chinese"
    } else if str_eq(code, "nl") {
        "Dutch"
    } else if str_eq(code, "sv") {
        "Swedish"
    } else if str_eq(code, "ru") {
        "Russian"
    } else if str_eq(code, "ar") {
        "Arabic"
    } else if str_eq(code, "hi") {
        "Hindi"
    } else if str_eq(code, "tr") {
        "Turkish"
    } else if str_eq(code, "pl") {
        "Polish"
    } else if str_eq(code, "en-gb") {
        "British English"
    } else if str_eq(code, "th") {
        "Thai"
    } else if str_eq(code, "vi") {
        "Vietnamese"
    } else if str_eq(code, "id") {
        "Indonesian"
    } else if str_eq(code, "ms") {
        "Malay"
    } else if str_eq(code, "uk") {
        "Ukrainian"
    } else if str_eq(code, "cs") {
        "Czech"
    } else if str_eq(code, "ro") {
        "Romanian"
    } else if str_eq(code, "el") {
        "Greek"
    } else if str_eq(code, "he") {
        "Hebrew"
    } else if str_eq(code, "iw") {
        "Hebrew"
    } else if str_eq(code, "da") {
        "Danish"
    } else if str_eq(code, "fi") {
        "Finnish"
    } else if str_eq(code, "no") {
        "Norwegian"
    } else if str_eq(code, "nb") {
        "Norwegian"
    } else if str_eq(code, "hu") {
        "Hungarian"
    } else if str_eq(code, "mn") {
        "Mongolian"
    } else if str_eq(code, "ka") {
        "Georgian"
    } else if str_eq(code, "sw") {
        "Swahili"
    } else if str_eq(code, "tl") {
        "Tagalog"
    } else {
        code
    }
}

/// The tone guidance of the base translation prompt.
pub open spec fn tone_note(adult_mode: bool) -> Seq<char> {
    if adult_mode {
        "Keep tone authentic; slang/profanity is allowed if it's in the source."@
    } else {
        "Keep it family-friendly. Colloquial is fine, vulgar is not."@
    }
}

/// The sentence naming the source language, when it is known.
pub open spec fn source_note(source_language: Option<Seq<char>>) -> Seq<char> {
    match source_language {
        Some(src) => "The source text is written in "@ + language_of(src) + ". "@,
        None => Seq::empty(),
    }
}

/// The system prompt for translating one segment.
pub open spec fn base_prompt(target: Seq<char>, source: Option<Seq<char>>, adult_mode: bool) -> Seq<
    char,
> {
    "You are a "@ + language_of(target) + " translation expert. "@ + source_note(source)
        + "Translate the requested segment into "@ + language_of(target)
        + ".\n\nGuidelines:\n- Translate naturally, not literally.\n- Preserve meaning, tone, and speaker intent.\n- Keep punctuation and sentence boundaries natural.\n- Return ONLY the translated text for the segment. No quotes, no markdown, no commentary.\n\nTone note:\n"@ + tone_note(adult_mode)
}

/// How many spans the planning prompt asks for.
pub open spec fn span_density(dense_spans: bool) -> Seq<char> {
    if dense_spans {
        "Aim for 3-5 swappable spans."@
    } else {
        "Aim for 1-2 swappable spans."@
    }
}

/// The system prompt for planning the spans of a translated segment.
pub open spec fn planning_prompt(target: Seq<char>, dense_spans: bool) -> Seq<char> {
    "You are a "@ + language_of(target) + " language expert creating interactive learning materials.\n\nYou will receive a single translated segment in "@ + language_of(target)
        + ". Your job is to turn it into an interactive block with static text + swappable spans.\n\nOutput format:\nReturn a JSON array with EXACTLY one block in this schema:\n\n[\n  {\n    \\\"id\\\": \\\"b1\\\",\n    \\\"segments\\\": [\n      { \\\"type\\\": \\\"static\\\", \\\"text\\\": \\\"...\\\" },\n      { \\\"type\\\": \\\"swappable\\\", \\\"id\\\": \\\"s1\\\", \\\"variants\\\": [\n        { \\\"text\\\": \\\"...\\\", \\\"register\\\": \\\"neutral\\\", \\\"note\\\": \\\"\\\", \\\"difficulty\\\": 2 }\n      ]}\n    ]\n  }\n]\n\nRules:\n- The block must preserve the meaning of the segment.\n- Each swappable span MUST include a neutral variant that matches the exact text from the segment.\n- Variants arrays should contain ONLY the neutral variant for now (register: \\\"neutral\\\").\n- "@ + span_density(dense_spans) + "\n\nReturn ONLY the JSON array. No markdown."@
}

/// The registers the variants prompt asks for.
pub open spec fn register_guidance(adult_mode: bool) -> Seq<char> {
    if adult_mode {
        "Generate variants across the FULL register spectrum:\n- formal\n- literary\n- neutral\n- casual\n- colloquial\n- vulgar"@
    } else {
        "Generate variants across these registers:\n- formal\n- literary\n- neutral\n- casual\n- colloquial\n\nKeep all variants family-friendly."@
    }
}

/// The system prompt for generating the variants of one anchor phrase.
pub open spec fn variants_prompt(target: Seq<char>, adult_mode: bool) -> Seq<char> {
    "You are a "@ + language_of(target) + " language expert. You will be given a segment context and an anchor phrase within it.\n\nReturn a JSON array of variants. Each item:\n{ \\\"text\\\": \\\"...\\\", \\\"register\\\": \\\"neutral|formal|literary|casual|colloquial|vulgar\\\", \\\"note\\\": \\\"English learner note\\\", \\\"difficulty\\\": 1-5 }\n\nRules:\n- The FIRST variant MUST be the most natural neutral phrasing.\n- Keep meaning consistent with the segment context.\n- Aim for 2-4 variants total.\n\nRegister guidance:\n"@ + register_guidance(adult_mode)
        + "\n\nReturn ONLY the JSON array. No markdown."@
}

pub open spec fn opt_view(o: Option<&str>) -> Option<Seq<char>> {
    match o {
        Some(s) => Some(s@),
        None => None,
    }
}

/// The system prompt for translating one segment into `target_language`: natural,
/// meaning-preserving, with the tone guidance that `adult_mode` selects.
pub fn base_translation_system_prompt(
    target_language: &str,
    source_language: Option<&str>,
    adult_mode: bool,
) -> (r: String)
    ensures
        r@ == base_prompt(target_language@, opt_view(source_language), adult_mode),
{
    let lang = language_name(target_language);
    let mut out: Vec<char> = Vec::new();
    push_str(&mut out, "You are a ");
    push_str(&mut out, lang);
    push_str(&mut out, " translation expert. ");
    match source_language {
        Some(src) => {
            push_str(&mut out, "The source text is written in ");
            push_str(&mut out, language_name(src));
            push_str(&mut out, ". ");
        },
        None => {},
    }
    push_str(&mut out, "Translate the requested segment into ");
    push_str(&mut out, lang);
    push_str(&mut out, ".\n\nGuidelines:\n- Translate naturally, not literally.\n- Preserve meaning, tone, and speaker intent.\n- Keep punctuation and sentence boundaries natural.\n- Return ONLY the translated text for the segment. No quotes, no markdown, no commentary.\n\nTone note:\n");
    if adult_mode {
        push_str(&mut out, "Keep tone authentic; slang/profanity is allowed if it's in the source.");
    } else {
        push_str(&mut out, "Keep it family-friendly. Colloquial is fine, vulgar is not.");
    }
    string_from(&out)
}

/// The system prompt for planning one block of static text and swappable spans,
/// each seeded with a neutral variant; `dense_spans` asks for more spans.
pub fn span_planning_system_prompt(
    target_language: &str,
    _source_language: Option<&str>,
    dense_spans: bool,
) -> (r: String)
    ensures
        r@ == planning_prompt(target_language@, dense_spans),
{
    let lang = language_name(target_language);
    let mut out: Vec<char> = Vec::new();
    push_str(&mut out, "You are a ");
    push_str(&mut out, lang);
    push_str(&mut out, " language expert creating interactive learning materials.\n\nYou will receive a single translated segment in ");
    push_str(&mut out, lang);
    push_str(&mut out, ". Your job is to turn it into an interactive block with static text + swappable spans.\n\nOutput format:\nReturn a JSON array with EXACTLY one block in this schema:\n\n[\n  {\n    \\\"id\\\": \\\"b1\\\",\n    \\\"segments\\\": [\n      { \\\"type\\\": \\\"static\\\", \\\"text\\\": \\\"...\\\" },\n      { \\\"type\\\": \\\"swappable\\\", \\\"id\\\": \\\"s1\\\", \\\"variants\\\": [\n        { \\\"text\\\": \\\"...\\\", \\\"register\\\": \\\"neutral\\\", \\\"note\\\": \\\"\\\", \\\"difficulty\\\": 2 }\n      ]}\n    ]\n  }\n]\n\nRules:\n- The block must preserve the meaning of the segment.\n- Each swappable span MUST include a neutral variant that matches the exact text from the segment.\n- Variants arrays should contain ONLY the neutral variant for now (register: \\\"neutral\\\").\n- ");
    if dense_spans {
        push_str(&mut out, "Aim for 3-5 swappable spans.");
    } else {
        push_str(&mut out, "Aim for 1-2 swappable spans.");
    }
    push_str(&mut out, "\n\nReturn ONLY the JSON array. No markdown.");
    string_from(&out)
}

/// The system prompt for generating register-graded variants of one anchor phrase,
/// first a neutral one; without `adult_mode` the vulgar register is left out.
pub fn span_variants_system_prompt(
    target_language: &str,
    _source_language: Option<&str>,
    adult_mode: bool,
) -> (r: String)
    ensures
        r@ == variants_prompt(target_language@, adult_mode),
{
    let lang = language_name(target_language);
    let mut out: Vec<char> = Vec::new();
    push_str(&mut out, "You are a ");
    push_str(&mut out, lang);
    push_str(&mut out, " language expert. You will be given a segment context and an anchor phrase within it.\n\nReturn a JSON array of variants. Each item:\n{ \\\"text\\\": \\\"...\\\", \\\"register\\\": \\\"neutral|formal|literary|casual|colloquial|vulgar\\\", \\\"note\\\": \\\"English learner note\\\", \\\"difficulty\\\": 1-5 }\n\nRules:\n- The FIRST variant MUST be the most natural neutral phrasing.\n- Keep meaning consistent with the segment context.\n- Aim for 2-4 variants total.\n\nRegister guidance:\n");
    if adult_mode {
        push_str(&mut out, "Generate variants across the FULL register spectrum:\n- formal\n- literary\n- neutral\n- casual\n- colloquial\n- vulgar");
    } else {
        push_str(&mut out, "Generate variants across these registers:\n- formal\n- literary\n- neutral\n- casual\n- colloquial\n\nKeep all variants family-friendly.");
    }
    push_str(&mut out, "\n\nReturn ONLY the JSON array. No markdown.");
    string_from(&out)
}

} // verus!
