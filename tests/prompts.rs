use boka::prompts::{base_translation_system_prompt, language_name, span_planning_system_prompt, span_variants_system_prompt};

#[test]
fn language_codes_resolve() {
    assert_eq!(language_name("fr"), "French");
    assert_eq!(language_name("jp"), "Japanese");
    assert_eq!(language_name("en-gb"), "British English");
    assert_eq!(language_name("nb"), "Norwegian");
    assert_eq!(language_name("Klingon"), "Klingon");
    assert_eq!(language_name(""), "");
}

#[test]
fn base_prompt_names_languages_and_tone() {
    let p = base_translation_system_prompt("fr", Some("de"), false);
    assert!(p.starts_with("You are a French translation expert. The source text is written in German. Translate the requested segment into French."));
    assert!(p.ends_with("Keep it family-friendly. Colloquial is fine, vulgar is not."));
    let q = base_translation_system_prompt("es", None, true);
    assert!(q.starts_with("You are a Spanish translation expert. Translate the requested segment into Spanish."));
    assert!(q.ends_with("Keep tone authentic; slang/profanity is allowed if it's in the source."));
    assert!(q.contains("\n\nGuidelines:\n- Translate naturally, not literally."));
}

#[test]
fn planning_prompt_density() {
    let dense = span_planning_system_prompt("it", None, true);
    assert!(dense.starts_with("You are a Italian language expert creating interactive learning materials."));
    assert!(dense.contains("Aim for 3-5 swappable spans."));
    assert!(dense.contains("single translated segment in Italian."));
    assert!(dense.ends_with("Return ONLY the JSON array. No markdown."));
    let sparse = span_planning_system_prompt("it", Some("en"), false);
    assert!(sparse.contains("Aim for 1-2 swappable spans."));
    assert!(!sparse.contains("3-5"));
}

#[test]
fn variants_prompt_registers() {
    let adult = span_variants_system_prompt("ko", None, true);
    assert!(adult.starts_with("You are a Korean language expert."));
    assert!(adult.contains("FULL register spectrum"));
    assert!(adult.contains("- vulgar"));
    let family = span_variants_system_prompt("ko", None, false);
    assert!(family.contains("Keep all variants family-friendly."));
    assert!(!family.contains("- vulgar"));
    assert!(family.contains("The FIRST variant MUST be the most natural neutral phrasing."));
}
