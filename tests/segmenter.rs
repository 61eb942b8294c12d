use boka::segmenter::split_into_segments;

#[test]
fn splits_after_each_delimiter() {
    assert_eq!(split_into_segments("Hello there. How are you?"), vec!["Hello there.", "How are you?"]);
    assert_eq!(split_into_segments("Wow! Really? Yes."), vec!["Wow!", "Really?", "Yes."]);
}

#[test]
fn blank_input_has_no_segments() {
    assert!(split_into_segments("").is_empty());
    assert!(split_into_segments(" \t\n  ").is_empty());
}

#[test]
fn no_punctuation_is_one_trimmed_segment() {
    assert_eq!(split_into_segments("  just some words  "), vec!["just some words"]);
}

#[test]
fn trailing_text_after_last_delimiter_is_kept() {
    assert_eq!(split_into_segments("One. two"), vec!["One.", "two"]);
}

#[test]
fn lone_delimiters_and_unicode_space() {
    assert_eq!(split_into_segments("a.\u{3000}.b"), vec!["a.", ".", "b"]);
    assert_eq!(split_into_segments("...\u{a0}"), vec![".", ".", "."]);
}

#[test]
fn segments_keep_every_visible_character() {
    let text = "  First one.  Second!\n\nThird?  tail ";
    let joined: String = split_into_segments(text).concat();
    let strip = |s: &str| s.chars().filter(|c| !c.is_whitespace()).collect::<String>();
    assert_eq!(strip(&joined), strip(text));
}
