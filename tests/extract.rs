use boka::extract::{blocks_from_json, parse_planned_blocks, parse_variants, variants_from_json};
use boka::extract::parse_value;
use boka::json::{sanitize_json_trailing_commas, strip_code_fences, Json};
use boka::plan::{PlannedSegment, PlannedVariant};
use boka::types::ApiError;

fn v(text: &str, register: &str, note: &str, difficulty: u8) -> PlannedVariant {
    PlannedVariant { text: text.into(), register: register.into(), note: note.into(), difficulty }
}

#[test]
fn fenced_json_parses_like_bare_json() {
    let bare = r#"[{"text":"a","register":"formal"},{"text":"b"}]"#;
    let fenced = format!("```json\n{}\n```", bare);
    assert_eq!(parse_variants(&fenced), parse_variants(bare));
    assert_eq!(parse_variants(bare).unwrap().len(), 2);
    let plain_fence = format!("  ```\n{}\n```  ", bare);
    assert_eq!(parse_variants(&plain_fence), parse_variants(bare));
    let block = r#"{"segments":[{"type":"static","text":"x"}]}"#;
    assert_eq!(parse_planned_blocks(&format!("```json{}```", block)), parse_planned_blocks(block));
}

#[test]
fn trailing_comma_is_tolerated() {
    let with = r#"[{"text":"a"},{"text":"b"},]"#;
    let without = r#"[{"text":"a"},{"text":"b"}]"#;
    let got = parse_variants(with).unwrap();
    assert_eq!(got, parse_variants(without).unwrap());
    assert_eq!(got, vec![v("a", "", "", 2), v("b", "", "", 2)]);
    let blocks = parse_planned_blocks(with).unwrap();
    assert_eq!(blocks, parse_planned_blocks(without).unwrap());
    assert_eq!(blocks.len(), 2);
    assert_eq!(blocks[1].segments, vec![PlannedSegment::Static("b".into())]);
}

#[test]
fn variants_object_and_array_agree() {
    let items = r#"[{"text":"x","register":"casual","note":"n","difficulty":4},{"text":"y"}]"#;
    let obj = format!(r#"{{"variants":{}}}"#, items);
    assert_eq!(parse_variants(&obj), parse_variants(items));
    assert_eq!(parse_variants(items).unwrap()[0], v("x", "casual", "n", 4));
}

#[test]
fn single_variant_object_and_blank_variants() {
    assert_eq!(parse_variants(r#"{"text":"solo","register":"neutral"}"#).unwrap(), vec![v("solo", "neutral", "", 2)]);
    assert_eq!(parse_variants(r#"[{"text":"  "},{"text":"ok","note":null}]"#).unwrap(), vec![v("ok", "", "", 2)]);
}

#[test]
fn variant_shape_errors() {
    match parse_variants(r#"{"foo":1}"#) {
        Err(ApiError::Parse(m)) => assert_eq!(m, r#"JSON parse: expected array/object variant | output: {"foo":1}"#),
        other => panic!("{:?}", other),
    }
    match parse_variants("42") {
        Err(ApiError::Parse(m)) => assert_eq!(m, "JSON parse: expected array/object | output: 42"),
        other => panic!("{:?}", other),
    }
    match parse_variants(r#"[{"text":5}]"#) {
        Err(ApiError::Parse(m)) => assert!(m.starts_with("JSON parse: invalid variant")),
        other => panic!("{:?}", other),
    }
    assert!(parse_variants(r#"[{"text":"a","difficulty":300}]"#).is_err());
}

#[test]
fn unparsable_output_reports_bounded_excerpt() {
    let junk = "x".repeat(1000);
    match parse_variants(&junk) {
        Err(ApiError::Parse(m)) => {
            assert!(m.starts_with("JSON parse: "));
            let tail = m.split(" | output: ").nth(1).unwrap();
            assert_eq!(tail.chars().count(), 801);
            assert!(tail.ends_with('\u{2026}'));
        }
        other => panic!("{:?}", other),
    }
}

#[test]
fn blocks_from_all_shapes() {
    let bs = parse_planned_blocks(
        r#"[{"id":"b1","segments":[{"type":"static","text":"Hi "},{"type":"swappable","id":"s1","variants":[{"text":"there","register":"neutral","note":"n","difficulty":1}]},{"type":"mystery","text":"!"}]}]"#,
    )
    .unwrap();
    assert_eq!(bs.len(), 1);
    assert_eq!(bs[0].id, "b1");
    assert_eq!(bs[0].segments.len(), 3);
    assert_eq!(bs[0].segments[2], PlannedSegment::Static("!".into()));
    match &bs[0].segments[1] {
        PlannedSegment::Swappable(s) => {
            assert_eq!(s.id, "s1");
            assert_eq!(s.variants, vec![v("there", "neutral", "n", 1)]);
        }
        other => panic!("{:?}", other),
    }
    let text_only = parse_planned_blocks(r#"{"id":"t","text":"plain"}"#).unwrap();
    assert_eq!(text_only[0].id, "t");
    assert_eq!(text_only[0].segments, vec![PlannedSegment::Static("plain".into())]);
}

#[test]
fn block_shape_errors() {
    match parse_planned_blocks(r#"{"nothing":true}"#) {
        Err(ApiError::Parse(m)) => assert!(m.starts_with("JSON parse: missing `segments`")),
        other => panic!("{:?}", other),
    }
    match parse_planned_blocks(r#"[{"nothing":true}]"#) {
        Err(ApiError::Parse(m)) => assert!(m.starts_with("JSON parse: block missing `segments`")),
        other => panic!("{:?}", other),
    }
    match parse_planned_blocks(r#"{"segments":5}"#) {
        Err(ApiError::Parse(m)) => assert!(m.starts_with("JSON parse: invalid block")),
        other => panic!("{:?}", other),
    }
    match parse_planned_blocks("\"str\"") {
        Err(ApiError::Parse(m)) => assert!(m.starts_with("JSON parse: expected array/object")),
        other => panic!("{:?}", other),
    }
}

#[test]
fn json_values_from_the_parser() {
    let chars: Vec<char> = r#"{"a":[1,-2,2.5,null,true,"s"]}"#.chars().collect();
    match parse_value(&chars).unwrap() {
        Json::Object(es) => {
            assert_eq!(es[0].0, "a");
            match &es[0].1 {
                Json::Array(items) => {
                    assert!(matches!(items[0], Json::Number(Some(1))));
                    assert!(matches!(items[1], Json::Number(None)));
                    assert!(matches!(items[2], Json::Number(None)));
                    assert!(matches!(items[3], Json::Null));
                    assert!(matches!(items[4], Json::Bool(true)));
                    assert!(matches!(&items[5], Json::Str(s) if s == "s"));
                }
                other => panic!("{:?}", other),
            }
        }
        other => panic!("{:?}", other),
    }
    let bad: Vec<char> = "[1,]".chars().collect();
    assert!(matches!(parse_value(&bad), Ok(Json::Array(items)) if items.len() == 1));
    let worse: Vec<char> = "[1,,]".chars().collect();
    assert!(parse_value(&worse).is_err());
}

#[test]
fn decoding_parsed_values() {
    let value = Json::Object(vec![("variants".to_string(), Json::Array(vec![Json::Object(vec![
        ("text".to_string(), Json::Str("hey".to_string())),
        ("difficulty".to_string(), Json::Number(Some(5))),
    ])]))]);
    assert_eq!(variants_from_json(&value).unwrap(), vec![v("hey", "", "", 5)]);
    assert_eq!(variants_from_json(&Json::Null), Err("expected array/object".to_string()));
    assert_eq!(blocks_from_json(&Json::Array(vec![])).unwrap(), vec![]);
    assert_eq!(blocks_from_json(&Json::Bool(true)), Err("expected array/object".to_string()));
}

#[test]
fn sanitizer_drops_only_trailing_commas() {
    assert_eq!(sanitize_json_trailing_commas("[1, 2 ,\n ]"), "[1, 2 \n ]");
    assert_eq!(sanitize_json_trailing_commas(r#"{"a": ",}", "b": 1,}"#), r#"{"a": ",}", "b": 1}"#);
    assert_eq!(sanitize_json_trailing_commas(r#"["\",]",]"#), r#"["\",]"]"#);
    assert_eq!(sanitize_json_trailing_commas("[1,2]"), "[1,2]");
    assert_eq!(sanitize_json_trailing_commas("a, b"), "a, b");
}

#[test]
fn fences_are_stripped() {
    let s: String = strip_code_fences("  ```json\n[1]\n```  ").into_iter().collect();
    assert_eq!(s, "[1]");
    let s: String = strip_code_fences("```\n{}\n```").into_iter().collect();
    assert_eq!(s, "{}");
    let s: String = strip_code_fences("plain").into_iter().collect();
    assert_eq!(s, "plain");
}
