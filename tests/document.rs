use std::collections::HashSet;

use boka::document::{build_doc_from_blocks, normalize_register, register_from_lowercase, DocToken};
use boka::plan::{PlannedBlock, PlannedSegment, PlannedSpan, PlannedVariant};

fn var(text: &str, register: &str, note: &str) -> PlannedVariant {
    PlannedVariant { text: text.into(), register: register.into(), note: note.into(), difficulty: 3 }
}

fn block(segments: Vec<PlannedSegment>) -> PlannedBlock {
    PlannedBlock { id: "b".into(), segments }
}

fn swap(vs: Vec<PlannedVariant>) -> PlannedSegment {
    PlannedSegment::Swappable(PlannedSpan { id: "s".into(), variants: vs })
}

fn text(v: &str) -> DocToken {
    DocToken::Text { value: v.into() }
}

#[test]
fn static_only_blocks_give_text_and_separators() {
    let doc = build_doc_from_blocks(vec![
        block(vec![PlannedSegment::Static("One".into()), PlannedSegment::Static("".into())]),
        block(vec![PlannedSegment::Static("Two".into())]),
        block(vec![]),
    ]);
    assert!(doc.spans.is_empty());
    assert_eq!(doc.tokens, vec![text("One"), text("\n\n"), text("Two"), text("\n\n")]);
}

#[test]
fn n_blocks_have_n_minus_one_separators() {
    for n in 0..5 {
        let blocks: Vec<PlannedBlock> =
            (0..n).map(|i| block(vec![PlannedSegment::Static(format!("t{}", i)), swap(vec![var("x", "neutral", "")])])).collect();
        let doc = build_doc_from_blocks(blocks);
        let seps = doc.tokens.iter().filter(|t| **t == text("\n\n")).count();
        assert_eq!(seps, if n == 0 { 0 } else { n - 1 });
        assert_eq!(doc.spans.len(), n);
    }
    assert!(build_doc_from_blocks(vec![]).tokens.is_empty());
}

#[test]
fn variant_ids_unique_with_shared_registers() {
    let doc = build_doc_from_blocks(vec![
        block(vec![swap(vec![var("a", "neutral", ""), var("b", "Neutral", ""), var("c", "FORMAL", " "), var("d", "weird", "")])]),
        block(vec![swap(vec![var("e", "neutral", "note"), var("f", "neutral", "")])]),
    ]);
    let s1 = &doc.spans[0];
    assert_eq!(s1.id, "span-1");
    let ids: Vec<&str> = s1.variants.iter().map(|v| v.id.as_str()).collect();
    assert_eq!(ids, vec!["span-1-neutral", "span-1-neutral-1", "span-1-formal", "span-1-neutral-3"]);
    assert_eq!(s1.variants[3].register, "neutral");
    assert_eq!(s1.variants[2].note, None);
    assert_eq!(s1.source_text, "a");
    assert_eq!(s1.active_variant_index, 0);
    let s2 = &doc.spans[1];
    assert_eq!(s2.variants[0].id, "span-2-neutral");
    assert_eq!(s2.variants[0].note.as_deref(), Some("note"));
    assert_eq!(s2.variants[1].id, "span-2-neutral-1");
    assert_eq!(s2.variants[1].difficulty, Some(3));
    let all: Vec<&String> = doc.spans.iter().flat_map(|s| s.variants.iter().map(|v| &v.id)).collect();
    let set: HashSet<&String> = all.iter().cloned().collect();
    assert_eq!(set.len(), all.len());
}

#[test]
fn span_without_variants_has_empty_source() {
    let doc = build_doc_from_blocks(vec![block(vec![swap(vec![])])]);
    assert_eq!(doc.spans[0].source_text, "");
    assert!(doc.spans[0].variants.is_empty());
    assert_eq!(doc.tokens, vec![DocToken::Span { span_id: "span-1".into() }]);
    assert!(doc.span("span-1").is_some());
    assert!(doc.span("span-2").is_none());
}

#[test]
fn many_spans_are_numbered_in_order() {
    let segs: Vec<PlannedSegment> = (0..12).map(|_| swap(vec![var("x", "casual", "")])).collect();
    let doc = build_doc_from_blocks(vec![block(segs)]);
    assert_eq!(doc.spans[11].id, "span-12");
    assert_eq!(doc.spans[11].variants[0].id, "span-12-casual");
}

#[test]
fn registers_normalize() {
    assert_eq!(normalize_register("Formal"), "formal");
    assert_eq!(normalize_register("LITERARY"), "literary");
    assert_eq!(normalize_register("vulgar"), "vulgar");
    assert_eq!(normalize_register("slangy"), "neutral");
    assert_eq!(normalize_register(""), "neutral");
    assert_eq!(register_from_lowercase("colloquial"), "colloquial");
    assert_eq!(register_from_lowercase("Casual"), "neutral");
}
