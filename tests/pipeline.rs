use std::cell::Cell;

use boka::document::{DocToken, InteractiveDoc, SegmentStage, TranslationJob};
use boka::extract::parse_planned_blocks;
use boka::pipeline::{Emission, Next, Request, Step, TranslationResult, TranslationRun};
use boka::plan::{PlannedBlock, PlannedVariant};
use boka::types::ApiError;

enum Reply {
    Base(Result<String, ApiError>),
    Plan(Result<PlannedBlock, ApiError>),
    Variants(Result<Vec<PlannedVariant>, ApiError>),
}

struct Outcome {
    jobs: Vec<TranslationJob>,
    docs: Vec<InteractiveDoc>,
    calls: Vec<Request>,
    result: Result<TranslationResult, ApiError>,
}

fn collect(step: Step, jobs: &mut Vec<TranslationJob>, docs: &mut Vec<InteractiveDoc>) -> Next {
    for e in step.emissions {
        match e {
            Emission::Job(j) => jobs.push(j),
            Emission::Doc(d) => docs.push(d),
        }
    }
    step.next
}

fn drive(story: &str, cancelled: &Cell<bool>, mut provider: impl FnMut(&Request) -> Reply) -> Outcome {
    let mut jobs = Vec::new();
    let mut docs = Vec::new();
    let mut calls = Vec::new();
    let (mut run, first) = match TranslationRun::start(story.to_string(), "job-1".to_string()) {
        Ok(x) => x,
        Err(e) => return Outcome { jobs, docs, calls, result: Err(e) },
    };
    jobs.push(first);
    let mut next = collect(run.begin(cancelled.get()), &mut jobs, &mut docs);
    loop {
        match next {
            Next::Call(req) => {
                let reply = provider(&req);
                calls.push(req);
                let step = match reply {
                    Reply::Base(r) => run.on_base(r),
                    Reply::Plan(r) => run.on_plan(r, cancelled.get()),
                    Reply::Variants(r) => run.on_variants(r, cancelled.get()),
                };
                next = collect(step, &mut jobs, &mut docs);
            }
            Next::Done(res) => return Outcome { jobs, docs, calls, result: Ok(res) },
            Next::Failed(e) => return Outcome { jobs, docs, calls, result: Err(e) },
        }
    }
}

fn variant(text: &str, register: &str) -> PlannedVariant {
    PlannedVariant { text: text.to_string(), register: register.to_string(), note: String::new(), difficulty: 2 }
}

fn plan(json: &str) -> PlannedBlock {
    parse_planned_blocks(json).unwrap().remove(0)
}

fn stub(req: &Request) -> Reply {
    match req {
        Request::TranslateBase { segment, .. } => {
            if segment == "Hello there." {
                Reply::Base(Ok("Bonjour là.".to_string()))
            } else {
                Reply::Base(Ok("Comment ça va ?".to_string()))
            }
        }
        Request::PlanBlock { base_text } => {
            if base_text == "Bonjour là." {
                Reply::Plan(Ok(plan(
                    r#"[{"id":"b1","segments":[{"type":"swappable","id":"s1","variants":[{"text":"Bonjour","register":"neutral"}]},{"type":"static","text":" là."}]}]"#,
                )))
            } else {
                Reply::Plan(Ok(plan(
                    r#"[{"id":"b2","segments":[{"type":"static","text":"Comment "},{"type":"swappable","id":"s1","variants":[{"text":"ça va","register":"neutral"}]},{"type":"static","text":" ?"}]}]"#,
                )))
            }
        }
        Request::SpanVariants { anchor_phrase, .. } => {
            if anchor_phrase == "Bonjour" {
                Reply::Variants(Ok(vec![variant("Bonjour", "neutral"), variant("Salut", "casual")]))
            } else {
                Reply::Variants(Ok(vec![variant("ça va", "neutral"), variant("ça roule", "colloquial")]))
            }
        }
    }
}

fn text(v: &str) -> DocToken {
    DocToken::Text { value: v.to_string() }
}

fn span(id: &str) -> DocToken {
    DocToken::Span { span_id: id.to_string() }
}

#[test]
fn end_to_end_two_segments() {
    let flag = Cell::new(false);
    let out = drive("Hello there. How are you?", &flag, stub);
    let res = out.result.expect("job completes");
    assert_eq!(res.job.segments.len(), 2);
    assert!(res.job.ready);
    for s in &res.job.segments {
        assert_eq!(s.base_stage, SegmentStage::Ready);
        assert_eq!(s.span_stage, SegmentStage::Ready);
        assert_eq!(s.variant_count, 2);
    }
    assert_eq!(res.job.segments[0].id, "seg-1");
    assert_eq!(res.job.segments[1].source, "How are you?");
    assert_eq!(res.job.segments[0].base_text.as_deref(), Some("Bonjour là."));
    assert_eq!(
        res.doc.tokens,
        vec![span("span-1"), text(" là."), text("\n\n"), text("Comment "), span("span-2"), text(" ?")]
    );
    let s1 = res.doc.span("span-1").unwrap();
    assert_eq!(s1.source_text, "Bonjour");
    assert_eq!(s1.variants[1].id, "span-1-casual");
    assert_eq!(s1.variants[1].text, "Salut");
    let s2 = res.doc.span("span-2").unwrap();
    assert_eq!(s2.variants[0].id, "span-2-neutral");
    assert_eq!(s2.variants[1].register, "colloquial");
    assert_eq!(out.calls.len(), 6);
    let last = out.jobs.last().unwrap();
    assert!(last.ready);
    assert_eq!(out.docs.last().unwrap().tokens, res.doc.tokens);
}

#[test]
fn partial_documents_stream_before_a_segment_finishes() {
    let flag = Cell::new(false);
    let out = drive("Hello there. How are you?", &flag, stub);
    // one document per resolved span, and one per finished segment
    assert_eq!(out.docs.len(), 4);
    assert_eq!(out.docs[0].tokens, vec![span("span-1"), text(" là.")]);
    assert_eq!(out.docs[0].spans[0].variants.len(), 2);
    // job snapshots: initial, base, variants, done, base, variants, done, ready
    assert_eq!(out.jobs.len(), 8);
    assert_eq!(out.jobs[0].segments[0].base_stage, SegmentStage::Pending);
    assert_eq!(out.jobs[1].segments[0].base_stage, SegmentStage::Ready);
    assert_eq!(out.jobs[1].segments[0].span_stage, SegmentStage::Pending);
}

#[test]
fn plan_failure_on_second_segment_stops_the_job() {
    let flag = Cell::new(false);
    let out = drive("One. Two. Three.", &flag, |req| match req {
        Request::TranslateBase { segment, .. } => Reply::Base(Ok(format!("T {}", segment))),
        Request::PlanBlock { base_text } => {
            if base_text == "T Two." {
                Reply::Plan(Err(ApiError::ApiResponse { status: 500, message: "boom".to_string() }))
            } else {
                Reply::Plan(Ok(plan(r#"{"segments":[{"type":"static","text":"x"}]}"#)))
            }
        }
        Request::SpanVariants { .. } => Reply::Variants(Ok(vec![])),
    });
    assert_eq!(out.result.err(), Some(ApiError::ApiResponse { status: 500, message: "boom".to_string() }));
    let last = out.jobs.last().unwrap();
    assert_eq!(last.segments[0].base_stage, SegmentStage::Ready);
    assert_eq!(last.segments[0].span_stage, SegmentStage::Ready);
    assert_eq!(last.segments[1].base_stage, SegmentStage::Ready);
    assert_eq!(last.segments[1].span_stage, SegmentStage::Error);
    assert_eq!(last.segments[2].base_stage, SegmentStage::Pending);
    assert_eq!(last.segments[2].span_stage, SegmentStage::Pending);
    assert!(!last.ready);
    // the failing call was the last one made
    assert_eq!(out.calls.len(), 4);
    assert_eq!(out.calls.last().unwrap(), &Request::PlanBlock { base_text: "T Two.".to_string() });
}

#[test]
fn cancellation_before_second_segment() {
    let flag = Cell::new(false);
    let out = drive("Hello there. How are you?", &flag, |req| {
        let reply = stub(req);
        if let Request::SpanVariants { anchor_phrase, .. } = req {
            if anchor_phrase == "Bonjour" {
                flag.set(true);
            }
        }
        reply
    });
    assert_eq!(out.result.err(), Some(ApiError::Parse("Cancelled".to_string())));
    assert!(out.calls.iter().all(|c| c != &Request::TranslateBase {
        full_story: "Hello there. How are you?".to_string(),
        segment: "How are you?".to_string()
    }));
    assert_eq!(out.calls.len(), 3);
    let doc = out.docs.last().unwrap();
    assert_eq!(doc.tokens, vec![span("span-1"), text(" là.")]);
    assert_eq!(doc.spans.len(), 1);
    let last = out.jobs.last().unwrap();
    assert_eq!(last.segments[0].span_stage, SegmentStage::Ready);
    assert_eq!(last.segments[1].base_stage, SegmentStage::Pending);
}

#[test]
fn cancelled_before_anything_makes_no_call() {
    let flag = Cell::new(true);
    let out = drive("Hello there.", &flag, stub);
    assert_eq!(out.result.err(), Some(ApiError::Parse("Cancelled".to_string())));
    assert!(out.calls.is_empty());
    assert_eq!(out.jobs.len(), 1);
}

#[test]
fn base_failure_marks_both_stages() {
    let flag = Cell::new(false);
    let out = drive("Hello there.", &flag, |_| Reply::Base(Err(ApiError::Http("down".to_string()))));
    assert_eq!(out.result.err(), Some(ApiError::Http("down".to_string())));
    let last = out.jobs.last().unwrap();
    assert_eq!(last.segments[0].base_stage, SegmentStage::Error);
    assert_eq!(last.segments[0].span_stage, SegmentStage::Error);
}

#[test]
fn variants_failure_keeps_resolved_spans() {
    let flag = Cell::new(false);
    let out = drive("How are you?", &flag, |req| match req {
        Request::TranslateBase { .. } => Reply::Base(Ok("a b".to_string())),
        Request::PlanBlock { .. } => Reply::Plan(Ok(plan(
            r#"[{"segments":[{"type":"swappable","variants":[{"text":"a"}]},{"type":"swappable","variants":[{"text":"b"}]}]}]"#,
        ))),
        Request::SpanVariants { anchor_phrase, .. } => {
            if anchor_phrase == "a" {
                Reply::Variants(Ok(vec![variant("a", "neutral"), variant("A", "formal")]))
            } else {
                Reply::Variants(Err(ApiError::Parse("bad".to_string())))
            }
        }
    });
    assert_eq!(out.result.err(), Some(ApiError::Parse("bad".to_string())));
    let last = out.jobs.last().unwrap();
    assert_eq!(last.segments[0].span_stage, SegmentStage::Error);
    assert_eq!(last.segments[0].variant_count, 2);
    assert_eq!(out.docs.len(), 1);
    assert_eq!(out.docs[0].spans[0].variants.len(), 2);
}

#[test]
fn blank_story_is_refused() {
    let flag = Cell::new(false);
    let out = drive("   \n ", &flag, stub);
    assert_eq!(out.result.err(), Some(ApiError::Parse("No segments".to_string())));
    assert!(out.jobs.is_empty());
}

#[test]
fn plan_without_anchors_finishes_segment_at_once() {
    let flag = Cell::new(false);
    let out = drive("Hi.", &flag, |req| match req {
        Request::TranslateBase { .. } => Reply::Base(Ok("Salut.".to_string())),
        Request::PlanBlock { .. } => Reply::Plan(Ok(plan(
            r#"[{"segments":[{"type":"static","text":"Salut."},{"type":"swappable","variants":[{"text":"  "}]}]}]"#,
        ))),
        Request::SpanVariants { .. } => panic!("no anchor to ask about"),
    });
    let res = out.result.unwrap();
    assert_eq!(res.doc.tokens, vec![text("Salut."), span("span-1")]);
    assert_eq!(res.job.segments[0].variant_count, 0);
}
