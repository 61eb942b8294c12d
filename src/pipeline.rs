use vstd::prelude::*;

use crate::document::{build_doc_from_blocks, doc_of, DocView, InteractiveDoc, SegmentStage, TranslationJob, TranslationSegment};
use crate::plan::{blocks_view, copy_blocks, variants_view, BlockModel, PlannedBlock, PlannedSegment, PlannedVariant, SegmentModel, VariantModel};
use crate::segmenter::{segments_of, split_into_segments, strings_view};
use crate::text::{decimal, decimal_chars, push_chars, push_str, string_from, trim, trim_str};
use crate::types::{ApiError, LlmProviderConfig};

verus! {

/// What a caller hands the pipeline to start a job.
#[derive(Debug, Clone)]
pub struct TranslationArgs {
    pub story_text: String,
    pub job_id: String,
    pub target_language: String,
    pub source_language: Option<String>,
    pub adult_mode: bool,
    pub dense_spans: bool,
    pub provider: LlmProviderConfig,
}

/// A finished job and its document.
#[derive(Debug, Clone)]
pub struct TranslationResult {
    pub job: TranslationJob,
    pub doc: InteractiveDoc,
}

/// A provider call the pipeline asks for.
#[derive(Debug, Clone, PartialEq, Eq)]
pub enum Request {
    /// Round one: translate `segment`, with the full story as context.
    TranslateBase { full_story: String, segment: String },
    /// Round two: plan the spans of a translated segment.
    PlanBlock { base_text: String },
    /// Round three: generate the variants of one anchor phrase.
    SpanVariants { segment_context: String, anchor_phrase: String },
}

/// A snapshot for the observers.
#[derive(Debug, Clone)]
pub enum Emission {
    Job(TranslationJob),
    Doc(InteractiveDoc),
}

/// What the pipeline does next.
#[derive(Debug, Clone)]
pub enum Next {
    /// Make this provider call and hand its reply back.
    Call(Request),
    /// The job is complete.
    Done(TranslationResult),
    /// The job stopped with this error.
    Failed(ApiError),
}

/// The snapshots to hand the observers, in order, then what comes next.
#[derive(Debug, Clone)]
pub struct Step {
    pub emissions: Vec<Emission>,
    pub next: Next,
}

/// Where a run stands.
#[derive(Debug, Clone, Copy, PartialEq, Eq, Structural)]
pub enum Phase {
    /// About to start the current segment.
    Start,
    /// Waiting for the current segment's translation.
    AwaitBase,
    /// Waiting for the current segment's block plan.
    AwaitPlan,
    /// Waiting for the variants of one span of the current block.
    AwaitVariants,
    /// Complete, failed or cancelled.
    Over,
}

// ---- models ----

pub struct SegmentView {
    pub id: Seq<char>,
    pub source: Seq<char>,
    pub base_text: Option<Seq<char>>,
    pub base_stage: SegmentStage,
    pub span_stage: SegmentStage,
    pub variant_count: u32,
}

pub struct JobView {
    pub id: Seq<char>,
    pub segments: Seq<SegmentView>,
    pub ready: bool,
}

impl View for TranslationSegment {
    type V = SegmentView;

    open spec fn view(&self) -> SegmentView {
        SegmentView {
            id: self.id@,
            source: self.source@,
            base_text: match self.base_text {
                Some(t) => Some(t@),
                None => None,
            },
            base_stage: self.base_stage,
            span_stage: self.span_stage,
            variant_count: self.variant_count,
        }
    }
}

impl View for TranslationJob {
    type V = JobView;

    open spec fn view(&self) -> JobView {
        JobView {
            id: self.id@,
            segments: self.segments@.map_values(|s: TranslationSegment| s@),
            ready: self.ready,
        }
    }
}

pub enum EmissionView {
    Job(JobView),
    Doc(DocView),
}

impl View for Emission {
    type V = EmissionView;

    open spec fn view(&self) -> EmissionView {
        match self {
            Emission::Job(j) => EmissionView::Job(j@),
            Emission::Doc(d) => EmissionView::Doc(d@),
        }
    }
}

pub open spec fn emissions_view(es: Seq<Emission>) -> Seq<EmissionView> {
    es.map_values(|e: Emission| e@)
}

/// The id of the `k`-th segment of a job.
pub open spec fn segment_id(k: nat) -> Seq<char> {
    "seg-"@ + decimal(k)
}

/// A fresh segment: nothing done yet.
pub open spec fn fresh_segment(k: nat, source: Seq<char>) -> SegmentView {
    SegmentView {
        id: segment_id(k + 1),
        source,
        base_text: None,
        base_stage: SegmentStage::Pending,
        span_stage: SegmentStage::Pending,
        variant_count: 0,
    }
}

/// A job whose segments are the units, none started.
pub open spec fn initial_job(id: Seq<char>, units: Seq<Seq<char>>) -> JobView {
    JobView {
        id,
        segments: Seq::new(units.len(), |k: int| fresh_segment(k as nat, units[k])),
        ready: false,
    }
}

/// The job with segment `i` replaced.
pub open spec fn set_segment(j: JobView, i: int, s: SegmentView) -> JobView {
    JobView { id: j.id, segments: j.segments.update(i, s), ready: j.ready }
}

/// Segment `i` of the job with both stages set.
pub open spec fn with_stages(j: JobView, i: int, base: SegmentStage, span: SegmentStage) -> JobView {
    let s = j.segments[i];
    set_segment(
        j,
        i,
        SegmentView {
            id: s.id,
            source: s.source,
            base_text: s.base_text,
            base_stage: base,
            span_stage: span,
            variant_count: s.variant_count,
        },
    )
}

/// Segment `i` of the job with its translation in place.
pub open spec fn with_base(j: JobView, i: int, t: Seq<char>) -> JobView {
    let s = j.segments[i];
    set_segment(
        j,
        i,
        SegmentView {
            id: s.id,
            source: s.source,
            base_text: Some(t),
            base_stage: SegmentStage::Ready,
            span_stage: s.span_stage,
            variant_count: s.variant_count,
        },
    )
}

/// Segment `i` of the job with its variant count set.
pub open spec fn with_count(j: JobView, i: int, n: u32) -> JobView {
    let s = j.segments[i];
    set_segment(
        j,
        i,
        SegmentView {
            id: s.id,
            source: s.source,
            base_text: s.base_text,
            base_stage: s.base_stage,
            span_stage: s.span_stage,
            variant_count: n,
        },
    )
}

/// The anchor phrase of a planned segment: the first variant's text of a span,
/// when it is not blank.
pub open spec fn anchor_of(seg: SegmentModel) -> Option<Seq<char>> {
    match seg {
        SegmentModel::Swappable { id, variants } => if variants.len() > 0 && trim(
            variants[0].text,
        ).len() > 0 {
            Some(variants[0].text)
        } else {
            None
        },
        _ => None,
    }
}

/// The spans of the first `n` planned segments that have an anchor: their positions
/// and anchors, in order.
pub open spec fn anchors(segs: Seq<SegmentModel>, n: nat) -> Seq<(int, Seq<char>)>
    decreases n,
{
    if n == 0 {
        Seq::empty()
    } else {
        let p = anchors(segs, (n - 1) as nat);
        match anchor_of(segs[n - 1]) {
            Some(a) => p.push(((n - 1) as int, a)),
            None => p,
        }
    }
}

/// The block with the variants of its segment `k` replaced, when that is a span.
pub open spec fn with_variants(b: BlockModel, k: int, vs: Seq<VariantModel>) -> BlockModel {
    match b.segments[k] {
        SegmentModel::Swappable { id, variants } => BlockModel {
            id: b.id,
            segments: b.segments.update(k, SegmentModel::Swappable { id, variants: vs }),
        },
        _ => b,
    }
}

/// Every anchor names a span of the segments.
pub open spec fn anchors_valid(a: Seq<(int, Seq<char>)>, segs: Seq<SegmentModel>) -> bool {
    forall|i: int|
        0 <= i < a.len() ==> 0 <= #[trigger] a[i].0 < segs.len() && segs[a[i].0] is Swappable
}

proof fn lemma_anchors_valid(segs: Seq<SegmentModel>, n: nat)
    requires
        n <= segs.len(),
    ensures
        anchors_valid(anchors(segs, n), segs),
    decreases n,
{
    if n > 0 {
        lemma_anchors_valid(segs, (n - 1) as nat);
        let p = anchors(segs, (n - 1) as nat);
        if let Some(a) = anchor_of(segs[n - 1]) {
            let q = p.push(((n - 1) as int, a));
            assert forall|i: int| 0 <= i < q.len() implies 0 <= #[trigger] q[i].0 < segs.len()
                && segs[q[i].0] is Swappable by {
                if i < p.len() {
                    assert(q[i] == p[i]);
                }
            }
        }
    }
}

/// The message of a job stopped by its cancellation flag.
pub open spec fn cancelled_message() -> Seq<char> {
    "Cancelled"@
}

/// A run of the translation pipeline over one job: the decisions between provider
/// calls. Whoever drives it makes each call it asks for, hands the reply back, and
/// passes every snapshot on to the observers.
pub struct TranslationRun {
    story: String,
    units: Vec<String>,
    job: TranslationJob,
    blocks: Vec<PlannedBlock>,
    current: usize,
    phase: Phase,
    block: PlannedBlock,
    anchors: Vec<(usize, String)>,
    next_anchor: usize,
    variant_count: u32,
    base: String,
}

impl TranslationRun {
    pub closed spec fn story(&self) -> Seq<char> {
        self.story@
    }

    pub closed spec fn units(&self) -> Seq<Seq<char>> {
        strings_view(self.units@)
    }

    pub closed spec fn job(&self) -> JobView {
        self.job@
    }

    /// The blocks of the segments finished so far.
    pub closed spec fn blocks(&self) -> Seq<BlockModel> {
        blocks_view(self.blocks@)
    }

    /// The segment being worked on.
    pub closed spec fn current(&self) -> nat {
        self.current as nat
    }

    pub closed spec fn phase(&self) -> Phase {
        self.phase
    }

    /// The block of the current segment, while its spans are filled.
    pub closed spec fn block(&self) -> BlockModel {
        self.block@
    }

    /// The translation of the current segment.
    pub closed spec fn base(&self) -> Seq<char> {
        self.base@
    }

    pub closed spec fn anchor_list(&self) -> Seq<(int, Seq<char>)> {
        self.anchors@.map_values(|a: (usize, String)| (a.0 as int, a.1@))
    }

    /// How many of the current block's anchors have their variants.
    pub closed spec fn next_anchor(&self) -> nat {
        self.next_anchor as nat
    }

    /// Variants received so far for the current segment.
    pub closed spec fn variant_count(&self) -> u32 {
        self.variant_count
    }

    /// The run's state is consistent: one job segment per unit, one finished block
    /// per finished segment, earlier segments done and later ones untouched.
    pub closed spec fn wf(&self) -> bool {
        &&& self.wf_shape()
        &&& self.wf_segments()
        &&& self.wf_phase()
    }

    pub closed spec fn wf_shape(&self) -> bool {
        &&& self.job@.segments.len() == self.units@.len()
        &&& self.units@.len() > 0
        &&& self.current <= self.units@.len()
        &&& (self.phase != Phase::Over ==> self.current < self.units@.len())
        &&& self.blocks@.len() == self.current
    }

    pub closed spec fn wf_segments(&self) -> bool {
        segments_ok(self.job@.segments, strings_view(self.units@), self.current as nat)
    }

    pub closed spec fn wf_phase(&self) -> bool {
        &&& ((self.phase == Phase::Start || self.phase == Phase::AwaitBase) ==> self.job@.segments[self.current as int]
            == fresh_segment(self.current as nat, strings_view(self.units@)[self.current as int]))
        &&& ((self.phase == Phase::AwaitPlan || self.phase == Phase::AwaitVariants) ==> {
            &&& self.job@.segments[self.current as int].base_text == Some(self.base@)
            &&& self.job@.segments[self.current as int].base_stage == SegmentStage::Ready
            &&& self.job@.segments[self.current as int].span_stage == SegmentStage::Pending
        })
        &&& (self.phase == Phase::AwaitPlan ==> self.job@.segments[self.current as int].variant_count == 0)
        &&& (self.phase == Phase::AwaitVariants ==> {
            &&& self.next_anchor < self.anchors@.len()
            &&& anchors_valid(self.anchor_list(), self.block@.segments)
            &&& self.job@.segments[self.current as int].variant_count == self.variant_count
        })
    }
}

/// The segments of a job over these units, while segment `current` is worked on:
/// ids and sources fixed, earlier segments done, later ones untouched.
pub open spec fn segments_ok(segs: Seq<SegmentView>, units: Seq<Seq<char>>, current: nat) -> bool {
    &&& forall|k: int|
        0 <= k < segs.len() ==> #[trigger] segs[k].id == segment_id((k + 1) as nat)
            && segs[k].source == units[k]
    &&& forall|k: int|
        0 <= k < current ==> #[trigger] segs[k].base_stage == SegmentStage::Ready
            && segs[k].span_stage == SegmentStage::Ready
    &&& forall|k: int|
        current < k < segs.len() ==> #[trigger] segs[k] == fresh_segment(
            k as nat,
            units[k],
        )
}

/// Changing the current segment, but for its id and source, keeps the segments consistent.
proof fn lemma_segments_ok_update(segs: Seq<SegmentView>, units: Seq<Seq<char>>, current: nat, s: SegmentView)
    requires
        segments_ok(segs, units, current),
        current < segs.len(),
        s.id == segs[current as int].id,
        s.source == segs[current as int].source,
    ensures
        segments_ok(segs.update(current as int, s), units, current),
{
    let t = segs.update(current as int, s);
    assert forall|k: int| 0 <= k < t.len() implies #[trigger] t[k].id == segment_id((k + 1) as nat)
        && t[k].source == units[k] by {
        assert(segs[k].id == segment_id((k + 1) as nat));
    }
    assert forall|k: int| 0 <= k < current implies #[trigger] t[k].base_stage == SegmentStage::Ready
        && t[k].span_stage == SegmentStage::Ready by {
        assert(segs[k].base_stage == SegmentStage::Ready);
    }
    assert forall|k: int| current < k < t.len() implies #[trigger] t[k] == fresh_segment(
        k as nat,
        units[k],
    ) by {
        assert(segs[k] == fresh_segment(k as nat, units[k]));
    }
}

/// Segment `i` of the job with its spans done and its variant count set.
pub open spec fn segment_done(j: JobView, i: int, count: u32) -> JobView {
    let s = j.segments[i];
    set_segment(
        j,
        i,
        SegmentView {
            id: s.id,
            source: s.source,
            base_text: s.base_text,
            base_stage: s.base_stage,
            span_stage: SegmentStage::Ready,
            variant_count: count,
        },
    )
}

/// The job marked complete.
pub open spec fn completed(j: JobView) -> JobView {
    JobView { id: j.id, segments: j.segments, ready: true }
}

/// `a + b`, or the largest `u32` when that is larger.
pub open spec fn saturating_add(a: u32, b: nat) -> u32 {
    if a + b > u32::MAX {
        u32::MAX
    } else {
        (a + b) as u32
    }
}

/// Whether `next` asks for round one of unit `c`.
pub open spec fn asks_translation(next: Next, story: Seq<char>, units: Seq<Seq<char>>, c: int) -> bool {
    next matches Next::Call(Request::TranslateBase { full_story, segment }) && full_story@ == story
        && segment@ == units[c]
}

/// Whether `next` stops the job as cancelled.
pub open spec fn is_cancelled(next: Next) -> bool {
    next matches Next::Failed(ApiError::Parse(m)) && m@ == cancelled_message()
}

/// What finishing the current segment with `block` does: the segment is marked done
/// and its block appended, with a job and a document snapshot; then the job completes
/// after its last segment, or else the next segment starts unless cancelled.
pub open spec fn finishes_segment(
    pre: TranslationRun,
    block: BlockModel,
    count: u32,
    cancelled: bool,
    before: Seq<EmissionView>,
    post: TranslationRun,
    r: Step,
) -> bool {
    let c = pre.current() as int;
    let job2 = segment_done(pre.job(), c, count);
    let blocks2 = pre.blocks().push(block);
    let es = before + seq![EmissionView::Job(job2), EmissionView::Doc(doc_of(blocks2))];
    &&& post.blocks() == blocks2
    &&& post.story() == pre.story()
    &&& post.units() == pre.units()
    &&& if c + 1 == pre.units().len() {
        &&& post.job() == completed(job2)
        &&& post.phase() == Phase::Over
        &&& emissions_view(r.emissions@) == es.push(EmissionView::Job(completed(job2)))
        &&& r.next matches Next::Done(res) && res.job@ == completed(job2) && res.doc@ == doc_of(
            blocks2,
        )
    } else {
        &&& post.job() == job2
        &&& post.current() == c + 1
        &&& emissions_view(r.emissions@) == es
        &&& if cancelled {
            post.phase() == Phase::Over && is_cancelled(r.next)
        } else {
            post.phase() == Phase::AwaitBase && asks_translation(
                r.next,
                pre.story(),
                pre.units(),
                c + 1,
            )
        }
    }
}

impl TranslationSegment {
    /// A snapshot of this segment.
    pub fn snapshot(&self) -> (r: TranslationSegment)
        ensures
            r@ == self@,
    {
        TranslationSegment {
            id: self.id.clone(),
            source: self.source.clone(),
            base_text: match &self.base_text {
                Some(t) => Some(t.clone()),
                None => None,
            },
            base_stage: self.base_stage,
            span_stage: self.span_stage,
            variant_count: self.variant_count,
        }
    }
}

impl TranslationJob {
    /// A snapshot of this job.
    pub fn snapshot(&self) -> (r: TranslationJob)
        ensures
            r@ == self@,
    {
        let mut segs: Vec<TranslationSegment> = Vec::new();
        let mut i: usize = 0;
        while i < self.segments.len()
            invariant
                i <= self.segments@.len(),
                segs@.map_values(|s: TranslationSegment| s@) == self.segments@.subrange(
                    0,
                    i as int,
                ).map_values(|s: TranslationSegment| s@),
            decreases self.segments@.len() - i,
        {
            let s = self.segments[i].snapshot();
            let ghost before = segs@;
            segs.push(s);
            proof {
                assert(segs@.map_values(|s: TranslationSegment| s@) =~= before.map_values(
                    |s: TranslationSegment| s@,
                ).push(s@));
                assert(self.segments@.subrange(0, i + 1).map_values(|s: TranslationSegment| s@)
                    =~= self.segments@.subrange(0, i as int).map_values(
                    |s: TranslationSegment| s@,
                ).push(self.segments@[i as int]@));
            }
            i = i + 1;
        }
        assert(self.segments@.subrange(0, i as int) =~= self.segments@);
        TranslationJob { id: self.id.clone(), segments: segs, ready: self.ready }
    }
}

/// The spans of a planned block that have an anchor phrase, with their positions.
fn collect_anchors(b: &PlannedBlock) -> (r: Vec<(usize, String)>)
    ensures
        r@.map_values(|a: (usize, String)| (a.0 as int, a.1@)) == anchors(
            b@.segments,
            b@.segments.len(),
        ),
{
    let mut out: Vec<(usize, String)> = Vec::new();
    let mut i: usize = 0;
    while i < b.segments.len()
        invariant
            i <= b.segments@.len(),
            b@.segments.len() == b.segments@.len(),
            out@.map_values(|a: (usize, String)| (a.0 as int, a.1@)) == anchors(
                b@.segments,
                i as nat,
            ),
        decreases b.segments@.len() - i,
    {
        let ghost before = out@;
        assert(b@.segments[i as int] == b.segments@[i as int]@);
        match &b.segments[i] {
            PlannedSegment::Swappable(s) => {
                if s.variants.len() > 0 {
                    let t = trim_str(s.variants[0].text.as_str());
                    if t.len() > 0 {
                        out.push((i, s.variants[0].text.clone()));
                        assert(out@.map_values(|a: (usize, String)| (a.0 as int, a.1@)) =~= before.map_values(
                            |a: (usize, String)| (a.0 as int, a.1@),
                        ).push((i as int, s.variants@[0].text@)));
                    }
                }
            },
            PlannedSegment::Static(_) => {},
        }
        i = i + 1;
    }
    out
}

/// The id of the `k`-th segment.
fn segment_id_string(k: usize) -> (r: String)
    ensures
        r@ == segment_id(k as nat),
{
    let mut out: Vec<char> = Vec::new();
    push_str(&mut out, "seg-");
    let d = decimal_chars(k as u128);
    push_chars(&mut out, &d);
    string_from(&out)
}

fn cancelled_error() -> (r: ApiError)
    ensures
        r matches ApiError::Parse(m) && m@ == cancelled_message(),
{
    ApiError::Parse("Cancelled".to_owned())
}


impl TranslationRun {
    /// Splits the story and sets up its job, every segment pending. Fails when the
    /// story holds no segment. The job is the first snapshot for the observers.
    #[verifier::rlimit(60)]
    pub fn start(story_text: String, job_id: String) -> (r: Result<
        (TranslationRun, TranslationJob),
        ApiError,
    >)
        ensures
            match r {
                Ok((run, snap)) => {
                    &&& run.wf()
                    &&& run.phase() == Phase::Start
                    &&& run.current() == 0
                    &&& run.story() == story_text@
                    &&& run.units() == segments_of(story_text@)
                    &&& run.job() == initial_job(job_id@, segments_of(story_text@))
                    &&& run.blocks().len() == 0
                    &&& snap@ == run.job()
                    &&& segments_of(story_text@).len() > 0
                },
                Err(ApiError::Parse(m)) => segments_of(story_text@).len() == 0 && m@
                    == "No segments"@,
                Err(_) => false,
            },
    {
        let units = split_into_segments(story_text.as_str());
        if units.len() == 0 {
            return Err(ApiError::Parse("No segments".to_owned()));
        }
        let ghost uv = strings_view(units@);
        let mut segments: Vec<TranslationSegment> = Vec::new();
        let mut k: usize = 0;
        while k < units.len()
            invariant
                k <= units@.len(),
                uv == strings_view(units@),
                segments@.map_values(|s: TranslationSegment| s@) == Seq::new(
                    k as nat,
                    |i: int| fresh_segment(i as nat, uv[i]),
                ),
            decreases units@.len() - k,
        {
            let seg = TranslationSegment {
                id: segment_id_string(k + 1),
                source: units[k].clone(),
                base_text: None,
                base_stage: SegmentStage::Pending,
                span_stage: SegmentStage::Pending,
                variant_count: 0,
            };
            let ghost before = segments@;
            segments.push(seg);
            assert(segments@.map_values(|s: TranslationSegment| s@) =~= Seq::new(
                (k + 1) as nat,
                |i: int| fresh_segment(i as nat, uv[i]),
            )) by {
                assert(segments@.map_values(|s: TranslationSegment| s@) =~= before.map_values(
                    |s: TranslationSegment| s@,
                ).push(seg@));
            }
            k = k + 1;
        }
        let job = TranslationJob { id: job_id, segments, ready: false };
        let run = TranslationRun {
            story: story_text,
            units,
            job,
            blocks: Vec::new(),
            current: 0,
            phase: Phase::Start,
            block: PlannedBlock { id: String::new(), segments: Vec::new() },
            anchors: Vec::new(),
            next_anchor: 0,
            variant_count: 0,
            base: String::new(),
        };
        assert(run.job@.segments =~= initial_job(run.job@.id, uv).segments);
        let snap = run.job.snapshot();
        Ok((run, snap))
    }

    /// Starts the current segment: stops the job if it was cancelled, else asks for
    /// the segment's translation, with the full story as context.
    pub fn begin(&mut self, cancelled: bool) -> (r: Step)
        requires
            old(self).wf(),
            old(self).phase() == Phase::Start,
        ensures
            final(self).wf(),
            final(self).job() == old(self).job(),
            final(self).blocks() == old(self).blocks(),
            final(self).current() == old(self).current(),
            final(self).story() == old(self).story(),
            final(self).units() == old(self).units(),
            r.emissions@.len() == 0,
            cancelled ==> final(self).phase() == Phase::Over && is_cancelled(r.next),
            !cancelled ==> final(self).phase() == Phase::AwaitBase && asks_translation(
                r.next,
                old(self).story(),
                old(self).units(),
                old(self).current() as int,
            ),
    {
        let next = if cancelled {
            self.phase = Phase::Over;
            Next::Failed(cancelled_error())
        } else {
            self.phase = Phase::AwaitBase;
            let segment = self.units[self.current].clone();
            Next::Call(Request::TranslateBase { full_story: self.story.clone(), segment })
        };
        Step { emissions: Vec::new(), next }
    }

    /// Takes the reply of round one. On success the translation is stored and the
    /// block plan is asked for; on failure both stages of the segment become errors
    /// and the job stops. Either way a job snapshot goes out.
    #[verifier::rlimit(60)]
    pub fn on_base(&mut self, reply: Result<String, ApiError>) -> (r: Step)
        requires
            old(self).wf(),
            old(self).phase() == Phase::AwaitBase,
        ensures
            final(self).wf(),
            final(self).blocks() == old(self).blocks(),
            final(self).current() == old(self).current(),
            final(self).story() == old(self).story(),
            final(self).units() == old(self).units(),
            emissions_view(r.emissions@) == seq![EmissionView::Job(final(self).job())],
            match reply {
                Ok(t) => {
                    &&& final(self).job() == with_base(old(self).job(), old(self).current() as int, t@)
                    &&& final(self).phase() == Phase::AwaitPlan
                    &&& final(self).base() == t@
                    &&& r.next matches Next::Call(Request::PlanBlock { base_text }) && base_text@ == t@
                },
                Err(e) => {
                    &&& final(self).job() == with_stages(
                        old(self).job(),
                        old(self).current() as int,
                        SegmentStage::Error,
                        SegmentStage::Error,
                    )
                    &&& final(self).phase() == Phase::Over
                    &&& r.next == Next::Failed(e)
                },
            },
    {
        let c = self.current;
        let ghost old_segs = self.job.segments@;
        match reply {
            Ok(t) => {
                self.job.segments[c].base_text = Some(t.clone());
                self.job.segments[c].base_stage = SegmentStage::Ready;
                self.base = t.clone();
                self.phase = Phase::AwaitPlan;
                assert(self.job@.segments =~= with_base(
                    old(self).job(),
                    c as int,
                    t@,
                ).segments) by {
                    assert(self.job.segments@ =~= old_segs.update(c as int, self.job.segments@[c as int]));
                }
                let mut es: Vec<Emission> = Vec::new();
                es.push(Emission::Job(self.job.snapshot()));
                assert(emissions_view(es@) =~= seq![EmissionView::Job(self.job@)]);
                Step { emissions: es, next: Next::Call(Request::PlanBlock { base_text: t }) }
            },
            Err(e) => {
                self.job.segments[c].base_stage = SegmentStage::Error;
                self.job.segments[c].span_stage = SegmentStage::Error;
                self.phase = Phase::Over;
                assert(self.job@.segments =~= with_stages(
                    old(self).job(),
                    c as int,
                    SegmentStage::Error,
                    SegmentStage::Error,
                ).segments) by {
                    assert(self.job.segments@ =~= old_segs.update(c as int, self.job.segments@[c as int]));
                }
                let mut es: Vec<Emission> = Vec::new();
                es.push(Emission::Job(self.job.snapshot()));
                assert(emissions_view(es@) =~= seq![EmissionView::Job(self.job@)]);
                Step { emissions: es, next: Next::Failed(e) }
            },
        }
    }

    /// Marks the current segment done, appends its block, and goes on: the job
    /// completes after its last segment, else the next segment starts.
    #[verifier::rlimit(60)]
    fn finish_segment(&mut self, es: Vec<Emission>, cancelled: bool) -> (r: Step)
        requires
            old(self).wf(),
            old(self).phase() == Phase::AwaitPlan || old(self).phase() == Phase::AwaitVariants,
        ensures
            final(self).wf(),
            finishes_segment(
                *old(self),
                old(self).block(),
                old(self).variant_count(),
                cancelled,
                emissions_view(es@),
                *final(self),
                r,
            ),
    {
        let c = self.current;
        let n = self.units.len();
        assert(c < n);
        let ghost old_segs = self.job.segments@;
        let ghost before = emissions_view(es@);
        self.job.segments[c].span_stage = SegmentStage::Ready;
        self.job.segments[c].variant_count = self.variant_count;
        let ghost job2 = segment_done(old(self).job(), c as int, old(self).variant_count());
        assert(self.job@.segments =~= job2.segments) by {
            assert(self.job.segments@ =~= old_segs.update(c as int, self.job.segments@[c as int]));
        }
        let mut es = es;
        es.push(Emission::Job(self.job.snapshot()));
        let b = self.block.copy();
        let ghost old_blocks = self.blocks@;
        self.blocks.push(b);
        assert(blocks_view(self.blocks@) =~= blocks_view(old_blocks).push(b@));
        let doc = build_doc_from_blocks(copy_blocks(&self.blocks));
        es.push(Emission::Doc(doc));
        let ghost es2 = before + seq![
            EmissionView::Job(job2),
            EmissionView::Doc(doc_of(blocks_view(self.blocks@))),
        ];
        assert(emissions_view(es@) =~= es2);
        self.current = c + 1;
        assert(segments_ok(self.job@.segments, strings_view(self.units@), self.current as nat));
        if self.current == n {
            let ghost segs2 = self.job@.segments;
            self.job.ready = true;
            assert(self.job@.segments == segs2);
            assert(segments_ok(self.job@.segments, strings_view(self.units@), self.current as nat));
            es.push(Emission::Job(self.job.snapshot()));
            assert(emissions_view(es@) =~= es2.push(EmissionView::Job(completed(job2))));
            self.phase = Phase::Over;
            let doc2 = build_doc_from_blocks(copy_blocks(&self.blocks));
            let job = self.job.snapshot();
            return Step { emissions: es, next: Next::Done(TranslationResult { job, doc: doc2 }) };
        }
        if cancelled {
            self.phase = Phase::Over;
            return Step { emissions: es, next: Next::Failed(cancelled_error()) };
        }
        self.phase = Phase::AwaitBase;
        let segment = self.units[self.current].clone();
        Step {
            emissions: es,
            next: Next::Call(
                Request::TranslateBase { full_story: self.story.clone(), segment },
            ),
        }
    }
}


impl TranslationRun {
    /// Takes the reply of round two. A failure marks the segment's spans as errors and
    /// stops the job. A plan without anchors finishes the segment; otherwise, unless
    /// cancelled, the variants of its first anchor are asked for.
    #[verifier::rlimit(60)]
    pub fn on_plan(&mut self, reply: Result<PlannedBlock, ApiError>, cancelled: bool) -> (r: Step)
        requires
            old(self).wf(),
            old(self).phase() == Phase::AwaitPlan,
        ensures
            final(self).wf(),
            final(self).story() == old(self).story(),
            final(self).units() == old(self).units(),
            match reply {
                Err(e) => {
                    &&& final(self).job() == with_stages(
                        old(self).job(),
                        old(self).current() as int,
                        SegmentStage::Ready,
                        SegmentStage::Error,
                    )
                    &&& final(self).phase() == Phase::Over
                    &&& final(self).blocks() == old(self).blocks()
                    &&& emissions_view(r.emissions@) == seq![EmissionView::Job(final(self).job())]
                    &&& r.next == Next::Failed(e)
                },
                Ok(b) => {
                    let a = anchors(b@.segments, b@.segments.len());
                    if a.len() == 0 {
                        finishes_segment(*old(self), b@, 0, cancelled, Seq::empty(), *final(self), r)
                    } else {
                        &&& final(self).job() == old(self).job()
                        &&& final(self).blocks() == old(self).blocks()
                        &&& final(self).current() == old(self).current()
                        &&& r.emissions@.len() == 0
                        &&& if cancelled {
                            final(self).phase() == Phase::Over && is_cancelled(r.next)
                        } else {
                            &&& final(self).phase() == Phase::AwaitVariants
                            &&& final(self).block() == b@
                            &&& final(self).anchor_list() == a
                            &&& final(self).next_anchor() == 0
                            &&& final(self).variant_count() == 0
                            &&& final(self).base() == old(self).base()
                            &&& r.next matches Next::Call(
                                Request::SpanVariants { segment_context, anchor_phrase },
                            ) && segment_context@ == old(self).base() && anchor_phrase@ == a[0].1
                        }
                    }
                },
            },
    {
        let c = self.current;
        let ghost old_segs = self.job.segments@;
        match reply {
            Err(e) => {
                self.job.segments[c].span_stage = SegmentStage::Error;
                self.phase = Phase::Over;
                assert(self.job@.segments =~= with_stages(
                    old(self).job(),
                    c as int,
                    SegmentStage::Ready,
                    SegmentStage::Error,
                ).segments) by {
                    assert(self.job.segments@ =~= old_segs.update(c as int, self.job.segments@[c as int]));
                }
                let mut es: Vec<Emission> = Vec::new();
                es.push(Emission::Job(self.job.snapshot()));
                assert(emissions_view(es@) =~= seq![EmissionView::Job(self.job@)]);
                Step { emissions: es, next: Next::Failed(e) }
            },
            Ok(b) => {
                let found = collect_anchors(&b);
                proof {
                    lemma_anchors_valid(b@.segments, b@.segments.len());
                }
                if found.len() == 0 {
                    self.block = b;
                    self.variant_count = 0;
                    let none: Vec<Emission> = Vec::new();
                    assert(emissions_view(none@) =~= Seq::<EmissionView>::empty());
                    return self.finish_segment(none, cancelled);
                }
                if cancelled {
                    self.phase = Phase::Over;
                    return Step { emissions: Vec::new(), next: Next::Failed(cancelled_error()) };
                }
                let anchor = found[0].1.clone();
                assert(found@.map_values(|a: (usize, String)| (a.0 as int, a.1@))[0] == (found@[0].0 as int, found@[0].1@));
                self.block = b;
                self.anchors = found;
                self.next_anchor = 0;
                self.variant_count = 0;
                self.phase = Phase::AwaitVariants;
                Step {
                    emissions: Vec::new(),
                    next: Next::Call(
                        Request::SpanVariants {
                            segment_context: self.base.clone(),
                            anchor_phrase: anchor,
                        },
                    ),
                }
            },
        }
    }

    /// Takes the reply of round three. A failure marks the segment's spans as errors
    /// and stops the job. Otherwise the span's variants are replaced, the count grows,
    /// and a job snapshot and a document of the blocks so far, the current one
    /// included, go out; then the next anchor is asked for, unless cancelled, or the
    /// segment finishes.
    #[verifier::rlimit(60)]
    pub fn on_variants(&mut self, reply: Result<Vec<PlannedVariant>, ApiError>, cancelled: bool) -> (r:
        Step)
        requires
            old(self).wf(),
            old(self).phase() == Phase::AwaitVariants,
        ensures
            final(self).wf(),
            final(self).story() == old(self).story(),
            final(self).units() == old(self).units(),
            match reply {
                Err(e) => {
                    &&& final(self).job() == with_stages(
                        old(self).job(),
                        old(self).current() as int,
                        SegmentStage::Ready,
                        SegmentStage::Error,
                    )
                    &&& final(self).phase() == Phase::Over
                    &&& final(self).blocks() == old(self).blocks()
                    &&& emissions_view(r.emissions@) == seq![EmissionView::Job(final(self).job())]
                    &&& r.next == Next::Failed(e)
                },
                Ok(vs) => {
                    let c = old(self).current() as int;
                    let k = old(self).anchor_list()[old(self).next_anchor() as int].0;
                    let nb = with_variants(old(self).block(), k, variants_view(vs@));
                    let cnt = saturating_add(old(self).variant_count(), vs@.len());
                    let job1 = with_count(old(self).job(), c, cnt);
                    let es = seq![
                        EmissionView::Job(job1),
                        EmissionView::Doc(doc_of(old(self).blocks().push(nb))),
                    ];
                    if old(self).next_anchor() + 1 < old(self).anchor_list().len() {
                        &&& final(self).job() == job1
                        &&& final(self).blocks() == old(self).blocks()
                        &&& final(self).current() == old(self).current()
                        &&& final(self).block() == nb
                        &&& emissions_view(r.emissions@) == es
                        &&& if cancelled {
                            final(self).phase() == Phase::Over && is_cancelled(r.next)
                        } else {
                            &&& final(self).phase() == Phase::AwaitVariants
                            &&& final(self).next_anchor() == old(self).next_anchor() + 1
                            &&& r.next matches Next::Call(
                                Request::SpanVariants { segment_context, anchor_phrase },
                            ) && segment_context@ == old(self).base() && anchor_phrase@
                                == old(self).anchor_list()[old(self).next_anchor() as int + 1].1
                        }
                    } else {
                        finishes_segment(*old(self), nb, cnt, cancelled, es, *final(self), r)
                    }
                },
            },
    {
        let c = self.current;
        let ghost old_segs = self.job.segments@;
        match reply {
            Err(e) => {
                self.job.segments[c].span_stage = SegmentStage::Error;
                self.phase = Phase::Over;
                assert(self.job@.segments =~= with_stages(
                    old(self).job(),
                    c as int,
                    SegmentStage::Ready,
                    SegmentStage::Error,
                ).segments) by {
                    assert(self.job.segments@ =~= old_segs.update(c as int, self.job.segments@[c as int]));
                }
                let mut es: Vec<Emission> = Vec::new();
                es.push(Emission::Job(self.job.snapshot()));
                assert(emissions_view(es@) =~= seq![EmissionView::Job(self.job@)]);
                Step { emissions: es, next: Next::Failed(e) }
            },
            Ok(vs) => {
                let nv = vs.len();
                let ghost vsv = variants_view(vs@);
                let k = self.anchors[self.next_anchor].0;
                assert(self.anchor_list()[self.next_anchor as int] == (k as int, self.anchors@[self.next_anchor as int].1@));
                assert(self.anchor_list()[self.next_anchor as int].0 == k as int);
                assert(anchors_valid(self.anchor_list(), self.block@.segments));
                assert(0 <= k < self.block@.segments.len());
                assert(self.block@.segments[k as int] is Swappable);
                let ghost old_block = self.block@;
                let new_seg = match &self.block.segments[k] {
                    PlannedSegment::Swappable(s) => PlannedSegment::Swappable(
                        crate::plan::PlannedSpan { id: s.id.clone(), variants: vs },
                    ),
                    PlannedSegment::Static(t) => PlannedSegment::Static(t.clone()),
                };
                let ghost old_psegs = self.block.segments@;
                self.block.segments[k] = new_seg;
                assert(self.block@ == with_variants(old_block, k as int, vsv)) by {
                    assert(self.block.segments@ =~= old_psegs.update(k as int, new_seg));
                    assert(crate::plan::segments_view(self.block.segments@) =~= crate::plan::segments_view(old_psegs).update(k as int, new_seg@));
                }
                assert(anchors_valid(self.anchor_list(), self.block@.segments)) by {
                    assert forall|i: int| 0 <= i < self.anchor_list().len() implies 0 <= #[trigger] self.anchor_list()[i].0
                        < self.block@.segments.len() && self.block@.segments[self.anchor_list()[i].0] is Swappable by {
                        assert(old_block.segments[self.anchor_list()[i].0] is Swappable);
                    }
                }
                let cnt: u32 = if nv as u64 > (u32::MAX - self.variant_count) as u64 {
                    u32::MAX
                } else {
                    self.variant_count + nv as u32
                };
                self.variant_count = cnt;
                self.job.segments[c].variant_count = cnt;
                assert(self.job@.segments =~= with_count(old(self).job(), c as int, cnt).segments) by {
                    assert(self.job.segments@ =~= old_segs.update(c as int, self.job.segments@[c as int]));
                }
                proof {
                    lemma_segments_ok_update(old_segs.map_values(|s: TranslationSegment| s@), strings_view(self.units@), c as nat, self.job.segments@[c as int]@);
                    assert(old_segs.map_values(|s: TranslationSegment| s@).update(c as int, self.job.segments@[c as int]@) =~= self.job@.segments);
                }
                assert(segments_ok(self.job@.segments, strings_view(self.units@), self.current as nat));
                let mut es: Vec<Emission> = Vec::new();
                es.push(Emission::Job(self.job.snapshot()));
                let mut tmp = copy_blocks(&self.blocks);
                let cur = self.block.copy();
                let ghost tmp0 = tmp@;
                tmp.push(cur);
                assert(blocks_view(tmp@) =~= blocks_view(self.blocks@).push(self.block@)) by {
                    assert(blocks_view(tmp@) =~= blocks_view(tmp0).push(cur@));
                }
                es.push(Emission::Doc(build_doc_from_blocks(tmp)));
                assert(emissions_view(es@) =~= seq![
                    EmissionView::Job(self.job@),
                    EmissionView::Doc(doc_of(blocks_view(self.blocks@).push(self.block@))),
                ]);
                let na = self.anchors.len();
                if self.next_anchor + 1 < na {
                    self.next_anchor = self.next_anchor + 1;
                    if cancelled {
                        self.phase = Phase::Over;
                        return Step { emissions: es, next: Next::Failed(cancelled_error()) };
                    }
                    let anchor = self.anchors[self.next_anchor].1.clone();
                    return Step {
                        emissions: es,
                        next: Next::Call(
                            Request::SpanVariants {
                                segment_context: self.base.clone(),
                                anchor_phrase: anchor,
                            },
                        ),
                    };
                }
                let ghost mid = *self;
                let r = self.finish_segment(es, cancelled);
                assert(segment_done(mid.job(), c as int, cnt).segments =~= segment_done(
                    old(self).job(),
                    c as int,
                    cnt,
                ).segments);
                r
            },
        }
    }
}


/// When round two fails for the segment being worked on, the job snapshot that
/// follows shows every earlier segment done, this one translated with its spans in
/// error, and every later one untouched.
pub proof fn lemma_plan_failure_snapshot(run: TranslationRun)
    requires
        run.wf(),
        run.phase() == Phase::AwaitPlan,
    ensures
        ({
            let c = run.current() as int;
            let j = with_stages(run.job(), c, SegmentStage::Ready, SegmentStage::Error);
            &&& j.segments.len() == run.units().len()
            &&& forall|k: int|
                0 <= k < c ==> #[trigger] j.segments[k].base_stage == SegmentStage::Ready
                    && j.segments[k].span_stage == SegmentStage::Ready
            &&& j.segments[c].base_stage == SegmentStage::Ready
            &&& j.segments[c].span_stage == SegmentStage::Error
            &&& j.segments[c].base_text == Some(run.base())
            &&& forall|k: int|
                c < k < j.segments.len() ==> (#[trigger] j.segments[k]).base_stage
                    == SegmentStage::Pending && j.segments[k].span_stage == SegmentStage::Pending
                    && j.segments[k].base_text is None
        }),
{
    let c = run.current() as int;
    let j = with_stages(run.job(), c, SegmentStage::Ready, SegmentStage::Error);
    assert forall|k: int| 0 <= k < c implies #[trigger] j.segments[k].base_stage
        == SegmentStage::Ready && j.segments[k].span_stage == SegmentStage::Ready by {
        assert(run.job().segments[k].base_stage == SegmentStage::Ready);
    }
    assert forall|k: int| c < k < j.segments.len() implies (#[trigger] j.segments[k]).base_stage
        == SegmentStage::Pending && j.segments[k].span_stage == SegmentStage::Pending
        && j.segments[k].base_text is None by {
        assert(run.job().segments[k] == fresh_segment(k as nat, run.units()[k]));
    }
}

} // verus!
