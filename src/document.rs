use vstd::prelude::*;

use crate::plan::{blocks_view, BlockModel, PlannedBlock, PlannedSegment, PlannedSpan, SegmentModel, VariantModel, variants_view};
use crate::text::{decimal, decimal_chars, push_chars, push_str, string_from, str_eq, trim, trim_str};

verus! {

/// Progress of one round of work on a segment.
#[derive(Debug, Clone, Copy, PartialEq, Eq, Structural)]
pub enum SegmentStage {
    Pending,
    Ready,
    Error,
}

/// One sentence-like unit of a job and how far its translation has come.
#[derive(Debug, Clone)]
pub struct TranslationSegment {
    pub id: String,
    pub source: String,
    pub base_text: Option<String>,
    pub base_stage: SegmentStage,
    pub span_stage: SegmentStage,
    pub variant_count: u32,
}

/// A translation job: its segments, in source order, and whether all are done.
#[derive(Debug, Clone)]
pub struct TranslationJob {
    pub id: String,
    pub segments: Vec<TranslationSegment>,
    pub ready: bool,
}

/// One phrasing of a span, ready to render.
#[derive(Debug, Clone, PartialEq, Eq)]
pub struct Variant {
    pub id: String,
    pub register: String,
    pub text: String,
    pub note: Option<String>,
    pub difficulty: Option<u8>,
}

/// A swappable span, ready to render.
#[derive(Debug, Clone, PartialEq, Eq)]
pub struct Span {
    pub id: String,
    pub source_text: String,
    pub variants: Vec<Variant>,
    pub active_variant_index: usize,
}

/// One token of a rendered document: text, or a reference to a span.
#[derive(Debug, Clone, PartialEq, Eq)]
pub enum DocToken {
    Text { value: String },
    Span { span_id: String },
}

/// A render-ready document: its tokens, and its spans in the order they were numbered
/// (`span-1`, `span-2`, ...), each named by one `Span` token.
#[derive(Debug, Clone)]
pub struct InteractiveDoc {
    pub tokens: Vec<DocToken>,
    pub spans: Vec<Span>,
}

// ---- models ----

pub struct VariantView {
    pub id: Seq<char>,
    pub register: Seq<char>,
    pub text: Seq<char>,
    pub note: Option<Seq<char>>,
    pub difficulty: Option<u8>,
}

pub struct SpanView {
    pub id: Seq<char>,
    pub source_text: Seq<char>,
    pub variants: Seq<VariantView>,
    pub active_variant_index: usize,
}

pub enum TokenView {
    Text(Seq<char>),
    Span(Seq<char>),
}

pub struct DocView {
    pub tokens: Seq<TokenView>,
    pub spans: Seq<SpanView>,
}

impl View for Variant {
    type V = VariantView;

    open spec fn view(&self) -> VariantView {
        VariantView {
            id: self.id@,
            register: self.register@,
            text: self.text@,
            note: match self.note {
                Some(n) => Some(n@),
                None => None,
            },
            difficulty: self.difficulty,
        }
    }
}

impl View for Span {
    type V = SpanView;

    open spec fn view(&self) -> SpanView {
        SpanView {
            id: self.id@,
            source_text: self.source_text@,
            variants: self.variants@.map_values(|v: Variant| v@),
            active_variant_index: self.active_variant_index,
        }
    }
}

impl View for DocToken {
    type V = TokenView;

    open spec fn view(&self) -> TokenView {
        match self {
            DocToken::Text { value } => TokenView::Text(value@),
            DocToken::Span { span_id } => TokenView::Span(span_id@),
        }
    }
}

impl View for InteractiveDoc {
    type V = DocView;

    open spec fn view(&self) -> DocView {
        DocView {
            tokens: self.tokens@.map_values(|t: DocToken| t@),
            spans: self.spans@.map_values(|s: Span| s@),
        }
    }
}

// ---- registers ----

/// What `str::to_lowercase` makes of a text.
pub uninterp spec fn lower_of(s: Seq<char>) -> Seq<char>;

/// Relies on `str::to_lowercase`: the result depends on the characters alone.
#[verifier::external_body]
fn lowercase(s: &str) -> (r: String)
    ensures
        r@ == lower_of(s@),
{
    s.to_lowercase()
}

/// One of the six register names.
pub open spec fn is_register_name(r: Seq<char>) -> bool {
    ||| r == "formal"@
    ||| r == "literary"@
    ||| r == "neutral"@
    ||| r == "casual"@
    ||| r == "colloquial"@
    ||| r == "vulgar"@
}

/// The register a lower-cased label names: itself when it is a register name, else `neutral`.
pub open spec fn register_of(lower: Seq<char>) -> Seq<char> {
    if is_register_name(lower) {
        lower
    } else {
        "neutral"@
    }
}

/// The register that a free-form label stands for.
pub open spec fn normalized_register(label: Seq<char>) -> Seq<char> {
    register_of(lower_of(label))
}

/// The register a lower-cased label names.
pub fn register_from_lowercase(lower: &str) -> (r: String)
    ensures
        r@ == register_of(lower@),
{
    if str_eq(lower, "formal") {
        "formal".to_owned()
    } else if str_eq(lower, "literary") {
        "literary".to_owned()
    } else if str_eq(lower, "neutral") {
        "neutral".to_owned()
    } else if str_eq(lower, "casual") {
        "casual".to_owned()
    } else if str_eq(lower, "colloquial") {
        "colloquial".to_owned()
    } else if str_eq(lower, "vulgar") {
        "vulgar".to_owned()
    } else {
        "neutral".to_owned()
    }
}

/// The register that a free-form label stands for; unknown labels become `neutral`.
pub fn normalize_register(input: &str) -> (r: String)
    ensures
        r@ == normalized_register(input@),
{
    let lower = lowercase(input);
    register_from_lowercase(lower.as_str())
}

// ---- the assembled document ----

/// The id of the `n`-th span of a document.
pub open spec fn span_id(n: nat) -> Seq<char> {
    "span-"@ + decimal(n)
}

/// The id of variant `i` of a span: the span id and register, and the index too when
/// an earlier variant of the span has the same register.
pub open spec fn variant_id(span: Seq<char>, register: Seq<char>, i: nat, repeated: bool) -> Seq<
    char,
> {
    if repeated {
        span + "-"@ + register + "-"@ + decimal(i)
    } else {
        span + "-"@ + register
    }
}

/// Whether an earlier variant than `i` has the same normalized register.
pub open spec fn seen_before(vs: Seq<VariantModel>, i: int) -> bool {
    exists|j: int| 0 <= j < i && #[trigger] normalized_register(vs[j].register) == normalized_register(vs[i].register)
}

/// The rendered form of variant `i` of a span.
pub open spec fn render_variant(span: Seq<char>, vs: Seq<VariantModel>, i: int) -> VariantView {
    let reg = normalized_register(vs[i].register);
    VariantView {
        id: variant_id(span, reg, i as nat, seen_before(vs, i)),
        register: reg,
        text: vs[i].text,
        note: if trim(vs[i].note).len() == 0 {
            None
        } else {
            Some(vs[i].note)
        },
        difficulty: Some(vs[i].difficulty),
    }
}

/// The rendered form of the `n`-th span of a document, with these variants.
pub open spec fn render_span(n: nat, vs: Seq<VariantModel>) -> SpanView {
    SpanView {
        id: span_id(n),
        source_text: if vs.len() > 0 {
            vs[0].text
        } else {
            Seq::empty()
        },
        variants: Seq::new(vs.len(), |i: int| render_variant(span_id(n), vs, i)),
        active_variant_index: 0,
    }
}

/// The document after one more planned segment: non-empty static text becomes a text
/// token, a span is numbered next and referenced by a span token.
pub open spec fn add_segment(d: DocView, seg: SegmentModel) -> DocView {
    match seg {
        SegmentModel::Static(t) => if t.len() == 0 {
            d
        } else {
            DocView { tokens: d.tokens.push(TokenView::Text(t)), spans: d.spans }
        },
        SegmentModel::Swappable { id, variants } => {
            let s = render_span(d.spans.len() + 1, variants);
            DocView { tokens: d.tokens.push(TokenView::Span(s.id)), spans: d.spans.push(s) }
        },
    }
}

/// The document after the first `k` segments.
pub open spec fn add_segments(d: DocView, segs: Seq<SegmentModel>, k: nat) -> DocView
    decreases k,
{
    if k == 0 {
        d
    } else {
        add_segment(add_segments(d, segs, (k - 1) as nat), segs[k - 1])
    }
}

/// The token that separates consecutive blocks.
pub open spec fn separator() -> Seq<char> {
    "\n\n"@
}

/// The document of the first `n` blocks.
pub open spec fn doc_prefix(bs: Seq<BlockModel>, n: nat) -> DocView
    decreases n,
{
    if n == 0 {
        DocView { tokens: Seq::empty(), spans: Seq::empty() }
    } else {
        let d = doc_prefix(bs, (n - 1) as nat);
        let d2 = if n > 1 {
            DocView { tokens: d.tokens.push(TokenView::Text(separator())), spans: d.spans }
        } else {
            d
        };
        add_segments(d2, bs[n - 1].segments, bs[n - 1].segments.len())
    }
}

/// The document of a list of planned blocks.
pub open spec fn doc_of(bs: Seq<BlockModel>) -> DocView {
    doc_prefix(bs, bs.len())
}

fn span_id_string(n: u128) -> (r: String)
    ensures
        r@ == span_id(n as nat),
{
    let mut out: Vec<char> = Vec::new();
    push_str(&mut out, "span-");
    let d = decimal_chars(n);
    push_chars(&mut out, &d);
    string_from(&out)
}

fn variant_id_string(span: &str, register: &str, i: usize, repeated: bool) -> (r: String)
    ensures
        r@ == variant_id(span@, register@, i as nat, repeated),
{
    let mut out: Vec<char> = Vec::new();
    push_str(&mut out, span);
    push_str(&mut out, "-");
    push_str(&mut out, register);
    if repeated {
        push_str(&mut out, "-");
        let d = decimal_chars(i as u128);
        push_chars(&mut out, &d);
    }
    string_from(&out)
}

/// Renders the `n`-th span of a document.
#[verifier::rlimit(60)]
fn render_span_exec(n: u128, s: &PlannedSpan) -> (r: Span)
    ensures
        r@ == render_span(n as nat, variants_view(s.variants@)),
{
    let ghost vs = variants_view(s.variants@);
    let id = span_id_string(n);
    let mut vars: Vec<Variant> = Vec::new();
    let mut i: usize = 0;
    while i < s.variants.len()
        invariant
            i <= s.variants@.len(),
            vars@.len() == i,
            vs == variants_view(s.variants@),
            id@ == span_id(n as nat),
            vars@.map_values(|v: Variant| v@) == Seq::new(
                i as nat,
                |k: int| render_variant(span_id(n as nat), vs, k),
            ),
        decreases s.variants@.len() - i,
    {
        let v = &s.variants[i];
        let reg = normalize_register(v.register.as_str());
        let mut repeated = false;
        let mut j: usize = 0;
        while j < i
            invariant
                j <= i < s.variants@.len(),
                vars@.len() == i,
                vs == variants_view(s.variants@),
                reg@ == normalized_register(vs[i as int].register),
                vars@.map_values(|v: Variant| v@) == Seq::new(
                    i as nat,
                    |k: int| render_variant(span_id(n as nat), vs, k),
                ),
                repeated == exists|k: int|
                    0 <= k < j && #[trigger] normalized_register(vs[k].register)
                        == normalized_register(vs[i as int].register),
            decreases i - j,
        {
            assert(vars@.map_values(|v: Variant| v@)[j as int] == render_variant(
                span_id(n as nat),
                vs,
                j as int,
            ));
            if vars[j].register == reg {
                repeated = true;
            }
            j = j + 1;
        }
        let vid = variant_id_string(id.as_str(), reg.as_str(), i, repeated);
        let nt = trim_str(v.note.as_str());
        let note = if nt.len() == 0 {
            None
        } else {
            Some(v.note.clone())
        };
        let var = Variant {
            id: vid,
            register: reg,
            text: v.text.clone(),
            note,
            difficulty: Some(v.difficulty),
        };
        let ghost before = vars@;
        vars.push(var);
        proof {
            assert(var@ == render_variant(span_id(n as nat), vs, i as int));
            assert(vars@.map_values(|v: Variant| v@) =~= before.map_values(|v: Variant| v@).push(
                var@,
            ));
            assert(vars@.map_values(|v: Variant| v@) =~= Seq::new(
                (i + 1) as nat,
                |k: int| render_variant(span_id(n as nat), vs, k),
            ));
        }
        i = i + 1;
    }
    let source_text = if s.variants.len() > 0 {
        s.variants[0].text.clone()
    } else {
        String::new()
    };
    let r = Span { id, source_text, variants: vars, active_variant_index: 0 };
    assert(r@.variants =~= render_span(n as nat, vs).variants);
    r
}

/// Folds planned blocks, in order, into a render-ready document.
#[verifier::rlimit(60)]
pub fn build_doc_from_blocks(blocks: Vec<PlannedBlock>) -> (r: InteractiveDoc)
    ensures
        r@ == doc_of(blocks_view(blocks@)),
{
    let ghost bs = blocks_view(blocks@);
    let mut doc = InteractiveDoc { tokens: Vec::new(), spans: Vec::new() };
    assert(doc@.tokens =~= Seq::<TokenView>::empty());
    assert(doc@.spans =~= Seq::<SpanView>::empty());
    let mut bi: usize = 0;
    while bi < blocks.len()
        invariant
            bi <= blocks@.len(),
            bs == blocks_view(blocks@),
            doc@ == doc_prefix(bs, bi as nat),
        decreases blocks@.len() - bi,
    {
        if bi > 0 {
            let ghost before = doc@;
            doc.tokens.push(DocToken::Text { value: "\n\n".to_owned() });
            assert(doc@.tokens =~= before.tokens.push(TokenView::Text(separator())));
        }
        let ghost start = doc@;
        let segs = &blocks[bi].segments;
        assert(bs[bi as int].segments == crate::plan::segments_view(segs@));
        let mut si: usize = 0;
        while si < segs.len()
            invariant
                si <= segs@.len(),
                bi < blocks@.len(),
                segs == &blocks@[bi as int].segments,
                bs == blocks_view(blocks@),
                doc@ == add_segments(start, bs[bi as int].segments, si as nat),
            decreases segs@.len() - si,
        {
            let ghost before = doc@;
            assert(bs[bi as int].segments[si as int] == segs@[si as int]@);
            match &segs[si] {
                PlannedSegment::Static(t) => {
                    if !t.as_str().is_empty() {
                        doc.tokens.push(DocToken::Text { value: t.clone() });
                        assert(doc@.tokens =~= before.tokens.push(TokenView::Text(t@)));
                    }
                    assert(doc@.spans =~= before.spans);
                },
                PlannedSegment::Swappable(s) => {
                    let n: u128 = doc.spans.len() as u128 + 1;
                    let span = render_span_exec(n, s);
                    let sid = span.id.clone();
                    doc.tokens.push(DocToken::Span { span_id: sid });
                    doc.spans.push(span);
                    assert(doc@.tokens =~= before.tokens.push(TokenView::Span(span@.id)));
                    assert(doc@.spans =~= before.spans.push(span@));
                },
            }
            si = si + 1;
        }
        bi = bi + 1;
    }
    doc
}

impl InteractiveDoc {
    /// The span with the given id.
    pub fn span(&self, id: &str) -> (r: Option<&Span>)
        ensures
            match r {
                Some(s) => self.spans@.contains(*s) && s.id@ == id@,
                None => forall|i: int| 0 <= i < self.spans@.len() ==> self.spans@[i].id@ != id@,
            },
    {
        let mut i: usize = 0;
        while i < self.spans.len()
            invariant
                i <= self.spans@.len(),
                forall|k: int| 0 <= k < i ==> self.spans@[k].id@ != id@,
            decreases self.spans@.len() - i,
        {
            if str_eq(self.spans[i].id.as_str(), id) {
                return Some(&self.spans[i]);
            }
            i = i + 1;
        }
        None
    }
}


// ---- laws ----

/// No planned segment is a span.
pub open spec fn no_spans(bs: Seq<BlockModel>) -> bool {
    forall|i: int, k: int|
        0 <= i < bs.len() && 0 <= k < bs[i].segments.len() ==> #[trigger] bs[i].segments[k] is Static
}

/// No static text is the block separator itself.
pub open spec fn no_separator_text(bs: Seq<BlockModel>) -> bool {
    forall|i: int, k: int|
        0 <= i < bs.len() && 0 <= k < bs[i].segments.len() ==> #[trigger] bs[i].segments[k]
            != SegmentModel::Static(separator())
}

/// Every token is text.
pub open spec fn all_text(ts: Seq<TokenView>) -> bool {
    forall|i: int| 0 <= i < ts.len() ==> #[trigger] ts[i] is Text
}

/// How many tokens are the block separator.
pub open spec fn separators(ts: Seq<TokenView>) -> nat
    decreases ts.len(),
{
    if ts.len() == 0 {
        0
    } else if ts.last() == TokenView::Text(separator()) {
        separators(ts.drop_last()) + 1
    } else {
        separators(ts.drop_last())
    }
}

proof fn lemma_add_segments_text(d: DocView, segs: Seq<SegmentModel>, k: nat)
    requires
        k <= segs.len(),
        forall|i: int| 0 <= i < segs.len() ==> #[trigger] segs[i] is Static,
        all_text(d.tokens),
    ensures
        add_segments(d, segs, k).spans == d.spans,
        all_text(add_segments(d, segs, k).tokens),
    decreases k,
{
    if k > 0 {
        lemma_add_segments_text(d, segs, (k - 1) as nat);
        let p = add_segments(d, segs, (k - 1) as nat);
        assert(segs[k - 1] is Static);
        if let SegmentModel::Static(t) = segs[k - 1] {
            if t.len() > 0 {
                let ts = p.tokens.push(TokenView::Text(t));
                assert forall|i: int| 0 <= i < ts.len() implies #[trigger] ts[i] is Text by {
                    if i < p.tokens.len() {
                        assert(ts[i] == p.tokens[i]);
                    }
                }
            }
        }
    }
}

/// Without spans, a document has no span entries and only text tokens.
pub proof fn lemma_doc_without_spans(bs: Seq<BlockModel>)
    requires
        no_spans(bs),
    ensures
        doc_of(bs).spans.len() == 0,
        all_text(doc_of(bs).tokens),
{
    lemma_doc_prefix_without_spans(bs, bs.len());
}

proof fn lemma_doc_prefix_without_spans(bs: Seq<BlockModel>, n: nat)
    requires
        no_spans(bs),
        n <= bs.len(),
    ensures
        doc_prefix(bs, n).spans.len() == 0,
        all_text(doc_prefix(bs, n).tokens),
    decreases n,
{
    if n > 0 {
        lemma_doc_prefix_without_spans(bs, (n - 1) as nat);
        let d = doc_prefix(bs, (n - 1) as nat);
        let d2 = if n > 1 {
            DocView { tokens: d.tokens.push(TokenView::Text(separator())), spans: d.spans }
        } else {
            d
        };
        assert(all_text(d2.tokens)) by {
            assert forall|i: int| 0 <= i < d2.tokens.len() implies #[trigger] d2.tokens[i] is Text by {
                if i < d.tokens.len() {
                    assert(d2.tokens[i] == d.tokens[i]);
                }
            }
        }
        let segs = bs[n - 1].segments;
        assert forall|i: int| 0 <= i < segs.len() implies #[trigger] segs[i] is Static by {
            assert(bs[n - 1].segments[i] is Static);
        }
        lemma_add_segments_text(d2, segs, segs.len());
    }
}

proof fn lemma_add_segments_separators(d: DocView, segs: Seq<SegmentModel>, k: nat)
    requires
        k <= segs.len(),
        forall|i: int| 0 <= i < segs.len() ==> #[trigger] segs[i] != SegmentModel::Static(separator()),
    ensures
        separators(add_segments(d, segs, k).tokens) == separators(d.tokens),
    decreases k,
{
    if k > 0 {
        lemma_add_segments_separators(d, segs, (k - 1) as nat);
        let p = add_segments(d, segs, (k - 1) as nat);
        assert(segs[k - 1] != SegmentModel::Static(separator()));
        match segs[k - 1] {
            SegmentModel::Static(t) => {
                if t.len() > 0 {
                    assert(p.tokens.push(TokenView::Text(t)).drop_last() =~= p.tokens);
                }
            },
            SegmentModel::Swappable { id, variants } => {
                let sp = render_span(p.spans.len() + 1, variants);
                assert(p.tokens.push(TokenView::Span(sp.id)).drop_last() =~= p.tokens);
            },
        }
    }
}

proof fn lemma_doc_prefix_separators(bs: Seq<BlockModel>, n: nat)
    requires
        no_separator_text(bs),
        1 <= n <= bs.len(),
    ensures
        separators(doc_prefix(bs, n).tokens) == n - 1,
    decreases n,
{
    let d = doc_prefix(bs, (n - 1) as nat);
    let d2 = if n > 1 {
        DocView { tokens: d.tokens.push(TokenView::Text(separator())), spans: d.spans }
    } else {
        d
    };
    if n > 1 {
        lemma_doc_prefix_separators(bs, (n - 1) as nat);
        assert(d.tokens.push(TokenView::Text(separator())).drop_last() =~= d.tokens);
    } else {
        assert(d.tokens.len() == 0);
    }
    let segs = bs[n - 1].segments;
    assert forall|i: int| 0 <= i < segs.len() implies #[trigger] segs[i] != SegmentModel::Static(
        separator(),
    ) by {
        assert(bs[n - 1].segments[i] != SegmentModel::Static(separator()));
    }
    lemma_add_segments_separators(d2, segs, segs.len());
}

/// A document of `n` blocks holds `n - 1` separator tokens, one between each two
/// consecutive blocks, when no static text is itself a separator.
pub proof fn lemma_doc_separators(bs: Seq<BlockModel>)
    requires
        no_separator_text(bs),
    ensures
        bs.len() > 0 ==> separators(doc_of(bs).tokens) == bs.len() - 1,
        bs.len() == 0 ==> doc_of(bs).tokens.len() == 0,
{
    if bs.len() > 0 {
        lemma_doc_prefix_separators(bs, bs.len());
    }
}

/// No character of `s` is a dash.
pub open spec fn no_dash(s: Seq<char>) -> bool {
    forall|i: int| 0 <= i < s.len() ==> #[trigger] s[i] != '-'
}

/// Whether an earlier rendered variant than `a` has the same register.
pub open spec fn repeated_register(vs: Seq<VariantView>, a: int) -> bool {
    exists|b: int| 0 <= b < a && #[trigger] vs[b].register == vs[a].register
}

/// The `n`-th span of a document, as the assembler names it and its variants.
pub open spec fn span_ids_follow(s: SpanView, n: nat) -> bool {
    &&& s.id == span_id(n)
    &&& forall|a: int|
        0 <= a < s.variants.len() ==> is_register_name(#[trigger] s.variants[a].register)
            && s.variants[a].id == variant_id(
            s.id,
            s.variants[a].register,
            a as nat,
            repeated_register(s.variants, a),
        )
}

/// Every variant id of a document differs from every other.
pub open spec fn variant_ids_unique(d: DocView) -> bool {
    forall|i: int, a: int, j: int, b: int|
        0 <= i < d.spans.len() && 0 <= j < d.spans.len() && 0 <= a < d.spans[i].variants.len() && 0
            <= b < d.spans[j].variants.len() && (i != j || a != b) ==> #[trigger] d.spans[i].variants[a].id
            != #[trigger] d.spans[j].variants[b].id
}

#[verifier::rlimit(60)]
proof fn lemma_render_span_ids(n: nat, vs: Seq<VariantModel>)
    ensures
        span_ids_follow(render_span(n, vs), n),
{
    reveal_strlit("neutral");
    let s = render_span(n, vs);
    assert forall|a: int| 0 <= a < s.variants.len() implies is_register_name(
        #[trigger] s.variants[a].register,
    ) && s.variants[a].id == variant_id(
        s.id,
        s.variants[a].register,
        a as nat,
        repeated_register(s.variants, a),
    ) by {
        assert(s.variants[a] == render_variant(span_id(n), vs, a));
        if seen_before(vs, a) {
            let b = choose|b: int|
                0 <= b < a && #[trigger] normalized_register(vs[b].register) == normalized_register(
                    vs[a].register,
                );
            assert(s.variants[b] == render_variant(span_id(n), vs, b));
            assert(s.variants[b].register == s.variants[a].register);
        }
        if repeated_register(s.variants, a) {
            let b = choose|b: int| 0 <= b < a && #[trigger] s.variants[b].register == s.variants[a].register;
            assert(s.variants[b] == render_variant(span_id(n), vs, b));
            assert(normalized_register(vs[b].register) == normalized_register(vs[a].register));
        }
    }
}

proof fn lemma_add_segments_ids(d: DocView, segs: Seq<SegmentModel>, k: nat)
    requires
        k <= segs.len(),
        forall|i: int| 0 <= i < d.spans.len() ==> span_ids_follow(#[trigger] d.spans[i], (i + 1) as nat),
    ensures
        forall|i: int|
            0 <= i < add_segments(d, segs, k).spans.len() ==> span_ids_follow(
                #[trigger] add_segments(d, segs, k).spans[i],
                (i + 1) as nat,
            ),
    decreases k,
{
    if k > 0 {
        lemma_add_segments_ids(d, segs, (k - 1) as nat);
        let p = add_segments(d, segs, (k - 1) as nat);
        if let SegmentModel::Swappable { id, variants } = segs[k - 1] {
            lemma_render_span_ids(p.spans.len() + 1, variants);
            let ss = p.spans.push(render_span(p.spans.len() + 1, variants));
            assert forall|i: int| 0 <= i < ss.len() implies span_ids_follow(
                #[trigger] ss[i],
                (i + 1) as nat,
            ) by {
                if i < p.spans.len() {
                    assert(ss[i] == p.spans[i]);
                }
            }
        }
    }
}

proof fn lemma_doc_prefix_ids(bs: Seq<BlockModel>, n: nat)
    requires
        n <= bs.len(),
    ensures
        forall|i: int|
            0 <= i < doc_prefix(bs, n).spans.len() ==> span_ids_follow(
                #[trigger] doc_prefix(bs, n).spans[i],
                (i + 1) as nat,
            ),
    decreases n,
{
    if n > 0 {
        lemma_doc_prefix_ids(bs, (n - 1) as nat);
        let d = doc_prefix(bs, (n - 1) as nat);
        let d2 = if n > 1 {
            DocView { tokens: d.tokens.push(TokenView::Text(separator())), spans: d.spans }
        } else {
            d
        };
        lemma_add_segments_ids(d2, bs[n - 1].segments, bs[n - 1].segments.len());
    }
}

/// Splitting at the first dash: equal texts that each start with a dash-free part and
/// a dash have equal parts before and after it.
proof fn lemma_dash_split(x: Seq<char>, y: Seq<char>, x2: Seq<char>, y2: Seq<char>)
    requires
        no_dash(x),
        no_dash(x2),
        x + seq!['-'] + y == x2 + seq!['-'] + y2,
    ensures
        x == x2,
        y == y2,
{
    let l = x + seq!['-'] + y;
    let r = x2 + seq!['-'] + y2;
    if x.len() < x2.len() {
        assert(l[x.len() as int] == '-');
        assert(r[x.len() as int] == x2[x.len() as int]);
    } else if x2.len() < x.len() {
        assert(r[x2.len() as int] == '-');
        assert(l[x2.len() as int] == x[x2.len() as int]);
    }
    assert(x =~= l.subrange(0, x.len() as int));
    assert(x2 =~= r.subrange(0, x2.len() as int));
    assert(y =~= l.subrange(x.len() as int + 1, l.len() as int));
    assert(y2 =~= r.subrange(x2.len() as int + 1, r.len() as int));
}

proof fn lemma_decimal_no_dash(n: nat)
    ensures
        no_dash(decimal(n)),
{
    crate::text::lemma_decimal_digits(n);
}

proof fn lemma_register_no_dash(r: Seq<char>)
    requires
        is_register_name(r),
    ensures
        no_dash(r),
{
    reveal_strlit("formal");
    reveal_strlit("literary");
    reveal_strlit("neutral");
    reveal_strlit("casual");
    reveal_strlit("colloquial");
    reveal_strlit("vulgar");
}

/// What follows the register in a variant id.
pub open spec fn id_tail(i: nat, repeated: bool) -> Seq<char> {
    if repeated {
        seq!['-'] + decimal(i)
    } else {
        Seq::empty()
    }
}

/// A variant id spelled out around its dashes.
proof fn lemma_variant_id_shape(n: nat, r: Seq<char>, i: nat, rep: bool)
    ensures
        variant_id(span_id(n), r, i, rep) == "span"@ + seq!['-'] + (decimal(n) + seq!['-'] + (r
            + id_tail(i, rep))),
{
    reveal_strlit("span-");
    reveal_strlit("span");
    reveal_strlit("-");
    assert("span-"@ =~= "span"@ + seq!['-']);
    assert("-"@ =~= seq!['-']);
    assert(variant_id(span_id(n), r, i, rep) =~= "span"@ + seq!['-'] + (decimal(n) + seq!['-']
        + (r + id_tail(i, rep))));
}

/// A register followed by a tail gives back both.
#[verifier::rlimit(30)]
proof fn lemma_register_tail(r1: Seq<char>, a1: nat, rep1: bool, r2: Seq<char>, a2: nat, rep2: bool)
    requires
        no_dash(r1),
        no_dash(r2),
        r1 + id_tail(a1, rep1) == r2 + id_tail(a2, rep2),
    ensures
        r1 == r2,
        rep1 == rep2,
        rep1 ==> a1 == a2,
{
    let t1 = id_tail(a1, rep1);
    let t2 = id_tail(a2, rep2);
    if rep1 && rep2 {
        assert(r1 + t1 =~= r1 + seq!['-'] + decimal(a1));
        assert(r2 + t2 =~= r2 + seq!['-'] + decimal(a2));
        lemma_dash_split(r1, decimal(a1), r2, decimal(a2));
        crate::text::lemma_decimal_injective(a1, a2);
    } else if rep1 && !rep2 {
        assert(r1 + t1 =~= r2);
        assert((r1 + t1)[r1.len() as int] == '-');
    } else if !rep1 && rep2 {
        assert(r2 + t2 =~= r1);
        assert((r2 + t2)[r2.len() as int] == '-');
    } else {
        assert(r1 + t1 =~= r1);
        assert(r2 + t2 =~= r2);
    }
}

/// The parts of a variant id: the span number, the register, and the index when present.
proof fn lemma_variant_id_parts(
    n1: nat,
    r1: Seq<char>,
    a1: nat,
    rep1: bool,
    n2: nat,
    r2: Seq<char>,
    a2: nat,
    rep2: bool,
)
    requires
        is_register_name(r1),
        is_register_name(r2),
        variant_id(span_id(n1), r1, a1, rep1) == variant_id(span_id(n2), r2, a2, rep2),
    ensures
        n1 == n2,
        r1 == r2,
        rep1 == rep2,
        rep1 ==> a1 == a2,
{
    reveal_strlit("span");
    let sp = "span"@;
    assert(no_dash(sp));
    lemma_register_no_dash(r1);
    lemma_register_no_dash(r2);
    lemma_decimal_no_dash(n1);
    lemma_decimal_no_dash(n2);
    lemma_variant_id_shape(n1, r1, a1, rep1);
    lemma_variant_id_shape(n2, r2, a2, rep2);
    let rest1 = decimal(n1) + seq!['-'] + (r1 + id_tail(a1, rep1));
    let rest2 = decimal(n2) + seq!['-'] + (r2 + id_tail(a2, rep2));
    lemma_dash_split(sp, rest1, sp, rest2);
    lemma_dash_split(decimal(n1), r1 + id_tail(a1, rep1), decimal(n2), r2 + id_tail(a2, rep2));
    crate::text::lemma_decimal_injective(n1, n2);
    lemma_register_tail(r1, a1, rep1, r2, a2, rep2);
}

/// Every variant id of an assembled document is unique, also when two spans, or two
/// variants of one span, share a register.
#[verifier::rlimit(60)]
pub proof fn lemma_variant_ids_unique(bs: Seq<BlockModel>)
    ensures
        variant_ids_unique(doc_of(bs)),
{
    let d = doc_of(bs);
    lemma_doc_prefix_ids(bs, bs.len());
    assert forall|i: int, a: int, j: int, b: int|
        0 <= i < d.spans.len() && 0 <= j < d.spans.len() && 0 <= a < d.spans[i].variants.len() && 0
            <= b < d.spans[j].variants.len() && (i != j || a != b) implies #[trigger] d.spans[i].variants[a].id
        != #[trigger] d.spans[j].variants[b].id by {
        let si = d.spans[i];
        let sj = d.spans[j];
        assert(span_ids_follow(si, (i + 1) as nat));
        assert(span_ids_follow(sj, (j + 1) as nat));
        let ri = si.variants[a].register;
        let rj = sj.variants[b].register;
        assert(is_register_name(ri));
        assert(is_register_name(rj));
        if si.variants[a].id == sj.variants[b].id {
            lemma_variant_id_parts(
                (i + 1) as nat,
                ri,
                a as nat,
                repeated_register(si.variants, a),
                (j + 1) as nat,
                rj,
                b as nat,
                repeated_register(sj.variants, b),
            );
            assert(i == j);
            if !repeated_register(si.variants, a) {
                if a < b {
                    assert(si.variants[a].register == si.variants[b].register);
                    assert(repeated_register(si.variants, b));
                } else {
                    assert(si.variants[b].register == si.variants[a].register);
                    assert(repeated_register(si.variants, a));
                }
            }
        }
    }
}


/// The spans of an assembled document are numbered from one, in order, so no two
/// share an id.
pub proof fn lemma_span_ids_distinct(bs: Seq<BlockModel>)
    ensures
        forall|i: int| 0 <= i < doc_of(bs).spans.len() ==> #[trigger] doc_of(bs).spans[i].id == span_id((i + 1) as nat),
        forall|i: int, j: int|
            0 <= i < doc_of(bs).spans.len() && 0 <= j < doc_of(bs).spans.len() && i != j
                ==> #[trigger] doc_of(bs).spans[i].id != #[trigger] doc_of(bs).spans[j].id,
{
    let d = doc_of(bs);
    lemma_doc_prefix_ids(bs, bs.len());
    assert forall|i: int| 0 <= i < d.spans.len() implies #[trigger] d.spans[i].id == span_id((i + 1) as nat) by {
        assert(span_ids_follow(d.spans[i], (i + 1) as nat));
    }
    assert forall|i: int, j: int|
        0 <= i < d.spans.len() && 0 <= j < d.spans.len() && i != j implies #[trigger] d.spans[i].id
        != #[trigger] d.spans[j].id by {
        assert(span_ids_follow(d.spans[i], (i + 1) as nat));
        assert(span_ids_follow(d.spans[j], (j + 1) as nat));
        if d.spans[i].id == d.spans[j].id {
            let p = "span-"@;
            assert(span_id((i + 1) as nat).subrange(p.len() as int, span_id((i + 1) as nat).len() as int)
                =~= decimal((i + 1) as nat));
            assert(span_id((j + 1) as nat).subrange(p.len() as int, span_id((j + 1) as nat).len() as int)
                =~= decimal((j + 1) as nat));
            crate::text::lemma_decimal_injective((i + 1) as nat, (j + 1) as nat);
        }
    }
}

} // verus!
