use vstd::prelude::*;

verus! {

/// One phrasing of a span, as the model planned it.
#[derive(Debug, Clone, PartialEq, Eq)]
pub struct PlannedVariant {
    pub text: String,
    pub register: String,
    pub note: String,
    pub difficulty: u8,
}

/// A swappable span and its phrasings, first the anchor.
#[derive(Debug, Clone, PartialEq, Eq)]
pub struct PlannedSpan {
    pub id: String,
    pub variants: Vec<PlannedVariant>,
}

/// A part of a planned block: fixed text, or a span with alternatives.
#[derive(Debug, Clone, PartialEq, Eq)]
pub enum PlannedSegment {
    Static(String),
    Swappable(PlannedSpan),
}

/// The interactive structure planned for one source segment.
#[derive(Debug, Clone, PartialEq, Eq)]
pub struct PlannedBlock {
    pub id: String,
    pub segments: Vec<PlannedSegment>,
}

/// What a planned variant holds.
pub struct VariantModel {
    pub text: Seq<char>,
    pub register: Seq<char>,
    pub note: Seq<char>,
    pub difficulty: u8,
}

/// What a planned segment holds.
pub enum SegmentModel {
    Static(Seq<char>),
    Swappable { id: Seq<char>, variants: Seq<VariantModel> },
}

/// What a planned block holds.
pub struct BlockModel {
    pub id: Seq<char>,
    pub segments: Seq<SegmentModel>,
}

impl View for PlannedVariant {
    type V = VariantModel;

    open spec fn view(&self) -> VariantModel {
        VariantModel {
            text: self.text@,
            register: self.register@,
            note: self.note@,
            difficulty: self.difficulty,
        }
    }
}

pub open spec fn variants_view(vs: Seq<PlannedVariant>) -> Seq<VariantModel> {
    vs.map_values(|v: PlannedVariant| v@)
}

impl View for PlannedSegment {
    type V = SegmentModel;

    open spec fn view(&self) -> SegmentModel {
        match self {
            PlannedSegment::Static(t) => SegmentModel::Static(t@),
            PlannedSegment::Swappable(s) => SegmentModel::Swappable {
                id: s.id@,
                variants: variants_view(s.variants@),
            },
        }
    }
}

pub open spec fn segments_view(ss: Seq<PlannedSegment>) -> Seq<SegmentModel> {
    ss.map_values(|s: PlannedSegment| s@)
}

impl View for PlannedBlock {
    type V = BlockModel;

    open spec fn view(&self) -> BlockModel {
        BlockModel { id: self.id@, segments: segments_view(self.segments@) }
    }
}

pub open spec fn blocks_view(bs: Seq<PlannedBlock>) -> Seq<BlockModel> {
    bs.map_values(|b: PlannedBlock| b@)
}

} // verus!

verus! {

impl PlannedVariant {
    /// A copy holding the same text, register, note and difficulty.
    pub fn copy(&self) -> (r: PlannedVariant)
        ensures
            r@ == self@,
    {
        PlannedVariant {
            text: self.text.clone(),
            register: self.register.clone(),
            note: self.note.clone(),
            difficulty: self.difficulty,
        }
    }
}

/// A copy of each variant, in order.
pub fn copy_variants(vs: &Vec<PlannedVariant>) -> (r: Vec<PlannedVariant>)
    ensures
        variants_view(r@) == variants_view(vs@),
{
    let mut out: Vec<PlannedVariant> = Vec::new();
    let mut i: usize = 0;
    while i < vs.len()
        invariant
            i <= vs@.len(),
            variants_view(out@) == variants_view(vs@.subrange(0, i as int)),
        decreases vs@.len() - i,
    {
        let v = vs[i].copy();
        let ghost before = out@;
        out.push(v);
        proof {
            assert(variants_view(out@) =~= variants_view(before).push(v@));
            assert(variants_view(vs@.subrange(0, i + 1)) =~= variants_view(
                vs@.subrange(0, i as int),
            ).push(vs@[i as int]@));
        }
        i = i + 1;
    }
    assert(vs@.subrange(0, i as int) =~= vs@);
    out
}

impl PlannedSegment {
    /// A copy holding the same text, or the same span.
    pub fn copy(&self) -> (r: PlannedSegment)
        ensures
            r@ == self@,
    {
        match self {
            PlannedSegment::Static(t) => PlannedSegment::Static(t.clone()),
            PlannedSegment::Swappable(s) => PlannedSegment::Swappable(
                PlannedSpan { id: s.id.clone(), variants: copy_variants(&s.variants) },
            ),
        }
    }
}

impl PlannedBlock {
    /// A copy holding the same id and segments.
    pub fn copy(&self) -> (r: PlannedBlock)
        ensures
            r@ == self@,
    {
        let mut out: Vec<PlannedSegment> = Vec::new();
        let mut i: usize = 0;
        while i < self.segments.len()
            invariant
                i <= self.segments@.len(),
                segments_view(out@) == segments_view(self.segments@.subrange(0, i as int)),
            decreases self.segments@.len() - i,
        {
            let s = self.segments[i].copy();
            let ghost before = out@;
            out.push(s);
            proof {
                assert(segments_view(out@) =~= segments_view(before).push(s@));
                assert(segments_view(self.segments@.subrange(0, i + 1)) =~= segments_view(
                    self.segments@.subrange(0, i as int),
                ).push(self.segments@[i as int]@));
            }
            i = i + 1;
        }
        assert(self.segments@.subrange(0, i as int) =~= self.segments@);
        PlannedBlock { id: self.id.clone(), segments: out }
    }
}

/// A copy of each block, in order.
pub fn copy_blocks(bs: &Vec<PlannedBlock>) -> (r: Vec<PlannedBlock>)
    ensures
        blocks_view(r@) == blocks_view(bs@),
{
    let mut out: Vec<PlannedBlock> = Vec::new();
    let mut i: usize = 0;
    while i < bs.len()
        invariant
            i <= bs@.len(),
            blocks_view(out@) == blocks_view(bs@.subrange(0, i as int)),
        decreases bs@.len() - i,
    {
        let b = bs[i].copy();
        let ghost before = out@;
        out.push(b);
        proof {
            assert(blocks_view(out@) =~= blocks_view(before).push(b@));
            assert(blocks_view(bs@.subrange(0, i + 1)) =~= blocks_view(bs@.subrange(0, i as int)).push(
                bs@[i as int]@,
            ));
        }
        i = i + 1;
    }
    assert(bs@.subrange(0, i as int) =~= bs@);
    out
}

} // verus!
