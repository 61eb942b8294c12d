use vstd::prelude::*;

use crate::json::{
    excerpt, excerpt_of, json_get, json_get_str, json_parse, parse_json,
    sanitize_json_trailing_commas, strip_code_fences, strip_fences, without_trailing_commas, Json,
};
use crate::plan::{
    blocks_view, segments_view, variants_view, BlockModel, PlannedBlock, PlannedSegment,
    PlannedSpan, PlannedVariant, SegmentModel, VariantModel,
};
use crate::json::{fence, fence_json};
use crate::text::{all_ws, chars_of, is_ws, push_chars, push_str, string_from, strip_prefixes, strip_suffixes, trim, trim_chars, trim_end, trim_start};
use crate::types::ApiError;

verus! {

/// The difficulty of a variant that does not state one.
pub const DEFAULT_DIFFICULTY: u8 = 2;

// ---- fields of an object, with the defaults the extractor applies ----

/// A string field: absent, or a string.
pub open spec fn str_ok(j: Json, key: Seq<char>) -> bool {
    match json_get(j, key) {
        None => true,
        Some(Json::Str(_)) => true,
        _ => false,
    }
}

/// A string field's value, empty when absent.
pub open spec fn str_or_empty(j: Json, key: Seq<char>) -> Seq<char> {
    match json_get(j, key) {
        Some(Json::Str(s)) => s@,
        _ => Seq::empty(),
    }
}

/// An optional string field: absent, null, or a string.
pub open spec fn opt_str_ok(j: Json, key: Seq<char>) -> bool {
    match json_get(j, key) {
        None => true,
        Some(Json::Null) => true,
        Some(Json::Str(_)) => true,
        _ => false,
    }
}

/// An optional small-integer field: absent, null, or an integer from 0 to 255.
pub open spec fn opt_u8_ok(j: Json, key: Seq<char>) -> bool {
    match json_get(j, key) {
        None => true,
        Some(Json::Null) => true,
        Some(Json::Number(Some(n))) => n <= 255,
        _ => false,
    }
}

/// An optional small-integer field's value, or `d` when absent or null.
pub open spec fn u8_or(j: Json, key: Seq<char>, d: u8) -> u8 {
    match json_get(j, key) {
        Some(Json::Number(Some(n))) => n as u8,
        _ => d,
    }
}

// ---- variants ----

/// A variant object whose fields all have the expected types.
pub open spec fn variant_ok(j: Json) -> bool {
    &&& j is Object
    &&& str_ok(j, "text"@)
    &&& str_ok(j, "register"@)
    &&& opt_str_ok(j, "note"@)
    &&& opt_u8_ok(j, "difficulty"@)
}

/// The variant a well-typed variant object stands for.
pub open spec fn variant_of(j: Json) -> VariantModel {
    VariantModel {
        text: str_or_empty(j, "text"@),
        register: str_or_empty(j, "register"@),
        note: str_or_empty(j, "note"@),
        difficulty: u8_or(j, "difficulty"@, DEFAULT_DIFFICULTY),
    }
}

/// Every item is a well-typed variant object.
pub open spec fn all_variants_ok(items: Seq<Json>) -> bool {
    forall|i: int| 0 <= i < items.len() ==> variant_ok(#[trigger] items[i])
}

/// The variants that the items stand for, in order.
pub open spec fn variants_of(items: Seq<Json>) -> Seq<VariantModel> {
    items.map_values(|j: Json| variant_of(j))
}

/// The variants whose text is not blank, in order.
pub open spec fn nonblank(vs: Seq<VariantModel>) -> Seq<VariantModel>
    decreases vs.len(),
{
    if vs.len() == 0 {
        vs
    } else if trim(vs.last().text).len() > 0 {
        nonblank(vs.drop_last()).push(vs.last())
    } else {
        nonblank(vs.drop_last())
    }
}

/// The variants a value of model output holds, or why it holds none.
///
/// An array of variant objects, an object with a `variants` array, and a single
/// variant object with `text` are accepted; blank variants are dropped.
pub open spec fn variants_from(v: Json) -> Result<Seq<VariantModel>, Seq<char>> {
    match v {
        Json::Array(items) => if all_variants_ok(items@) {
            Ok(nonblank(variants_of(items@)))
        } else {
            Err("invalid variant"@)
        },
        Json::Object(_) => match json_get(v, "variants"@) {
            Some(Json::Array(items)) => if all_variants_ok(items@) {
                Ok(nonblank(variants_of(items@)))
            } else {
                Err("invalid variant"@)
            },
            Some(_) => Err("invalid variant"@),
            None => if json_get(v, "text"@) is Some {
                if variant_ok(v) {
                    Ok(nonblank(seq![variant_of(v)]))
                } else {
                    Err("invalid variant"@)
                }
            } else {
                Err("expected array/object variant"@)
            },
        },
        _ => Err("expected array/object"@),
    }
}

// ---- segments and blocks ----

/// An optional array field: absent, null, or an array of well-typed variant objects.
pub open spec fn opt_variants_ok(j: Json, key: Seq<char>) -> bool {
    match json_get(j, key) {
        None => true,
        Some(Json::Null) => true,
        Some(Json::Array(items)) => all_variants_ok(items@),
        _ => false,
    }
}

/// The variants of an optional array field, none when absent or null.
pub open spec fn opt_variants(j: Json, key: Seq<char>) -> Seq<VariantModel> {
    match json_get(j, key) {
        Some(Json::Array(items)) => variants_of(items@),
        _ => Seq::empty(),
    }
}

/// A segment object whose fields all have the expected types.
pub open spec fn segment_ok(j: Json) -> bool {
    &&& j is Object
    &&& str_ok(j, "type"@)
    &&& opt_str_ok(j, "id"@)
    &&& opt_str_ok(j, "text"@)
    &&& opt_variants_ok(j, "variants"@)
}

/// The segment a well-typed segment object stands for: `swappable` ones become spans,
/// every other type becomes static text.
pub open spec fn segment_of(j: Json) -> SegmentModel {
    if str_or_empty(j, "type"@) == "swappable"@ {
        SegmentModel::Swappable {
            id: str_or_empty(j, "id"@),
            variants: opt_variants(j, "variants"@),
        }
    } else {
        SegmentModel::Static(str_or_empty(j, "text"@))
    }
}

/// Every item is a well-typed segment object.
pub open spec fn all_segments_ok(items: Seq<Json>) -> bool {
    forall|i: int| 0 <= i < items.len() ==> segment_ok(#[trigger] items[i])
}

/// A block object whose fields all have the expected types.
pub open spec fn block_ok(j: Json) -> bool {
    &&& j is Object
    &&& str_ok(j, "id"@)
    &&& match json_get(j, "segments"@) {
        None => true,
        Some(Json::Array(items)) => all_segments_ok(items@),
        _ => false,
    }
}

/// The block a well-typed block object stands for.
pub open spec fn block_of(j: Json) -> BlockModel {
    BlockModel {
        id: str_or_empty(j, "id"@),
        segments: match json_get(j, "segments"@) {
            Some(Json::Array(items)) => items@.map_values(|s: Json| segment_of(s)),
            _ => Seq::empty(),
        },
    }
}

/// The block an item of model output stands for: a block object with `segments`,
/// or a bare object with a string `text`, which becomes one static segment.
pub open spec fn item_block(j: Json, missing: Seq<char>) -> Result<BlockModel, Seq<char>> {
    if json_get(j, "segments"@) is Some {
        if block_ok(j) {
            Ok(block_of(j))
        } else {
            Err("invalid block"@)
        }
    } else if json_get_str(j, "text"@) is Some {
        Ok(
            BlockModel {
                id: match json_get_str(j, "id"@) {
                    Some(s) => s,
                    None => Seq::empty(),
                },
                segments: seq![SegmentModel::Static(json_get_str(j, "text"@)->Some_0)],
            },
        )
    } else {
        Err(missing)
    }
}

/// The blocks of the first `n` items, or the first item's error.
pub open spec fn items_blocks(items: Seq<Json>, n: nat) -> Result<Seq<BlockModel>, Seq<char>>
    decreases n,
{
    if n == 0 {
        Ok(Seq::empty())
    } else {
        match items_blocks(items, (n - 1) as nat) {
            Err(e) => Err(e),
            Ok(bs) => match item_block(items[n - 1], "block missing `segments`"@) {
                Err(e) => Err(e),
                Ok(b) => Ok(bs.push(b)),
            },
        }
    }
}

/// The blocks a value of model output holds, or why it holds none.
pub open spec fn blocks_from(v: Json) -> Result<Seq<BlockModel>, Seq<char>> {
    match v {
        Json::Array(items) => items_blocks(items@, items@.len()),
        Json::Object(_) => match item_block(v, "missing `segments`"@) {
            Ok(b) => Ok(seq![b]),
            Err(e) => Err(e),
        },
        _ => Err("expected array/object"@),
    }
}

// ---- the whole extraction ----

/// The value that cleaned model output parses to: as it stands, or else with its
/// trailing commas dropped.
pub open spec fn parsed(cleaned: Seq<char>) -> Result<Json, Seq<char>> {
    match json_parse(cleaned) {
        Ok(v) => Ok(v),
        Err(_) => json_parse(without_trailing_commas(cleaned)),
    }
}

/// The message of a parse failure: its cause and an excerpt of the cleaned text.
pub open spec fn parse_message(cause: Seq<char>, cleaned: Seq<char>) -> Seq<char> {
    "JSON parse: "@ + cause + " | output: "@ + excerpt(cleaned)
}

/// The outcome of extracting planned blocks from model output.
pub open spec fn planned_blocks_of(text: Seq<char>) -> Result<Seq<BlockModel>, Seq<char>> {
    let cleaned = strip_fences(text);
    match parsed(cleaned) {
        Err(m) => Err(parse_message(m, cleaned)),
        Ok(v) => match blocks_from(v) {
            Ok(bs) => Ok(bs),
            Err(m) => Err(parse_message(m, cleaned)),
        },
    }
}

/// The outcome of extracting span variants from model output.
pub open spec fn planned_variants_of(text: Seq<char>) -> Result<Seq<VariantModel>, Seq<char>> {
    let cleaned = strip_fences(text);
    match parsed(cleaned) {
        Err(m) => Err(parse_message(m, cleaned)),
        Ok(v) => match variants_from(v) {
            Ok(vs) => Ok(vs),
            Err(m) => Err(parse_message(m, cleaned)),
        },
    }
}

// ---- executable decoding ----

fn read_string(j: &Json, key: &str) -> (r: Result<String, ()>)
    ensures
        r is Ok == str_ok(*j, key@),
        r is Ok ==> r->Ok_0@ == str_or_empty(*j, key@),
{
    match j.get(key) {
        None => Ok(String::new()),
        Some(Json::Str(s)) => Ok(s.clone()),
        Some(_) => Err(()),
    }
}

fn read_opt_string(j: &Json, key: &str) -> (r: Result<String, ()>)
    ensures
        r is Ok == opt_str_ok(*j, key@),
        r is Ok ==> r->Ok_0@ == str_or_empty(*j, key@),
{
    match j.get(key) {
        None => Ok(String::new()),
        Some(Json::Null) => Ok(String::new()),
        Some(Json::Str(s)) => Ok(s.clone()),
        Some(_) => Err(()),
    }
}

fn read_opt_u8(j: &Json, key: &str, d: u8) -> (r: Result<u8, ()>)
    ensures
        r is Ok == opt_u8_ok(*j, key@),
        r is Ok ==> r->Ok_0 == u8_or(*j, key@, d),
{
    match j.get(key) {
        None => Ok(d),
        Some(Json::Null) => Ok(d),
        Some(Json::Number(Some(n))) => if *n <= 255 {
            Ok(*n as u8)
        } else {
            Err(())
        },
        Some(_) => Err(()),
    }
}

/// Decodes one variant object.
fn decode_variant(j: &Json) -> (r: Result<PlannedVariant, ()>)
    ensures
        r is Ok == variant_ok(*j),
        r is Ok ==> r->Ok_0@ == variant_of(*j),
{
    if !(match j {
        Json::Object(_) => true,
        _ => false,
    }) {
        return Err(());
    }
    let text = read_string(j, "text");
    let register = read_string(j, "register");
    let note = read_opt_string(j, "note");
    let difficulty = read_opt_u8(j, "difficulty", DEFAULT_DIFFICULTY);
    match (text, register, note, difficulty) {
        (Ok(text), Ok(register), Ok(note), Ok(difficulty)) => {
            Ok(PlannedVariant { text, register, note, difficulty })
        },
        _ => Err(()),
    }
}

/// Decodes every item as a variant, failing on the first that is not one.
fn decode_variants(items: &Vec<Json>) -> (r: Result<Vec<PlannedVariant>, ()>)
    ensures
        r is Ok == all_variants_ok(items@),
        r is Ok ==> variants_view(r->Ok_0@) == variants_of(items@),
{
    let mut out: Vec<PlannedVariant> = Vec::new();
    let mut i: usize = 0;
    while i < items.len()
        invariant
            i <= items@.len(),
            all_variants_ok(items@.subrange(0, i as int)),
            variants_view(out@) == variants_of(items@.subrange(0, i as int)),
        decreases items@.len() - i,
    {
        match decode_variant(&items[i]) {
            Ok(v) => {
                let ghost before = out@;
                out.push(v);
                proof {
                    assert(variants_view(out@) =~= variants_view(before).push(v@));
                    assert(variants_of(items@.subrange(0, i + 1)) =~= variants_of(
                        items@.subrange(0, i as int),
                    ).push(variant_of(items@[i as int])));
                    assert(items@.subrange(0, i + 1) =~= items@.subrange(0, i as int).push(
                        items@[i as int],
                    ));
                }
                i = i + 1;
            },
            Err(()) => {
                assert(!variant_ok(items@[i as int]));
                return Err(());
            },
        }
    }
    assert(items@.subrange(0, i as int) =~= items@);
    Ok(out)
}

/// Keeps the variants whose text is not blank.
fn keep_nonblank(vs: Vec<PlannedVariant>) -> (r: Vec<PlannedVariant>)
    ensures
        variants_view(r@) == nonblank(variants_view(vs@)),
{
    let mut out: Vec<PlannedVariant> = Vec::new();
    let mut i: usize = 0;
    while i < vs.len()
        invariant
            i <= vs@.len(),
            variants_view(out@) == nonblank(variants_view(vs@.subrange(0, i as int))),
        decreases vs@.len() - i,
    {
        let v = vs[i].copy();
        let t = chars_of(vs[i].text.as_str());
        let tt = trim_chars(&t);
        let ghost before = out@;
        proof {
            let pre = variants_view(vs@.subrange(0, i as int));
            let next = variants_view(vs@.subrange(0, i + 1));
            assert(next.drop_last() =~= pre);
            assert(next.last() == vs@[i as int]@);
        }
        if tt.len() > 0 {
            out.push(v);
            assert(variants_view(out@) =~= variants_view(before).push(v@));
        }
        i = i + 1;
    }
    assert(vs@.subrange(0, i as int) =~= vs@);
    out
}

/// The variants a value of model output holds, or why it holds none.
#[verifier::rlimit(60)]
pub fn variants_from_json(v: &Json) -> (r: Result<Vec<PlannedVariant>, String>)
    ensures
        match r {
            Ok(vs) => variants_from(*v) == Ok::<Seq<VariantModel>, Seq<char>>(variants_view(vs@)),
            Err(m) => variants_from(*v) == Err::<Seq<VariantModel>, Seq<char>>(m@),
        },
{
    match v {
        Json::Array(items) => match decode_variants(items) {
            Ok(vs) => Ok(keep_nonblank(vs)),
            Err(()) => Err("invalid variant".to_owned()),
        },
        Json::Object(_) => match v.get("variants") {
            Some(Json::Array(items)) => match decode_variants(items) {
                Ok(vs) => Ok(keep_nonblank(vs)),
                Err(()) => Err("invalid variant".to_owned()),
            },
            Some(_) => Err("invalid variant".to_owned()),
            None => {
                if v.get("text").is_some() {
                    match decode_variant(v) {
                        Ok(one) => {
                            let mut vs: Vec<PlannedVariant> = Vec::new();
                            vs.push(one);
                            assert(variants_view(vs@) =~= seq![variant_of(*v)]);
                            Ok(keep_nonblank(vs))
                        },
                        Err(()) => Err("invalid variant".to_owned()),
                    }
                } else {
                    Err("expected array/object variant".to_owned())
                }
            },
        },
        _ => Err("expected array/object".to_owned()),
    }
}


/// Decodes one segment object.
fn decode_segment(j: &Json) -> (r: Result<PlannedSegment, ()>)
    ensures
        r is Ok == segment_ok(*j),
        r is Ok ==> r->Ok_0@ == segment_of(*j),
{
    if !(match j {
        Json::Object(_) => true,
        _ => false,
    }) {
        return Err(());
    }
    let ty = read_string(j, "type");
    let id = read_opt_string(j, "id");
    let text = read_opt_string(j, "text");
    let variants: Result<Vec<PlannedVariant>, ()> = match j.get("variants") {
        None => Ok(Vec::new()),
        Some(Json::Null) => Ok(Vec::new()),
        Some(Json::Array(items)) => decode_variants(items),
        Some(_) => Err(()),
    };
    match (ty, id, text, variants) {
        (Ok(ty), Ok(id), Ok(text), Ok(variants)) => {
            assert(variants_view(Seq::<PlannedVariant>::empty()) =~= Seq::<VariantModel>::empty());
            if crate::text::str_eq(ty.as_str(), "swappable") {
                Ok(PlannedSegment::Swappable(PlannedSpan { id, variants }))
            } else {
                Ok(PlannedSegment::Static(text))
            }
        },
        _ => Err(()),
    }
}

/// Decodes every item as a segment, failing on the first that is not one.
fn decode_segments(items: &Vec<Json>) -> (r: Result<Vec<PlannedSegment>, ()>)
    ensures
        r is Ok == all_segments_ok(items@),
        r is Ok ==> segments_view(r->Ok_0@) == items@.map_values(|s: Json| segment_of(s)),
{
    let mut out: Vec<PlannedSegment> = Vec::new();
    let mut i: usize = 0;
    while i < items.len()
        invariant
            i <= items@.len(),
            all_segments_ok(items@.subrange(0, i as int)),
            segments_view(out@) == items@.subrange(0, i as int).map_values(
                |s: Json| segment_of(s),
            ),
        decreases items@.len() - i,
    {
        match decode_segment(&items[i]) {
            Ok(v) => {
                let ghost before = out@;
                out.push(v);
                proof {
                    assert(segments_view(out@) =~= segments_view(before).push(v@));
                    assert(items@.subrange(0, i + 1).map_values(|s: Json| segment_of(s))
                        =~= items@.subrange(0, i as int).map_values(|s: Json| segment_of(s)).push(
                        segment_of(items@[i as int]),
                    ));
                    assert(items@.subrange(0, i + 1) =~= items@.subrange(0, i as int).push(
                        items@[i as int],
                    ));
                }
                i = i + 1;
            },
            Err(()) => {
                assert(!segment_ok(items@[i as int]));
                return Err(());
            },
        }
    }
    assert(items@.subrange(0, i as int) =~= items@);
    Ok(out)
}

/// Decodes one block object.
fn decode_block(j: &Json) -> (r: Result<PlannedBlock, ()>)
    ensures
        r is Ok == block_ok(*j),
        r is Ok ==> r->Ok_0@ == block_of(*j),
{
    if !(match j {
        Json::Object(_) => true,
        _ => false,
    }) {
        return Err(());
    }
    let id = read_string(j, "id");
    let segments: Result<Vec<PlannedSegment>, ()> = match j.get("segments") {
        None => Ok(Vec::new()),
        Some(Json::Array(items)) => decode_segments(items),
        Some(_) => Err(()),
    };
    match (id, segments) {
        (Ok(id), Ok(segments)) => {
            assert(segments_view(Seq::<PlannedSegment>::empty()) =~= Seq::<SegmentModel>::empty());
            Ok(PlannedBlock { id, segments })
        },
        _ => Err(()),
    }
}

/// The block an item of model output stands for, or the reason it stands for none.
fn block_from_item(j: &Json, missing: &str) -> (r: Result<PlannedBlock, String>)
    ensures
        match r {
            Ok(b) => item_block(*j, missing@) == Ok::<BlockModel, Seq<char>>(b@),
            Err(m) => item_block(*j, missing@) == Err::<BlockModel, Seq<char>>(m@),
        },
{
    if j.get("segments").is_some() {
        match decode_block(j) {
            Ok(b) => Ok(b),
            Err(()) => Err("invalid block".to_owned()),
        }
    } else {
        match j.get_str("text") {
            Some(t) => {
                let id = match j.get_str("id") {
                    Some(s) => s.clone(),
                    None => String::new(),
                };
                let mut segments: Vec<PlannedSegment> = Vec::new();
                segments.push(PlannedSegment::Static(t.clone()));
                let b = PlannedBlock { id, segments };
                assert(b@.segments =~= seq![SegmentModel::Static(t@)]);
                Ok(b)
            },
            None => Err(missing.to_owned()),
        }
    }
}

proof fn lemma_items_blocks_err(items: Seq<Json>, k: nat, n: nat)
    requires
        items_blocks(items, k) is Err,
        k <= n,
    ensures
        items_blocks(items, n) == items_blocks(items, k),
    decreases n - k,
{
    if k < n {
        lemma_items_blocks_err(items, k, (n - 1) as nat);
    }
}

/// The blocks a value of model output holds, or why it holds none.
#[verifier::rlimit(60)]
pub fn blocks_from_json(v: &Json) -> (r: Result<Vec<PlannedBlock>, String>)
    ensures
        match r {
            Ok(bs) => blocks_from(*v) == Ok::<Seq<BlockModel>, Seq<char>>(blocks_view(bs@)),
            Err(m) => blocks_from(*v) == Err::<Seq<BlockModel>, Seq<char>>(m@),
        },
{
    match v {
        Json::Array(items) => {
            let mut out: Vec<PlannedBlock> = Vec::new();
            let mut i: usize = 0;
            assert(blocks_view(out@) =~= Seq::<BlockModel>::empty());
            while i < items.len()
                invariant
                    i <= items@.len(),
                    blocks_from(*v) == items_blocks(items@, items@.len()),
                    items_blocks(items@, i as nat) == Ok::<Seq<BlockModel>, Seq<char>>(
                        blocks_view(out@),
                    ),
                decreases items@.len() - i,
            {
                match block_from_item(&items[i], "block missing `segments`") {
                    Ok(b) => {
                        let ghost before = out@;
                        out.push(b);
                        assert(blocks_view(out@) =~= blocks_view(before).push(b@));
                        i = i + 1;
                    },
                    Err(m) => {
                        proof {
                            assert(items_blocks(items@, (i + 1) as nat) == Err::<
                                Seq<BlockModel>,
                                Seq<char>,
                            >(m@));
                            lemma_items_blocks_err(items@, (i + 1) as nat, items@.len());
                        }
                        return Err(m);
                    },
                }
            }
            Ok(out)
        },
        Json::Object(_) => match block_from_item(v, "missing `segments`") {
            Ok(b) => {
                let mut out: Vec<PlannedBlock> = Vec::new();
                out.push(b);
                assert(blocks_view(out@) =~= seq![b@]);
                Ok(out)
            },
            Err(m) => Err(m),
        },
        _ => Err("expected array/object".to_owned()),
    }
}

/// Parses cleaned model output, retrying once with its trailing commas dropped.
pub fn parse_value(cleaned: &[char]) -> (r: Result<Json, String>)
    ensures
        match r {
            Ok(j) => parsed(cleaned@) == Ok::<Json, Seq<char>>(j),
            Err(m) => parsed(cleaned@) == Err::<Json, Seq<char>>(m@),
        },
{
    let s = string_from(cleaned);
    match parse_json(s.as_str()) {
        Ok(v) => Ok(v),
        Err(_) => {
            let t = sanitize_json_trailing_commas(s.as_str());
            parse_json(t.as_str())
        },
    }
}

/// The message of a parse failure over cleaned output.
fn parse_error(cause: &str, cleaned: &[char]) -> (r: String)
    ensures
        r@ == parse_message(cause@, cleaned@),
{
    let mut out: Vec<char> = Vec::new();
    push_str(&mut out, "JSON parse: ");
    push_str(&mut out, cause);
    push_str(&mut out, " | output: ");
    let e = excerpt_of(cleaned);
    push_chars(&mut out, &e);
    string_from(&out)
}

/// Extracts the planned blocks from model output.
pub fn parse_planned_blocks(json_text: &str) -> (r: Result<Vec<PlannedBlock>, ApiError>)
    ensures
        match r {
            Ok(bs) => planned_blocks_of(json_text@) == Ok::<Seq<BlockModel>, Seq<char>>(
                blocks_view(bs@),
            ),
            Err(ApiError::Parse(m)) => planned_blocks_of(json_text@) == Err::<
                Seq<BlockModel>,
                Seq<char>,
            >(m@),
            Err(_) => false,
        },
{
    let cleaned = strip_code_fences(json_text);
    match parse_value(&cleaned) {
        Err(m) => Err(ApiError::Parse(parse_error(m.as_str(), &cleaned))),
        Ok(v) => match blocks_from_json(&v) {
            Ok(bs) => Ok(bs),
            Err(m) => Err(ApiError::Parse(parse_error(m.as_str(), &cleaned))),
        },
    }
}

/// Extracts the variants of one span from model output.
pub fn parse_variants(json_text: &str) -> (r: Result<Vec<PlannedVariant>, ApiError>)
    ensures
        match r {
            Ok(vs) => planned_variants_of(json_text@) == Ok::<Seq<VariantModel>, Seq<char>>(
                variants_view(vs@),
            ),
            Err(ApiError::Parse(m)) => planned_variants_of(json_text@) == Err::<
                Seq<VariantModel>,
                Seq<char>,
            >(m@),
            Err(_) => false,
        },
{
    let cleaned = strip_code_fences(json_text);
    match parse_value(&cleaned) {
        Err(m) => Err(ApiError::Parse(parse_error(m.as_str(), &cleaned))),
        Ok(v) => match variants_from_json(&v) {
            Ok(vs) => Ok(vs),
            Err(m) => Err(ApiError::Parse(parse_error(m.as_str(), &cleaned))),
        },
    }
}


// ---- laws ----

proof fn lemma_trim_start_ws_prefix(w: Seq<char>, x: Seq<char>)
    requires
        all_ws(w),
    ensures
        trim_start(w + x) == trim_start(x),
    decreases w.len(),
{
    if w.len() > 0 {
        assert((w + x)[0] == w[0]);
        assert((w + x).drop_first() =~= w.drop_first() + x);
        assert(all_ws(w.drop_first())) by {
            assert forall|i: int| 0 <= i < w.drop_first().len() implies is_ws(
                #[trigger] w.drop_first()[i],
            ) by {
                assert(w.drop_first()[i] == w[i + 1]);
            }
        }
        lemma_trim_start_ws_prefix(w.drop_first(), x);
    } else {
        assert(w + x =~= x);
    }
}

proof fn lemma_trim_end_ws_suffix(x: Seq<char>, w: Seq<char>)
    requires
        all_ws(w),
    ensures
        trim_end(x + w) == trim_end(x),
    decreases w.len(),
{
    if w.len() > 0 {
        assert((x + w).last() == w.last());
        assert((x + w).drop_last() =~= x + w.drop_last());
        assert(all_ws(w.drop_last())) by {
            assert forall|i: int| 0 <= i < w.drop_last().len() implies is_ws(
                #[trigger] w.drop_last()[i],
            ) by {
                assert(w.drop_last()[i] == w[i]);
            }
        }
        lemma_trim_end_ws_suffix(x, w.drop_last());
    } else {
        assert(x + w =~= x);
    }
}

/// Stripping fences from fenced output gives back the payload.
#[verifier::rlimit(60)]
proof fn lemma_strip_fences_fenced(t: Seq<char>, w1: Seq<char>, w2: Seq<char>)
    requires
        t.len() > 0,
        !is_ws(t[0]),
        !is_ws(t.last()),
        t[0] != '`',
        t.last() != '`',
        all_ws(w1),
        all_ws(w2),
    ensures
        strip_fences(fence_json() + w1 + t + w2 + fence()) == t,
        strip_fences(t) == t,
{
    reveal_strlit("```json");
    reveal_strlit("```");
    let fj = fence_json();
    let f = fence();
    assert(fj.len() == 7 && fj[0] == '`');
    assert(f.len() == 3 && f[0] == '`' && f[2] == '`');
    // the payload alone
    assert(trim_start(t) == t);
    assert(trim_end(t) == t);
    if fj.len() <= t.len() {
        assert(t.subrange(0, fj.len() as int)[0] != fj[0]);
    }
    assert(strip_prefixes(t, fj) == t);
    if f.len() <= t.len() {
        assert(t.subrange(0, f.len() as int)[0] != f[0]);
        assert(t.subrange(t.len() - f.len(), t.len() as int)[2] != f[2]);
    }
    assert(strip_prefixes(t, f) == t);
    assert(strip_suffixes(t, f) == t);
    // the fenced output
    let big = fj + w1 + t + w2 + f;
    let g = w1 + t + w2 + f;
    let h = w1 + t + w2;
    assert(big =~= fj + g);
    assert(g =~= h + f);
    assert(big[0] == '`');
    assert(big.last() == '`');
    assert(trim_start(big) == big);
    assert(trim_end(big) == big);
    assert(big.subrange(0, fj.len() as int) =~= fj);
    assert(big.subrange(fj.len() as int, big.len() as int) =~= g);
    // the first character of g, and the last of h, are no backticks
    assert(g[0] != '`') by {
        if w1.len() > 0 {
            assert(g[0] == w1[0]);
            assert(is_ws(w1[0]));
        } else {
            assert(g[0] == t[0]);
        }
    }
    assert(h.last() != '`') by {
        if w2.len() > 0 {
            assert(h.last() == w2.last());
            assert(is_ws(w2[w2.len() - 1]));
        } else {
            assert(h.last() == t.last());
        }
    }
    if fj.len() <= g.len() {
        assert(g.subrange(0, fj.len() as int)[0] != fj[0]);
    }
    assert(strip_prefixes(g, fj) == g);
    assert(strip_prefixes(big, fj) == g);
    if f.len() <= g.len() {
        assert(g.subrange(0, f.len() as int)[0] != f[0]);
    }
    assert(strip_prefixes(g, f) == g);
    assert(g.subrange(g.len() - f.len(), g.len() as int) =~= f);
    assert(g.subrange(0, g.len() - f.len()) =~= h);
    if f.len() <= h.len() {
        assert(h.subrange(h.len() - f.len(), h.len() as int)[2] == h.last());
    }
    assert(strip_suffixes(h, f) == h);
    assert(strip_suffixes(g, f) == h);
    assert(h =~= w1 + (t + w2));
    lemma_trim_start_ws_prefix(w1, t + w2);
    assert((t + w2)[0] == t[0]);
    assert(trim_start(t + w2) == t + w2);
    lemma_trim_end_ws_suffix(t, w2);
}

/// Model output wrapped in a `json` code fence, with white space around it, is
/// extracted exactly as the bare output is.
pub proof fn lemma_fenced_output_extracts_alike(t: Seq<char>, w1: Seq<char>, w2: Seq<char>)
    requires
        t.len() > 0,
        !is_ws(t[0]),
        !is_ws(t.last()),
        t[0] != '`',
        t.last() != '`',
        all_ws(w1),
        all_ws(w2),
    ensures
        planned_blocks_of(fence_json() + w1 + t + w2 + fence()) == planned_blocks_of(t),
        planned_variants_of(fence_json() + w1 + t + w2 + fence()) == planned_variants_of(t),
{
    lemma_strip_fences_fenced(t, w1, w2);
}

/// An object whose `variants` field is an array yields the same variants as that
/// array standing alone.
pub proof fn lemma_variants_object_as_array(obj: Json, items: Vec<Json>)
    requires
        obj is Object,
        json_get(obj, "variants"@) == Some(Json::Array(items)),
    ensures
        variants_from(obj) == variants_from(Json::Array(items)),
{
}

} // verus!
