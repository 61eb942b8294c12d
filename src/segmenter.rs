use vstd::prelude::*;

use crate::text::{all_ws, is_ws, string_from, trim, trim_chars, trim_end, trim_start};

verus! {

/// A character that ends a sentence-like unit.
pub open spec fn is_delim(c: char) -> bool {
    c == '.' || c == '!' || c == '?'
}

/// `segs` with the trimmed `piece` added, unless nothing but white space is left of it.
pub open spec fn keep(segs: Seq<Seq<char>>, piece: Seq<char>) -> Seq<Seq<char>> {
    if trim(piece).len() > 0 {
        segs.push(trim(piece))
    } else {
        segs
    }
}

/// Splitting the first `n` characters of `s` after each delimiter: the units kept so
/// far, and the unfinished piece.
pub open spec fn split_state(s: Seq<char>, n: nat) -> (Seq<Seq<char>>, Seq<char>)
    decreases n,
{
    if n == 0 {
        (Seq::empty(), Seq::empty())
    } else {
        let prev = split_state(s, (n - 1) as nat);
        let cur = prev.1.push(s[n - 1]);
        if is_delim(s[n - 1]) {
            (keep(prev.0, cur), Seq::empty())
        } else {
            (prev.0, cur)
        }
    }
}

/// The sentence-like units of `text`: split after each `.`, `!` or `?`, each piece
/// trimmed, blank pieces dropped.
pub open spec fn segments_of(text: Seq<char>) -> Seq<Seq<char>> {
    let t = trim(text);
    let st = split_state(t, t.len());
    keep(st.0, st.1)
}

/// The non-white-space characters of `s`, in order.
pub open spec fn non_ws(s: Seq<char>) -> Seq<char>
    decreases s.len(),
{
    if s.len() == 0 {
        s
    } else if is_ws(s.last()) {
        non_ws(s.drop_last())
    } else {
        non_ws(s.drop_last()).push(s.last())
    }
}

/// The pieces joined, in order.
pub open spec fn concat(segs: Seq<Seq<char>>) -> Seq<char>
    decreases segs.len(),
{
    if segs.len() == 0 {
        Seq::empty()
    } else {
        concat(segs.drop_last()) + segs.last()
    }
}

pub open spec fn strings_view(v: Seq<String>) -> Seq<Seq<char>> {
    v.map_values(|s: String| s@)
}

/// Splits story text into sentence-like units.
pub fn split_into_segments(text: &str) -> (r: Vec<String>)
    ensures
        strings_view(r@) == segments_of(text@),
{
    let t = crate::text::trim_str(text);
    let n = t.len();
    let mut segs: Vec<String> = Vec::new();
    let mut cur: Vec<char> = Vec::new();
    let mut i: usize = 0;
    while i < n
        invariant
            n == t@.len(),
            i <= n,
            (strings_view(segs@), cur@) == split_state(t@, i as nat),
        decreases n - i,
    {
        let c = t[i];
        cur.push(c);
        if c == '.' || c == '!' || c == '?' {
            let piece = trim_chars(&cur);
            if piece.len() > 0 {
                let s = string_from(&piece);
                let ghost before = segs@;
                segs.push(s);
                assert(strings_view(segs@) =~= strings_view(before).push(s@));
            }
            cur = Vec::new();
        }
        i = i + 1;
    }
    let piece = trim_chars(&cur);
    if piece.len() > 0 {
        let s = string_from(&piece);
        let ghost before = segs@;
        segs.push(s);
        assert(strings_view(segs@) =~= strings_view(before).push(s@));
    }
    segs
}

// ---- laws ----

proof fn lemma_non_ws_concat(a: Seq<char>, b: Seq<char>)
    ensures
        non_ws(a + b) == non_ws(a) + non_ws(b),
    decreases b.len(),
{
    if b.len() == 0 {
        assert(a + b =~= a);
        assert(non_ws(a) + non_ws(b) =~= non_ws(a));
    } else {
        assert((a + b).drop_last() =~= a + b.drop_last());
        assert((a + b).last() == b.last());
        lemma_non_ws_concat(a, b.drop_last());
        if !is_ws(b.last()) {
            assert(non_ws(a) + non_ws(b.drop_last()).push(b.last()) =~= (non_ws(a) + non_ws(
                b.drop_last(),
            )).push(b.last()));
        }
    }
}

proof fn lemma_non_ws_trim_start(s: Seq<char>)
    ensures
        non_ws(trim_start(s)) == non_ws(s),
    decreases s.len(),
{
    if s.len() > 0 && is_ws(s[0]) {
        lemma_non_ws_trim_start(s.drop_first());
        assert(s =~= seq![s[0]] + s.drop_first());
        lemma_non_ws_concat(seq![s[0]], s.drop_first());
        assert(seq![s[0]].drop_last() =~= Seq::<char>::empty());
        assert(seq![s[0]].last() == s[0]);
        assert(non_ws(Seq::<char>::empty()) =~= Seq::<char>::empty());
        assert(non_ws(seq![s[0]]) =~= Seq::<char>::empty());
        assert(Seq::<char>::empty() + non_ws(s.drop_first()) =~= non_ws(s.drop_first()));
    }
}

proof fn lemma_non_ws_trim_end(s: Seq<char>)
    ensures
        non_ws(trim_end(s)) == non_ws(s),
    decreases s.len(),
{
    if s.len() > 0 && is_ws(s.last()) {
        lemma_non_ws_trim_end(s.drop_last());
    }
}

/// Trimming keeps every non-white-space character.
pub proof fn lemma_non_ws_trim(s: Seq<char>)
    ensures
        non_ws(trim(s)) == non_ws(s),
{
    lemma_non_ws_trim_start(s);
    lemma_non_ws_trim_end(trim_start(s));
}

proof fn lemma_keep_non_ws(segs: Seq<Seq<char>>, piece: Seq<char>)
    ensures
        non_ws(concat(keep(segs, piece))) == non_ws(concat(segs)) + non_ws(piece),
{
    lemma_non_ws_trim(piece);
    if trim(piece).len() > 0 {
        assert(segs.push(trim(piece)).drop_last() =~= segs);
        lemma_non_ws_concat(concat(segs), trim(piece));
    } else {
        assert(trim(piece) =~= Seq::<char>::empty());
        assert(non_ws(concat(segs)) + non_ws(piece) =~= non_ws(concat(segs)));
    }
}

#[verifier::rlimit(60)]
proof fn lemma_split_non_ws(s: Seq<char>, n: nat)
    requires
        n <= s.len(),
    ensures
        non_ws(concat(split_state(s, n).0)) + non_ws(split_state(s, n).1) == non_ws(
            s.subrange(0, n as int),
        ),
    decreases n,
{
    if n == 0 {
        assert(s.subrange(0, 0) =~= Seq::<char>::empty());
        assert(Seq::<char>::empty() + Seq::<char>::empty() =~= Seq::<char>::empty());
    } else {
        lemma_split_non_ws(s, (n - 1) as nat);
        let prev = split_state(s, (n - 1) as nat);
        let cur = prev.1.push(s[n - 1]);
        assert(s.subrange(0, n as int) =~= s.subrange(0, n - 1).push(s[n - 1]));
        assert(cur =~= prev.1 + seq![s[n - 1]]);
        assert(s.subrange(0, n as int) =~= s.subrange(0, n - 1) + seq![s[n - 1]]);
        lemma_non_ws_concat(prev.1, seq![s[n - 1]]);
        lemma_non_ws_concat(s.subrange(0, n - 1), seq![s[n - 1]]);
        assert(non_ws(concat(prev.0)) + (non_ws(prev.1) + non_ws(seq![s[n - 1]])) =~= (non_ws(
            concat(prev.0),
        ) + non_ws(prev.1)) + non_ws(seq![s[n - 1]]));
        if is_delim(s[n - 1]) {
            lemma_keep_non_ws(prev.0, cur);
            assert(non_ws(Seq::<char>::empty()) =~= Seq::<char>::empty());
            assert(non_ws(concat(keep(prev.0, cur))) + Seq::<char>::empty() =~= non_ws(
                concat(keep(prev.0, cur)),
            ));
        }
    }
}

/// Splitting loses no text: the units, joined, hold exactly the non-white-space
/// characters of the input, in order.
pub proof fn lemma_segments_keep_text(text: Seq<char>)
    ensures
        non_ws(concat(segments_of(text))) == non_ws(text),
{
    let t = trim(text);
    lemma_split_non_ws(t, t.len());
    assert(t.subrange(0, t.len() as int) =~= t);
    let st = split_state(t, t.len());
    lemma_keep_non_ws(st.0, st.1);
    lemma_non_ws_trim(text);
}

proof fn lemma_trim_all_ws(s: Seq<char>)
    requires
        all_ws(s),
    ensures
        trim(s).len() == 0,
{
    lemma_non_ws_trim(s);
    lemma_non_ws_all_ws(s);
    lemma_trim_nonblank_ends(s);
}

proof fn lemma_non_ws_all_ws(s: Seq<char>)
    requires
        all_ws(s),
    ensures
        non_ws(s).len() == 0,
    decreases s.len(),
{
    if s.len() > 0 {
        assert(all_ws(s.drop_last())) by {
            assert forall|i: int| 0 <= i < s.drop_last().len() implies is_ws(
                #[trigger] s.drop_last()[i],
            ) by {
                assert(s.drop_last()[i] == s[i]);
            }
        }
        lemma_non_ws_all_ws(s.drop_last());
    }
}

proof fn lemma_trim_start_first(s: Seq<char>)
    ensures
        trim_start(s).len() > 0 ==> !is_ws(trim_start(s)[0]),
    decreases s.len(),
{
    if s.len() > 0 && is_ws(s[0]) {
        lemma_trim_start_first(s.drop_first());
    }
}

proof fn lemma_trim_end_last(s: Seq<char>)
    ensures
        trim_end(s).len() > 0 ==> !is_ws(trim_end(s).last()),
        trim_end(s).len() <= s.len(),
        forall|i: int| 0 <= i < trim_end(s).len() ==> #[trigger] trim_end(s)[i] == s[i],
    decreases s.len(),
{
    if s.len() > 0 && is_ws(s.last()) {
        lemma_trim_end_last(s.drop_last());
    }
}

/// A trimmed non-empty sequence starts and ends with a non-white-space character.
proof fn lemma_trim_nonblank_ends(s: Seq<char>)
    ensures
        trim(s).len() > 0 ==> !is_ws(trim(s)[0]) && !is_ws(trim(s).last()),
        trim(s).len() > 0 ==> non_ws(trim(s)).len() > 0,
{
    lemma_trim_start_first(s);
    lemma_trim_end_last(trim_start(s));
    if trim(s).len() > 0 {
        let t = trim(s);
        assert(t[0] == trim_start(s)[0]);
        assert(t.drop_last().len() < t.len());
        assert(non_ws(t) == non_ws(t.drop_last()).push(t.last()));
    }
}

proof fn lemma_trim_of_trimmed(s: Seq<char>)
    requires
        s.len() > 0 ==> !is_ws(s[0]) && !is_ws(s.last()),
    ensures
        trim(s) == s,
{
}

/// Trimming twice is trimming once.
pub proof fn lemma_trim_idempotent(s: Seq<char>)
    ensures
        trim(trim(s)) == trim(s),
{
    lemma_trim_nonblank_ends(s);
    lemma_trim_of_trimmed(trim(s));
}

proof fn lemma_split_without_delims(s: Seq<char>, n: nat)
    requires
        n <= s.len(),
        forall|i: int| 0 <= i < s.len() ==> !is_delim(#[trigger] s[i]),
    ensures
        split_state(s, n).0.len() == 0,
        split_state(s, n).1 == s.subrange(0, n as int),
    decreases n,
{
    if n == 0 {
        assert(s.subrange(0, 0) =~= Seq::<char>::empty());
    } else {
        lemma_split_without_delims(s, (n - 1) as nat);
        assert(s.subrange(0, n as int) =~= s.subrange(0, n - 1).push(s[n - 1]));
    }
}

/// Blank input has no units; input without `.`, `!` or `?` is one unit, the input trimmed.
#[verifier::rlimit(60)]
pub proof fn lemma_segments_edge_cases(text: Seq<char>)
    ensures
        all_ws(text) ==> segments_of(text).len() == 0,
        (trim(text).len() > 0 && forall|i: int| 0 <= i < text.len() ==> !is_delim(#[trigger] text[i]))
            ==> segments_of(text) == seq![trim(text)],
{
    let t = trim(text);
    if all_ws(text) {
        lemma_trim_all_ws(text);
        assert(t =~= Seq::<char>::empty());
        assert(split_state(t, 0).0 =~= Seq::<Seq<char>>::empty());
        assert(trim(Seq::<char>::empty()) =~= Seq::<char>::empty());
    }
    if t.len() > 0 && forall|i: int| 0 <= i < text.len() ==> !is_delim(#[trigger] text[i]) {
        lemma_trim_start_sub(text);
        lemma_trim_end_last(trim_start(text));
        assert forall|i: int| 0 <= i < t.len() implies !is_delim(#[trigger] t[i]) by {
            let k = text.len() - trim_start(text).len();
            assert(t[i] == trim_start(text)[i]);
            assert(trim_start(text)[i] == text[i + k]);
        }
        lemma_split_without_delims(t, t.len());
        assert(t.subrange(0, t.len() as int) =~= t);
        lemma_trim_idempotent(text);
        assert(seq![t] =~= Seq::<Seq<char>>::empty().push(t));
    }
}

proof fn lemma_trim_start_sub(s: Seq<char>)
    ensures
        trim_start(s).len() <= s.len(),
        forall|i: int|
            0 <= i < trim_start(s).len() ==> #[trigger] trim_start(s)[i] == s[i + (s.len()
                - trim_start(s).len())],
    decreases s.len(),
{
    if s.len() > 0 && is_ws(s[0]) {
        lemma_trim_start_sub(s.drop_first());
    }
}

} // verus!
