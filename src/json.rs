use vstd::prelude::*;

use crate::text::{
    all_ws, chars_of, is_whitespace, string_from, strip_prefixes, strip_prefixes_chars, strip_suffixes,
    strip_suffixes_chars, trim, trim_chars,
};

verus! {

/// A parsed JSON value, holding what the extractor reads.
///
/// A number is kept as its value when it is a non-negative integer that fits in
/// `u64`, and as `None` otherwise (negative or fractional).
#[derive(Debug)]
pub enum Json {
    Null,
    Bool(bool),
    Number(Option<u64>),
    Str(String),
    Array(Vec<Json>),
    Object(Vec<(String, Json)>),
}

/// What `serde_json::from_str` makes of a text: a value, or the parser's message.
pub uninterp spec fn json_parse(text: Seq<char>) -> Result<Json, Seq<char>>;

/// `serde_json::Value`, declared so that `parse_json` can hand it to `json_from_value`.
#[verifier::external_type_specification]
#[verifier::external_body]
pub struct ExValue(serde_json::Value);

/// The conversion half of `parse_json`: moves a `serde_json::Value` into the library's
/// own `Json`, variant by variant, keeping a number as `Number::as_u64` gives it.
#[verifier::external_body]
fn json_from_value(v: serde_json::Value) -> Json {
    match v {
        serde_json::Value::Null => Json::Null,
        serde_json::Value::Bool(b) => Json::Bool(b),
        serde_json::Value::Number(n) => Json::Number(n.as_u64()),
        serde_json::Value::String(s) => Json::Str(s),
        serde_json::Value::Array(a) => Json::Array(a.into_iter().map(json_from_value).collect()),
        serde_json::Value::Object(o) => Json::Object(
            o.into_iter().map(|(k, x)| (k, json_from_value(x))).collect(),
        ),
    }
}

/// Relies on `serde_json::from_str::<serde_json::Value>`, and on `serde_json::Error`'s
/// message on failure: the outcome depends on the text alone.
#[verifier::external_body]
pub(crate) fn parse_json(text: &str) -> (r: Result<Json, String>)
    ensures
        match r {
            Ok(j) => json_parse(text@) == Ok::<Json, Seq<char>>(j),
            Err(m) => json_parse(text@) == Err::<Json, Seq<char>>(m@),
        },
{
    match serde_json::from_str::<serde_json::Value>(text) {
        Ok(v) => Ok(json_from_value(v)),
        Err(e) => Err(e.to_string()),
    }
}

/// The value under `key` in a list of object entries (the first such entry).
pub open spec fn entries_get(es: Seq<(String, Json)>, key: Seq<char>) -> Option<Json>
    decreases es.len(),
{
    if es.len() == 0 {
        None
    } else if es[0].0@ == key {
        Some(es[0].1)
    } else {
        entries_get(es.drop_first(), key)
    }
}

/// The value under `key` when `j` is an object holding it.
pub open spec fn json_get(j: Json, key: Seq<char>) -> Option<Json> {
    match j {
        Json::Object(es) => entries_get(es@, key),
        _ => None,
    }
}

/// The string under `key` when `j` is an object holding a string there.
pub open spec fn json_get_str(j: Json, key: Seq<char>) -> Option<Seq<char>> {
    match json_get(j, key) {
        Some(Json::Str(s)) => Some(s@),
        _ => None,
    }
}

impl Json {
    /// The value under `key`, when `self` is an object that holds it.
    pub fn get(&self, key: &str) -> (r: Option<&Json>)
        ensures
            match r {
                Some(x) => json_get(*self, key@) == Some(*x),
                None => json_get(*self, key@) is None,
            },
    {
        match self {
            Json::Object(es) => {
                let k = chars_of(key);
                let n = es.len();
                let mut i: usize = 0;
                assert(es@.subrange(0, n as int) =~= es@);
                while i < n
                    invariant
                        n == es@.len(),
                        i <= n,
                        k@ == key@,
                        json_get(*self, key@) == entries_get(es@, key@),
                        entries_get(es@, key@) == entries_get(es@.subrange(i as int, n as int), key@),
                    decreases n - i,
                {
                    let ek = chars_of(es[i].0.as_str());
                    assert(es@.subrange(i as int, n as int).drop_first() =~= es@.subrange(
                        i + 1,
                        n as int,
                    ));
                    assert(es@.subrange(i as int, n as int)[0] == es@[i as int]);
                    if crate::text::chars_eq(&ek, &k) {
                        return Some(&es[i].1);
                    }
                    i = i + 1;
                }
                None
            },
            _ => None,
        }
    }

    /// The string under `key`, when `self` is an object holding a string there.
    pub fn get_str(&self, key: &str) -> (r: Option<&String>)
        ensures
            match r {
                Some(s) => json_get_str(*self, key@) == Some(s@),
                None => json_get_str(*self, key@) is None,
            },
    {
        match self.get(key) {
            Some(Json::Str(s)) => Some(s),
            _ => None,
        }
    }
}

/// The opening fence with a language tag.
pub open spec fn fence_json() -> Seq<char> {
    "```json"@
}

/// A bare fence.
pub open spec fn fence() -> Seq<char> {
    "```"@
}

/// Model output with surrounding white space and markdown code fences removed.
pub open spec fn strip_fences(s: Seq<char>) -> Seq<char> {
    trim(
        strip_suffixes(strip_prefixes(strip_prefixes(trim(s), fence_json()), fence()), fence()),
    )
}

/// Removes surrounding white space and markdown code fences (with or without a `json` tag).
pub fn strip_code_fences(text: &str) -> (r: Vec<char>)
    ensures
        r@ == strip_fences(text@),
{
    let t = crate::text::trim_str(text);
    let fj = chars_of("```json");
    let f = chars_of("```");
    let a = strip_prefixes_chars(&t, &fj);
    let b = strip_prefixes_chars(&a, &f);
    let c = strip_suffixes_chars(&b, &f);
    trim_chars(&c)
}

/// How many characters of offending text an error message quotes.
pub const EXCERPT_LEN: usize = 800;

/// The part of `s` quoted in an error: all of it, or its first characters and an ellipsis.
pub open spec fn excerpt(s: Seq<char>) -> Seq<char> {
    if s.len() > EXCERPT_LEN {
        s.subrange(0, EXCERPT_LEN as int).push('\u{2026}')
    } else {
        s
    }
}

/// The part of `s` quoted in an error message.
pub fn excerpt_of(s: &[char]) -> (r: Vec<char>)
    ensures
        r@ == excerpt(s@),
{
    let n: usize = if s.len() > EXCERPT_LEN {
        EXCERPT_LEN
    } else {
        s.len()
    };
    let mut out: Vec<char> = Vec::new();
    let mut i: usize = 0;
    while i < n
        invariant
            n <= s@.len(),
            i <= n,
            out@ == s@.subrange(0, i as int),
        decreases n - i,
    {
        out.push(s[i]);
        i = i + 1;
        assert(out@ =~= s@.subrange(0, i as int));
    }
    if s.len() > EXCERPT_LEN {
        out.push('\u{2026}');
    } else {
        assert(s@.subrange(0, n as int) =~= s@);
    }
    out
}

/// Whether, from position `i` on, only white space stands before a closing bracket or brace.
pub open spec fn closer_follows(s: Seq<char>, i: int) -> bool {
    exists|j: int|
        i <= j < s.len() && (s[j] == ']' || s[j] == '}') && #[trigger] all_ws(s.subrange(i, j))
}

/// The trailing-comma scan after its first `n` characters: the text kept so far,
/// whether it stands inside a string literal, and whether the next character is escaped.
pub open spec fn scan(s: Seq<char>, n: nat) -> (Seq<char>, bool, bool)
    decreases n,
{
    if n == 0 {
        (Seq::empty(), false, false)
    } else {
        let prev = scan(s, (n - 1) as nat);
        let c = s[n - 1];
        if prev.1 {
            if prev.2 {
                (prev.0.push(c), true, false)
            } else if c == '\\' {
                (prev.0.push(c), true, true)
            } else if c == '"' {
                (prev.0.push(c), false, false)
            } else {
                (prev.0.push(c), true, false)
            }
        } else if c == '"' {
            (prev.0.push(c), true, false)
        } else if c == ',' && closer_follows(s, n as int) {
            (prev.0, false, false)
        } else {
            (prev.0.push(c), false, false)
        }
    }
}

/// `s` without the commas, outside string literals, that only white space separates
/// from a closing bracket or brace.
pub open spec fn without_trailing_commas(s: Seq<char>) -> Seq<char> {
    scan(s, s.len()).0
}

/// Whether only white space stands between position `i` and a closing bracket or brace.
fn closer_follows_at(s: &[char], i: usize) -> (r: bool)
    requires
        i <= s@.len(),
    ensures
        r == closer_follows(s@, i as int),
{
    let n = s.len();
    let mut k: usize = i;
    while k < n && is_whitespace(s[k])
        invariant
            n == s@.len(),
            i <= k <= n,
            all_ws(s@.subrange(i as int, k as int)),
        decreases n - k,
    {
        assert(s@.subrange(i as int, k + 1) =~= s@.subrange(i as int, k as int).push(s@[k as int]));
        k = k + 1;
    }
    if k < n && (s[k] == ']' || s[k] == '}') {
        assert(all_ws(s@.subrange(i as int, k as int)));
        true
    } else {
        assert forall|j: int|
            i <= j < s@.len() && (s@[j] == ']' || s@[j] == '}') implies !#[trigger] all_ws(
            s@.subrange(i as int, j),
        ) by {
            if j > k {
                assert(s@.subrange(i as int, j)[k - i] == s@[k as int]);
            } else if j < k {
                assert(s@.subrange(i as int, k as int)[j - i] == s@[j]);
            }
        }
        false
    }
}

/// Drops every comma, outside string literals, that only white space separates from a
/// closing `]` or `}`.
#[verifier::rlimit(60)]
pub fn sanitize_json_trailing_commas(input: &str) -> (r: String)
    ensures
        r@ == without_trailing_commas(input@),
{
    let s = chars_of(input);
    let n = s.len();
    let mut out: Vec<char> = Vec::new();
    let mut in_string = false;
    let mut escape = false;
    let mut i: usize = 0;
    while i < n
        invariant
            n == s@.len(),
            i <= n,
            (out@, in_string, escape) == scan(s@, i as nat),
        decreases n - i,
    {
        let c = s[i];
        if in_string {
            out.push(c);
            if escape {
                escape = false;
            } else if c == '\\' {
                escape = true;
            } else if c == '"' {
                in_string = false;
            }
        } else if c == '"' {
            in_string = true;
            out.push(c);
        } else if c == ',' && closer_follows_at(&s, i + 1) {
        } else {
            out.push(c);
        }
        i = i + 1;
    }
    assert(s@ == input@);
    string_from(&out)
}

} // verus!
