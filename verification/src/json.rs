//! The library's own JSON value tree, and the trusted boundary to the
//! `kjson` parser that produces it from text.
//!
//! Numbers are carried as their decimal text, so the tree holds plain
//! values only; integer-valued text is read back with
//! [`crate::text::int_of_num_text`] where a number is needed.

use vstd::prelude::*;
use crate::text::str_eq;

verus! {

/// A JSON value. Object entries keep the order in which they were produced;
/// a tree that comes from [`parse_json`] has them in ascending key order.
#[derive(Debug, PartialEq, Eq)]
pub enum Json {
    Null,
    Bool(bool),
    Num(String),
    Str(String),
    Arr(Vec<Json>),
    Obj(Vec<(String, Json)>),
}

/// The first entry with the given key, if any.
pub open spec fn obj_get(entries: Seq<(String, Json)>, key: Seq<char>) -> Option<Json>
    decreases entries.len(),
{
    if entries.len() == 0 {
        None
    } else if entries[0].0@ == key {
        Some(entries[0].1)
    } else {
        obj_get(entries.drop_first(), key)
    }
}

/// The value under `key` when `j` is an object that has one.
pub open spec fn json_get(j: Json, key: Seq<char>) -> Option<Json> {
    match j {
        Json::Obj(entries) => obj_get(entries@, key),
        _ => None,
    }
}

/// The string under `key` when `j` is an object holding a string there.
pub open spec fn json_get_str(j: Json, key: Seq<char>) -> Option<String> {
    match json_get(j, key) {
        Some(Json::Str(s)) => Some(s),
        _ => None,
    }
}

impl Json {
    /// Looks `key` up among an object's entries; `None` on any other node.
    pub fn get<'a>(&'a self, key: &str) -> (r: Option<&'a Json>)
        ensures
            match r {
                Some(v) => json_get(*self, key@) == Some(*v),
                None => json_get(*self, key@) is None,
            },
    {
        match self {
            Json::Obj(entries) => {
                let n = entries.len();
                let mut i: usize = 0;
                assert(entries@.skip(0) =~= entries@);
                while i < n
                    invariant
                        i <= n,
                        n == entries@.len(),
                        json_get(*self, key@) == obj_get(entries@, key@),
                        obj_get(entries@, key@) == obj_get(entries@.skip(i as int), key@),
                    decreases n - i,
                {
                    assert(entries@.skip(i as int)[0] == entries@[i as int]);
                    if str_eq(entries[i].0.as_str(), key) {
                        assert(entries@.skip(i as int)[0].0@ == key@);
                        assert(obj_get(entries@.skip(i as int), key@) == Some(
                            entries@[i as int].1,
                        ));
                        return Some(&entries[i].1);
                    }
                    assert(entries@.skip(i as int).drop_first() =~= entries@.skip(i as int + 1));
                    i = i + 1;
                }
                assert(entries@.skip(n as int).len() == 0);
                None
            },
            _ => None,
        }
    }

}

#[verifier::external_type_specification]
#[verifier::external_body]
pub struct ExValue(kjson::Value);

/// The whitespace JSON ignores between tokens.
pub open spec fn json_ws(c: char) -> bool {
    c == ' ' || c == '\t' || c == '\n' || c == '\r'
}

/// `s` with its trailing inter-token whitespace removed.
pub open spec fn trim_end_ws(s: Seq<char>) -> Seq<char>
    decreases s.len(),
{
    if s.len() == 0 {
        s
    } else if json_ws(s.last()) {
        trim_end_ws(s.drop_last())
    } else {
        s
    }
}

/// Whether the text's last non-whitespace character is an opening
/// bracket. No valid JSON document has this shape — every opened array
/// or object must close — and the underlying parser aborts on it instead
/// of rejecting it, so it is screened out before the parser is called.
pub open spec fn json_text_open_ended(s: Seq<char>) -> bool {
    trim_end_ws(s).len() > 0 && (trim_end_ws(s).last() == '[' || trim_end_ws(s).last() == '{')
}

/// The defensive bound on bracket nesting accepted from a document: the
/// underlying parser recurses once for every bracket it opens, so
/// nesting beyond this bound is refused before it is handed down.
pub const PARSE_NESTING_LIMIT: u64 = 1000;

/// The largest bracket depth a left-to-right scan of the text reaches,
/// from position `i` at depth `depth`: brackets inside string literals
/// do not nest, and a backslash escapes the character after it. On every
/// prefix the parser accepts, this is the depth the parser itself
/// reaches, and on the rest it never falls below it, since the scan and
/// the parser read strings and escapes the same way up to the parser's
/// first error, where the parser stops.
pub open spec fn max_nesting(s: Seq<char>, i: int, depth: int, in_str: bool, esc: bool) -> int
    decreases s.len() - i,
{
    if i < 0 || i >= s.len() {
        depth
    } else {
        let c = s[i];
        let rest = if in_str {
            if esc {
                max_nesting(s, i + 1, depth, true, false)
            } else if c == '\\' {
                max_nesting(s, i + 1, depth, true, true)
            } else if c == '"' {
                max_nesting(s, i + 1, depth, false, false)
            } else {
                max_nesting(s, i + 1, depth, true, false)
            }
        } else {
            if c == '"' {
                max_nesting(s, i + 1, depth, true, false)
            } else if c == '[' || c == '{' {
                max_nesting(s, i + 1, depth + 1, false, false)
            } else if c == ']' || c == '}' {
                max_nesting(s, i + 1, depth - 1, false, false)
            } else {
                max_nesting(s, i + 1, depth, false, false)
            }
        };
        if depth > rest {
            depth
        } else {
            rest
        }
    }
}

/// The shapes of text the underlying parser does not return on, screened
/// out before it is called: text whose last non-whitespace character is
/// an opening bracket (the parser aborts there), text whose final
/// character is a backslash (the parser's string scanner stops
/// advancing there), and text nested deeper than the defensive bound
/// (the parser would recurse past the stack). The first two shapes are
/// never valid JSON; the third is the defensive recursion limit.
pub open spec fn json_text_rejected(s: Seq<char>) -> bool {
    ||| json_text_open_ended(s)
    ||| s.len() > 0 && s.last() == '\\'
    ||| max_nesting(s, 0, 0, false, false) > PARSE_NESTING_LIMIT as int
}

/// What `kjson` parses the given text into, rebuilt as the library's own
/// tree: `None` where the text is not valid JSON. The parser keeps object
/// entries in a sorted map, so this is a function of the text alone.
/// Spoken of only for text that [`json_text_rejected`] does not screen.
pub uninterp spec fn spec_parse_json(text: Seq<char>) -> Option<Json>;

/// What parsing a JSON document yields: `None` where the text is not
/// valid JSON — whether the parser rejects it, or it has one of the
/// screened shapes — or where it nests past the defensive bound, and the
/// parsed tree otherwise.
pub open spec fn spec_json_doc(text: Seq<char>) -> Option<Json> {
    if json_text_rejected(text) {
        None
    } else {
        spec_parse_json(text)
    }
}

/// Relies on kjson::from_str, on the texts it returns on: one that does
/// not end, after trailing whitespace, with an opening bracket (its
/// array and object parsers abort there), does not end with a backslash
/// (its string scanner stops advancing there), and does not nest
/// brackets past the defensive bound (it recurses once per opened
/// bracket). On such a text it returns the parsed value tree or reports
/// a syntax error as `None`; the screened texts are left out here and
/// answered by the caller.
#[verifier::external_body]
fn parse_json_raw(text: &str) -> (r: Option<Json>)
    requires
        !json_text_rejected(text@),
    ensures
        r == spec_parse_json(text@),
{
    match kjson::from_str(text) {
        Ok(v) => Some(json_from_value(&v)),
        Err(_) => None,
    }
}

/// Whether the text's last non-whitespace character is an opening
/// bracket.
fn text_open_ended(s: &str) -> (r: bool)
    ensures
        r == json_text_open_ended(s@),
{
    let len = s.unicode_len();
    let mut i: usize = len;
    assert(s@.take(len as int) =~= s@);
    while i > 0
        invariant
            i <= len,
            len == s@.len(),
            trim_end_ws(s@) == trim_end_ws(s@.take(i as int)),
        decreases i,
    {
        let c = s.get_char(i - 1);
        proof {
            assert(s@.take(i as int).last() == s@[i as int - 1]);
            assert(s@.take(i as int).drop_last() =~= s@.take(i as int - 1));
        }
        if c == ' ' || c == '\t' || c == '\n' || c == '\r' {
            i = i - 1;
        } else {
            assert(trim_end_ws(s@.take(i as int)) =~= s@.take(i as int));
            return c == '[' || c == '{';
        }
    }
    assert(s@.take(0).len() == 0);
    false
}

/// The largest bracket depth a scan of the text reaches.
fn scan_nesting(s: &str) -> (r: i128)
    ensures
        r == max_nesting(s@, 0, 0, false, false),
{
    let len = s.unicode_len();
    let mut i: usize = 0;
    let mut cur: i128 = 0;
    let mut mx: i128 = 0;
    let mut in_str = false;
    let mut esc = false;
    while i < len
        invariant
            i <= len,
            len == s@.len(),
            -(i as int) <= cur <= i as int,
            0 <= mx <= i as int,
            !in_str ==> !esc,
            ({
                let rest = max_nesting(s@, i as int, cur as int, in_str, esc);
                (if mx as int > rest {
                    mx as int
                } else {
                    rest
                }) == max_nesting(s@, 0, 0, false, false)
            }),
        decreases len - i,
    {
        let c = s.get_char(i);
        if cur > mx {
            mx = cur;
        }
        if in_str {
            if esc {
                esc = false;
            } else if c == '\\' {
                esc = true;
            } else if c == '"' {
                in_str = false;
            }
        } else {
            if c == '"' {
                in_str = true;
            } else if c == '[' || c == '{' {
                cur = cur + 1;
            } else if c == ']' || c == '}' {
                cur = cur - 1;
            }
        }
        i = i + 1;
    }
    if cur > mx {
        mx = cur;
    }
    mx
}

/// Whether the text has one of the screened shapes.
fn text_rejected(s: &str) -> (r: bool)
    ensures
        r == json_text_rejected(s@),
{
    if text_open_ended(s) {
        return true;
    }
    let len = s.unicode_len();
    if len > 0 && s.get_char(len - 1) == '\\' {
        return true;
    }
    let depth = scan_nesting(s);
    depth > PARSE_NESTING_LIMIT as i128
}

/// Parses a JSON document: `None` exactly where the text is not valid
/// JSON or nests past the defensive bound. A screened text is answered
/// without consulting the parser.
pub fn parse_json(text: &str) -> (r: Option<Json>)
    ensures
        r == spec_json_doc(text@),
{
    if text_rejected(text) {
        None
    } else {
        parse_json_raw(text)
    }
}

/// Relies on kjson::Value: rebuilds a parsed tree as the library's own
/// nodes, one for one — numbers as their displayed decimal text, object
/// entries in the ascending key order kjson's map hands them out.
#[verifier::external_body]
fn json_from_value(v: &kjson::Value) -> Json {
    match v {
        kjson::Value::Null => Json::Null,
        kjson::Value::Bool(b) => Json::Bool(*b),
        kjson::Value::Number(n) => Json::Num(n.to_string()),
        kjson::Value::String(s) => Json::Str(s.clone()),
        kjson::Value::Array(a) => Json::Arr(a.iter().map(json_from_value).collect()),
        kjson::Value::Object(o) => Json::Obj(
            o.iter().map(|(k, x)| (k.clone(), json_from_value(x))).collect(),
        ),
    }
}

} // verus!
