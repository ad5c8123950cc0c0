//! The pipe normalizer.
//!
//! Pipe-based backends write one raw event per line on standard output, in
//! a flat JSON schema whose `type` member names the canonical event.  One
//! line maps to at most one canonical event: empty or whitespace-only
//! lines and lines that do not parse as JSON yield nothing, so a single
//! malformed line never aborts a stream.  JSON syntax is read by an
//! outside parser behind a trusted wrapper; everything the schema means is
//! decided here, under contract.

use crate::events::{event_of_json, json_to_event, EventV, StreamEvent};
use crate::json::{jview, string_from_chars, str_to_chars, wf_json, Json, JsonV};
use vstd::prelude::*;

verus! {

/// Whitespace stripped from both ends of a raw line.
pub open spec fn is_ws(c: char) -> bool {
    c == ' ' || c == '\t' || c == '\r' || c == '\n'
}

/// A sequence without its leading whitespace.
pub open spec fn trim_start_spec(s: Seq<char>) -> Seq<char>
    decreases s.len(),
{
    if s.len() > 0 && is_ws(s[0]) {
        trim_start_spec(s.drop_first())
    } else {
        s
    }
}

/// A sequence without its trailing whitespace.
pub open spec fn trim_end_spec(s: Seq<char>) -> Seq<char>
    decreases s.len(),
{
    if s.len() > 0 && is_ws(s.last()) {
        trim_end_spec(s.drop_last())
    } else {
        s
    }
}

/// A sequence without leading and trailing whitespace.
pub open spec fn trim_spec(s: Seq<char>) -> Seq<char> {
    trim_end_spec(trim_start_spec(s))
}

/// The document one line of text parses to, if any.  This names the result
/// of the outside JSON parser: it depends on the text alone.
pub uninterp spec fn json_parse(s: Seq<char>) -> Option<JsonV>;

/// The canonical event one raw line denotes: nothing for a blank or
/// unparsable line, else what the flat schema says of the parsed document.
pub open spec fn line_event(s: Seq<char>) -> Option<EventV> {
    if trim_spec(s).len() == 0 {
        None
    } else {
        match json_parse(trim_spec(s)) {
            Some(jv) => event_of_json(jv),
            None => None,
        }
    }
}

#[verifier::external_type_specification]
#[verifier::external_body]
pub struct ExValue(serde_json::Value);

/// Relies on `serde_json::from_str::<serde_json::Value>`: whether a text
/// parses as JSON, and the document it then denotes, are functions of the
/// text alone.  The result is well formed: parsed numbers print as a
/// non-empty lexeme opening with a digit or a minus sign (integers
/// through their decimal digits, finite floats through the shortest
/// scientific form).
#[verifier::external_body]
pub(crate) fn parse_raw_json(line: &str) -> (r: Option<Json>)
    ensures
        (match r {
            Some(j) => json_parse(line@) == Some(jview(j)) && wf_json(jview(j)),
            None => json_parse(line@) is None,
        }),
{
    match serde_json::from_str::<serde_json::Value>(line) {
        Ok(v) => Some(value_to_json(v)),
        Err(_) => None,
    }
}

/// Relies on `serde_json::Value`: each variant is carried over to the
/// library's document model one for one, numbers by their printed lexeme.
#[verifier::external_body]
fn value_to_json(v: serde_json::Value) -> Json {
    match v {
        serde_json::Value::Null => Json::Null,
        serde_json::Value::Bool(b) => Json::Bool(b),
        serde_json::Value::Number(n) => Json::Num(n.to_string()),
        serde_json::Value::String(s) => Json::Str(s),
        serde_json::Value::Array(a) => Json::Arr(a.into_iter().map(value_to_json).collect()),
        serde_json::Value::Object(o) => Json::Obj(
            o.into_iter().map(|(k, x)| (k, value_to_json(x))).collect(),
        ),
    }
}

/// The characters of `s` without leading and trailing whitespace.
#[verifier::loop_isolation(false)]
pub fn trim_line(s: &str) -> (r: String)
    ensures
        r@ == trim_spec(s@),
{
    let cs = str_to_chars(s);
    let n = cs.len();
    let mut lo: usize = 0;
    proof {
        assert(cs@.skip(0) =~= cs@);
    }
    while lo < n && (cs[lo] == ' ' || cs[lo] == '\t' || cs[lo] == '\r' || cs[lo] == '\n')
        invariant
            lo <= n,
            n == cs@.len(),
            trim_start_spec(cs@) == trim_start_spec(cs@.skip(lo as int)),
        decreases n - lo,
    {
        proof {
            assert(cs@.skip(lo as int).drop_first() =~= cs@.skip(lo + 1 as int));
        }
        lo = lo + 1;
    }
    proof {
        if lo == n {
            assert(cs@.skip(lo as int) =~= Seq::<char>::empty());
        }
        assert(trim_start_spec(cs@) == cs@.skip(lo as int));
    }
    let ghost t = cs@.skip(lo as int);
    let mut hi: usize = n;
    proof {
        assert(t.take(n - lo as int) =~= t);
    }
    while hi > lo && (cs[hi - 1] == ' ' || cs[hi - 1] == '\t' || cs[hi - 1] == '\r' || cs[hi - 1]
        == '\n')
        invariant
            lo <= hi <= n,
            trim_end_spec(t) == trim_end_spec(t.take(hi - lo as int)),
        decreases hi,
    {
        proof {
            assert(t.take(hi - lo as int).drop_last() =~= t.take(hi - 1 - lo as int));
            assert(t.take(hi - lo as int).last() == cs@[hi - 1 as int]);
        }
        hi = hi - 1;
    }
    proof {
        if hi > lo {
            assert(t.take(hi - lo as int).last() == cs@[hi - 1 as int]);
        }
        assert(trim_end_spec(t.take(hi - lo as int)) == t.take(hi - lo as int));
        assert(trim_spec(s@) == t.take(hi - lo as int));
    }
    let mut out: Vec<char> = Vec::new();
    let mut d: usize = lo;
    while d < hi
        invariant
            lo <= d <= hi <= n,
            n == cs@.len(),
            out@ == cs@.subrange(lo as int, d as int),
        decreases hi - d,
    {
        proof {
            assert(cs@.subrange(lo as int, d + 1 as int) =~= cs@.subrange(lo as int,
                d as int).push(cs@[d as int]));
        }
        out.push(cs[d]);
        d = d + 1;
    }
    proof {
        assert(cs@.subrange(lo as int, hi as int) =~= t.take(hi - lo as int));
    }
    string_from_chars(&out)
}

/// One raw line, normalized: at most one canonical event, exactly as
/// [`line_event`] says.
pub fn parse_line(line: &str) -> (r: Option<StreamEvent>)
    ensures
        (match r {
            Some(e) => line_event(line@) == Some(e@),
            None => line_event(line@) is None,
        }),
{
    let t = trim_line(line);
    if t.as_str().unicode_len() == 0 {
        return None;
    }
    match parse_raw_json(t.as_str()) {
        Some(j) => json_to_event(&j),
        None => None,
    }
}

} // verus!
