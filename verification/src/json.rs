//! A small JSON document model.
//!
//! Raw backend events arrive as JSON text; canonical events leave for the UI
//! boundary as JSON text.  This module holds the library's own document type
//! [`Json`], its mathematical model [`JsonV`], a canonical serializer and a
//! parser for the canonical form.  The serializer writes no whitespace,
//! keeps object members in their stored order, and escapes exactly the
//! quote, backslash, newline, carriage-return and tab characters; other
//! characters pass through unchanged.  The parser accepts exactly the
//! serializer's output, which is what the round-trip contracts state.

use vstd::prelude::*;

verus! {

/// Mathematical model of a JSON document: strings are character sequences,
/// arrays and objects are sequences of models.  Numbers are kept as their
/// lexeme, never interpreted, so no precision is lost in transit.
#[verifier::ext_equal]
pub enum JsonV {
    Null,
    Bool(bool),
    Num(Seq<char>),
    Str(Seq<char>),
    Arr(Seq<JsonV>),
    Obj(Seq<(Seq<char>, JsonV)>),
}

/// A JSON document.  `Num` holds the number's lexeme as written; `Obj`
/// keeps members in insertion order and may hold a key twice (the model
/// of a parsed document never does).
#[derive(Debug, PartialEq, Eq)]
pub enum Json {
    Null,
    Bool(bool),
    Num(String),
    Str(String),
    Arr(Vec<Json>),
    Obj(Vec<(String, Json)>),
}

/// Model of a document: strings become their character sequences and the
/// tree structure is kept.
pub open spec fn jview(j: Json) -> JsonV
    decreases j, 1int,
{
    match j {
        Json::Null => JsonV::Null,
        Json::Bool(b) => JsonV::Bool(b),
        Json::Num(s) => JsonV::Num(s@),
        Json::Str(s) => JsonV::Str(s@),
        Json::Arr(v) => JsonV::Arr(jview_seq(v@)),
        Json::Obj(v) => JsonV::Obj(jview_mems(v@)),
    }
}

/// Model of a sequence of documents, element by element.
pub open spec fn jview_seq(s: Seq<Json>) -> Seq<JsonV>
    decreases s, 0int,
{
    if s.len() == 0 { Seq::empty() } else { seq![jview(s[0])] + jview_seq(s.drop_first()) }
}

/// Model of a sequence of object members, member by member.
pub open spec fn jview_mems(s: Seq<(String, Json)>) -> Seq<(Seq<char>, JsonV)>
    decreases s, 0int,
{
    if s.len() == 0 { Seq::empty() } else { seq![(s[0].0@, jview(s[0].1))] + jview_mems(s.drop_first()) }
}

impl View for Json {
    type V = JsonV;

    open spec fn view(&self) -> JsonV {
        jview(*self)
    }
}

/// The element models line up with the elements.
pub proof fn lemma_jview_seq(s: Seq<Json>)
    ensures
        jview_seq(s).len() == s.len(),
        forall|i: int| 0 <= i < s.len() ==> #[trigger] jview_seq(s)[i] == jview(s[i]),
    decreases s.len(),
{
    if s.len() > 0 {
        lemma_jview_seq(s.drop_first());
        assert forall|i: int| 0 <= i < s.len() implies #[trigger] jview_seq(s)[i] == jview(s[i]) by {
            if i > 0 {
                assert(s.drop_first()[i - 1] == s[i]);
                assert(jview_seq(s)[i] == jview_seq(s.drop_first())[i - 1]);
            }
        }
    }
}

/// The member models line up with the members.
pub proof fn lemma_jview_mems(s: Seq<(String, Json)>)
    ensures
        jview_mems(s).len() == s.len(),
        forall|i: int| 0 <= i < s.len()
            ==> #[trigger] jview_mems(s)[i] == (s[i].0@, jview(s[i].1)),
    decreases s.len(),
{
    if s.len() > 0 {
        lemma_jview_mems(s.drop_first());
        assert forall|i: int| 0 <= i < s.len() implies #[trigger] jview_mems(s)[i] == (s[i].0@,
            jview(s[i].1)) by {
            if i > 0 {
                assert(s.drop_first()[i - 1] == s[i]);
                assert(jview_mems(s)[i] == jview_mems(s.drop_first())[i - 1]);
            }
        }
    }
}

/// Characters that may occur in a number lexeme.
pub open spec fn is_num_char(c: char) -> bool {
    ('0' <= c && c <= '9') || c == '-' || c == '+' || c == '.' || c == 'e' || c == 'E'
}

/// A well-formed number lexeme: non-empty, made of number characters, and
/// opening with a digit or a minus sign (so a value's first character
/// identifies its variant).
pub open spec fn wf_num(s: Seq<char>) -> bool {
    &&& s.len() > 0
    &&& (forall|i: int| 0 <= i < s.len() ==> is_num_char(#[trigger] s[i]))
    &&& (s[0] == '-' || ('0' <= s[0] && s[0] <= '9'))
}

/// Well-formed documents: every number lexeme in the tree is well formed.
pub open spec fn wf_json(j: JsonV) -> bool
    decreases j,
{
    match j {
        JsonV::Null => true,
        JsonV::Bool(_) => true,
        JsonV::Num(s) => wf_num(s),
        JsonV::Str(_) => true,
        JsonV::Arr(a) => forall|i: int| 0 <= i < a.len() ==> wf_json(#[trigger] a[i]),
        JsonV::Obj(m) => forall|i: int| 0 <= i < m.len() ==> wf_json(#[trigger] m[i].1),
    }
}

/// Does serialization replace this character by an escape sequence?
pub open spec fn needs_esc(c: char) -> bool {
    c == '"' || c == '\\' || c == '\n' || c == '\r' || c == '\t'
}

/// The character written after the backslash for an escaped character.
pub open spec fn esc_code(c: char) -> char {
    if c == '"' { '"' }
    else if c == '\\' { '\\' }
    else if c == '\n' { 'n' }
    else if c == '\r' { 'r' }
    else { 't' }
}

/// Serialization of one string character.
pub open spec fn esc_char(c: char) -> Seq<char> {
    if needs_esc(c) { seq!['\\', esc_code(c)] } else { seq![c] }
}

/// Serialization of a string body (the text between the quotes).
pub open spec fn esc(s: Seq<char>) -> Seq<char>
    decreases s.len(),
{
    if s.len() == 0 { Seq::empty() } else { esc_char(s[0]) + esc(s.drop_first()) }
}

/// Serialization of a string, quotes included.
pub open spec fn ser_str(s: Seq<char>) -> Seq<char> {
    seq!['"'] + esc(s) + seq!['"']
}

/// Canonical serialization of a document.
pub open spec fn ser_json(j: JsonV) -> Seq<char>
    decreases j, 1int,
{
    match j {
        JsonV::Null => seq!['n', 'u', 'l', 'l'],
        JsonV::Bool(b) => if b { seq!['t', 'r', 'u', 'e'] } else { seq!['f', 'a', 'l', 's', 'e'] },
        JsonV::Num(s) => s,
        JsonV::Str(s) => ser_str(s),
        JsonV::Arr(a) => seq!['['] + ser_elems(a) + seq![']'],
        JsonV::Obj(m) => seq!['{'] + ser_members(m) + seq!['}'],
    }
}

/// Serialization of array elements, comma separated.
pub open spec fn ser_elems(a: Seq<JsonV>) -> Seq<char>
    decreases a, 0int,
{
    if a.len() == 0 {
        Seq::empty()
    } else if a.len() == 1 {
        ser_json(a[0])
    } else {
        ser_json(a[0]) + seq![','] + ser_elems(a.drop_first())
    }
}

/// Serialization of object members, comma separated.
pub open spec fn ser_members(m: Seq<(Seq<char>, JsonV)>) -> Seq<char>
    decreases m, 0int,
{
    if m.len() == 0 {
        Seq::empty()
    } else if m.len() == 1 {
        ser_str(m[0].0) + seq![':'] + ser_json(m[0].1)
    } else {
        ser_str(m[0].0) + seq![':'] + ser_json(m[0].1) + seq![','] + ser_members(m.drop_first())
    }
}

/// Escaping a string one character longer appends that character's escape.
pub proof fn lemma_esc_snoc(s: Seq<char>, c: char)
    ensures
        esc(s.push(c)) == esc(s) + esc_char(c),
    decreases s.len(),
{
    if s.len() == 0 {
        assert(s.push(c).drop_first() =~= s);
        assert(esc(s.push(c)) =~= esc(s) + esc_char(c));
    } else {
        lemma_esc_snoc(s.drop_first(), c);
        assert(s.push(c).drop_first() =~= s.drop_first().push(c));
        assert(esc(s.push(c)) =~= esc(s) + esc_char(c));
    }
}

/// Serializing one more array element appends a comma and its text.
pub proof fn lemma_ser_elems_snoc(a: Seq<JsonV>, x: JsonV)
    requires
        a.len() >= 1,
    ensures
        ser_elems(a.push(x)) == ser_elems(a) + seq![','] + ser_json(x),
    decreases a.len(),
{
    if a.len() == 1 {
        assert(a.push(x).drop_first() =~= seq![x]);
        assert(ser_elems(seq![x]) == ser_json(x));
        assert(ser_elems(a.push(x)) =~= ser_elems(a) + seq![','] + ser_json(x));
    } else {
        lemma_ser_elems_snoc(a.drop_first(), x);
        assert(a.push(x).drop_first() =~= a.drop_first().push(x));
        assert(ser_elems(a.push(x)) =~= ser_elems(a) + seq![','] + ser_json(x));
    }
}

/// Serializing one more object member appends a comma and its text.
pub proof fn lemma_ser_mems_snoc(m: Seq<(Seq<char>, JsonV)>, x: (Seq<char>, JsonV))
    requires
        m.len() >= 1,
    ensures
        ser_members(m.push(x)) == ser_members(m) + seq![','] + ser_str(x.0) + seq![':']
            + ser_json(x.1),
    decreases m.len(),
{
    if m.len() == 1 {
        assert(m.push(x).drop_first() =~= seq![x]);
        assert(ser_members(seq![x]) == ser_str(x.0) + seq![':'] + ser_json(x.1));
        assert(ser_members(m.push(x)) =~= ser_members(m) + seq![','] + ser_str(x.0) + seq![':']
            + ser_json(x.1));
    } else {
        lemma_ser_mems_snoc(m.drop_first(), x);
        assert(m.push(x).drop_first() =~= m.drop_first().push(x));
        assert(ser_members(m.push(x)) =~= ser_members(m) + seq![','] + ser_str(x.0) + seq![':']
            + ser_json(x.1));
    }
}

/// Relies on `String`'s `FromIterator<char>` impl: collecting characters
/// builds the string that holds exactly those characters in order.
#[verifier::external_body]
pub fn string_from_chars(v: &Vec<char>) -> (r: String)
    ensures
        r@ == v@,
{
    v.iter().collect()
}

/// The characters of a string slice, in order.
pub fn str_to_chars(s: &str) -> (r: Vec<char>)
    ensures
        r@ == s@,
{
    let n = s.unicode_len();
    let mut r: Vec<char> = Vec::new();
    let mut i: usize = 0;
    while i < n
        invariant
            i <= n,
            n == s@.len(),
            r@ == s@.take(i as int),
        decreases n - i,
    {
        let c = s.get_char(i);
        proof {
            assert(s@.take(i + 1 as int) =~= s@.take(i as int).push(s@[i as int]));
        }
        r.push(c);
        i += 1;
    }
    proof {
        assert(s@.take(n as int) =~= s@);
    }
    r
}

/// Append the characters of `s` unchanged.
fn write_raw(s: &String, out: &mut Vec<char>)
    ensures
        final(out)@ == old(out)@ + s@,
{
    let n = s.as_str().unicode_len();
    let mut i: usize = 0;
    while i < n
        invariant
            i <= n,
            n == s@.len(),
            out@ == old(out)@ + s@.take(i as int),
        decreases n - i,
    {
        let c = s.as_str().get_char(i);
        proof {
            assert(s@.take(i + 1 as int) =~= s@.take(i as int).push(s@[i as int]));
        }
        out.push(c);
        i += 1;
    }
    proof {
        assert(s@.take(n as int) =~= s@);
        assert(out@ =~= old(out)@ + s@);
    }
}

/// Append the quoted, escaped form of `s`.
fn write_escaped(s: &String, out: &mut Vec<char>)
    ensures
        final(out)@ == old(out)@ + ser_str(s@),
{
    out.push('"');
    let n = s.as_str().unicode_len();
    let mut i: usize = 0;
    while i < n
        invariant
            i <= n,
            n == s@.len(),
            out@ == old(out)@ + seq!['"'] + esc(s@.take(i as int)),
        decreases n - i,
    {
        let c = s.as_str().get_char(i);
        if c == '"' {
            out.push('\\');
            out.push('"');
        } else if c == '\\' {
            out.push('\\');
            out.push('\\');
        } else if c == '\n' {
            out.push('\\');
            out.push('n');
        } else if c == '\r' {
            out.push('\\');
            out.push('r');
        } else if c == '\t' {
            out.push('\\');
            out.push('t');
        } else {
            out.push(c);
        }
        proof {
            assert(s@.take(i + 1 as int) =~= s@.take(i as int).push(s@[i as int]));
            lemma_esc_snoc(s@.take(i as int), s@[i as int]);
            assert(out@ =~= old(out)@ + seq!['"'] + esc(s@.take(i + 1 as int)));
        }
        i += 1;
    }
    out.push('"');
    proof {
        assert(s@.take(n as int) =~= s@);
        assert(out@ =~= old(out)@ + ser_str(s@));
    }
}

/// Append the canonical text of `j`.
#[verifier::loop_isolation(false)]
#[verifier::rlimit(60)]
pub fn write_json(j: &Json, out: &mut Vec<char>)
    ensures
        final(out)@ == old(out)@ + ser_json(jview(*j)),
    decreases *j,
{
    match j {
        Json::Null => {
            out.push('n');
            out.push('u');
            out.push('l');
            out.push('l');
            proof {
                assert(out@ =~= old(out)@ + ser_json(jview(*j)));
            }
        }
        Json::Bool(b) => {
            if *b {
                out.push('t');
                out.push('r');
                out.push('u');
                out.push('e');
            } else {
                out.push('f');
                out.push('a');
                out.push('l');
                out.push('s');
                out.push('e');
            }
            proof {
                assert(out@ =~= old(out)@ + ser_json(jview(*j)));
            }
        }
        Json::Num(s) => {
            write_raw(s, out);
        }
        Json::Str(s) => {
            write_escaped(s, out);
        }
        Json::Arr(v) => {
            out.push('[');
            let ghost base = old(out)@;
            let ghost a = jview_seq(v@);
            proof {
                lemma_jview_seq(v@);
                assert(a.take(0) =~= Seq::<JsonV>::empty());
            }
            let mut k: usize = 0;
            while k < v.len()
                invariant
                    k <= v.len(),
                    a == jview_seq(v@),
                    a.len() == v@.len(),
                    forall|i: int| 0 <= i < v@.len() ==> a[i] == jview(#[trigger] v@[i]),
                    out@ == base + seq!['['] + ser_elems(a.take(k as int)),
                decreases v.len() - k,
            {
                if k > 0 {
                    out.push(',');
                }
                proof {
                    broadcast use vstd::std_specs::vec::axiom_vec_index_decreases;
                    assert(decreases_to!(*j => (*j)->Arr_0));
                    assert(*v == (*j)->Arr_0);
                    assert(decreases_to!(*v => v@[k as int]));
                    assert(decreases_to!(*j => v@[k as int]));
                }
                write_json(&v[k], out);
                proof {
                    assert(a.take(k + 1 as int) =~= a.take(k as int).push(a[k as int]));
                    if k == 0 {
                        assert(a.take(1) =~= seq![a[0]]);
                        assert(ser_elems(seq![a[0]]) == ser_json(a[0]));
                    } else {
                        lemma_ser_elems_snoc(a.take(k as int), a[k as int]);
                    }
                    assert(out@ =~= base + seq!['['] + ser_elems(a.take(k + 1 as int)));
                }
                k += 1;
            }
            out.push(']');
            proof {
                assert(a.take(v@.len() as int) =~= a);
                assert(out@ =~= base + ser_json(jview(*j)));
            }
        }
        Json::Obj(v) => {
            out.push('{');
            let ghost base = old(out)@;
            let ghost m = jview_mems(v@);
            proof {
                lemma_jview_mems(v@);
                assert(m.take(0) =~= Seq::<(Seq<char>, JsonV)>::empty());
            }
            let mut k: usize = 0;
            while k < v.len()
                invariant
                    k <= v.len(),
                    m == jview_mems(v@),
                    m.len() == v@.len(),
                    forall|i: int| 0 <= i < v@.len()
                        ==> m[i] == ((#[trigger] v@[i]).0@, jview(v@[i].1)),
                    out@ == base + seq!['{'] + ser_members(m.take(k as int)),
                decreases v.len() - k,
            {
                if k > 0 {
                    out.push(',');
                }
                write_escaped(&v[k].0, out);
                out.push(':');
                proof {
                    broadcast use vstd::std_specs::vec::axiom_vec_index_decreases;
                    assert(decreases_to!(*j => (*j)->Obj_0));
                    assert(*v == (*j)->Obj_0);
                    assert(decreases_to!(*v => v@[k as int]));
                    assert(decreases_to!(v@[k as int] => v@[k as int].1));
                    assert(decreases_to!(*j => v@[k as int].1));
                }
                write_json(&v[k].1, out);
                proof {
                    assert(m.take(k + 1 as int) =~= m.take(k as int).push(m[k as int]));
                    if k == 0 {
                        assert(m.take(1) =~= seq![m[0]]);
                        assert(ser_members(seq![m[0]]) == ser_str(m[0].0) + seq![':']
                            + ser_json(m[0].1));
                    } else {
                        lemma_ser_mems_snoc(m.take(k as int), m[k as int]);
                    }
                    assert(out@ =~= base + seq!['{'] + ser_members(m.take(k + 1 as int)));
                }
                k += 1;
            }
            out.push('}');
            proof {
                assert(m.take(v@.len() as int) =~= m);
                assert(out@ =~= base + ser_json(jview(*j)));
            }
        }
    }
}

/// A well-formed value's text is non-empty and its first character names
/// the variant.
pub proof fn lemma_ser_first(jv: JsonV)
    requires
        wf_json(jv),
    ensures
        ser_json(jv).len() > 0,
        jv is Null ==> ser_json(jv)[0] == 'n',
        jv is Bool ==> (ser_json(jv)[0] == 't' || ser_json(jv)[0] == 'f'),
        jv is Num ==> (ser_json(jv)[0] == '-' || ('0' <= ser_json(jv)[0] && ser_json(jv)[0]
            <= '9')),
        jv is Str ==> ser_json(jv)[0] == '"',
        jv is Arr ==> ser_json(jv)[0] == '[',
        jv is Obj ==> ser_json(jv)[0] == '{',
{
    match jv {
        JsonV::Null => {}
        JsonV::Bool(b) => {}
        JsonV::Num(s) => {
            assert(ser_json(jv)[0] == s[0]);
        }
        JsonV::Str(s) => {
            assert(ser_json(jv)[0] == '"');
        }
        JsonV::Arr(a) => {
            assert(ser_json(jv)[0] == '[');
        }
        JsonV::Obj(m) => {
            assert(ser_json(jv)[0] == '{');
        }
    }
}

/// How an escaped string body opens, depending on its first character.
pub proof fn lemma_esc_head(sv: Seq<char>)
    requires
        sv.len() > 0,
    ensures
        esc(sv).len() >= 1,
        esc(sv)[0] != '"',
        needs_esc(sv[0]) ==> esc(sv).len() >= 2 && esc(sv)[0] == '\\' && esc(sv)[1] == esc_code(
            sv[0]) && esc(sv).skip(2) == esc(sv.drop_first()),
        !needs_esc(sv[0]) ==> esc(sv)[0] == sv[0] && sv[0] != '\\' && esc(sv).skip(1) == esc(
            sv.drop_first()),
{
    if needs_esc(sv[0]) {
        assert(esc(sv).skip(2) =~= esc(sv.drop_first()));
    } else {
        assert(esc(sv).skip(1) =~= esc(sv.drop_first()));
    }
}

/// Splitting a range of text at the length of a known left part.
pub proof fn lemma_subrange_split(s: Seq<char>, i: int, k: int, a: Seq<char>, b: Seq<char>)
    requires
        0 <= i <= k <= s.len(),
        s.subrange(i, k) == a + b,
    ensures
        k == i + a.len() + b.len(),
        s.subrange(i, i + a.len()) == a,
        s.subrange(i + a.len(), k) == b,
{
    assert((a + b).len() == a.len() + b.len());
    assert(k - i == a.len() + b.len());
    assert(s.subrange(i, i + a.len()) =~= a);
    assert forall|d: int| 0 <= d < b.len() implies s.subrange(i + a.len(), k)[d] == b[d] by {
        assert(b[d] == (a + b)[a.len() + d]);
        assert(s.subrange(i, k)[a.len() + d] == s[i + a.len() + d]);
    }
    assert(s.subrange(i + a.len(), k) =~= b);
}

/// The text of a string body, read until the closing quote.  On success the
/// consumed text (the quote excluded) is the escape of the returned
/// characters; conversely, any escaped body followed by a quote is read
/// back exactly.
#[verifier::loop_isolation(false)]
#[verifier::rlimit(60)]
fn parse_str_body(s: &Vec<char>, i: usize) -> (r: Option<(Vec<char>, usize)>)
    requires
        i <= s@.len(),
    ensures
        (match r {
            Some(p) => i < p.1 <= s@.len() && s@.subrange(i as int, p.1 - 1) == esc(p.0@)
                && s@[p.1 - 1] == '"',
            None => true,
        }),
        forall|sv: Seq<char>, k: int|
            i <= k < s@.len() && s@.subrange(i as int, k) == esc(sv) && s@[k] == '"'
                ==> (match r {
                Some(p) => p.0@ == sv && p.1 == k + 1,
                None => false,
            }),
    decreases s@.len() - i,
{
    if i == s.len() {
        return None;
    }
    let c = s[i];
    if c == '"' {
        let out: Vec<char> = Vec::new();
        proof {
            assert(s@.subrange(i as int, i as int) =~= esc(out@));
            assert forall|sv: Seq<char>, k: int|
                i <= k < s@.len() && s@.subrange(i as int, k) == esc(sv) && s@[k]
                    == '"' implies sv == out@ && k == i as int by {
                if sv.len() > 0 {
                    lemma_esc_head(sv);
                    assert(s@[i as int] == s@.subrange(i as int, k)[0]);
                }
                assert(sv =~= out@);
            }
        }
        Some((out, i + 1))
    } else if c == '\\' {
        if i + 1 == s.len() {
            proof {
                assert forall|sv: Seq<char>, k: int|
                    i <= k < s@.len() && s@.subrange(i as int, k) == esc(sv) && s@[k]
                        == '"' implies false by {
                    assert(sv.len() > 0) by {
                        if sv.len() == 0 {
                            assert(k == i);
                        }
                    }
                    lemma_esc_head(sv);
                    assert(esc(sv)[0] == s@[i as int]);
                    assert(needs_esc(sv[0]));
                    assert(esc(sv).len() >= 2);
                    assert(k >= i + 2);
                }
            }
            return None;
        }
        let e = s[i + 1];
        let dec: char = if e == '"' {
            '"'
        } else if e == '\\' {
            '\\'
        } else if e == 'n' {
            '\n'
        } else if e == 'r' {
            '\r'
        } else if e == 't' {
            '\t'
        } else {
            'x'
        };
        let valid: bool = e == '"' || e == '\\' || e == 'n' || e == 'r' || e == 't';
        proof {
            assert forall|sv: Seq<char>, k: int|
                i <= k < s@.len() && s@.subrange(i as int, k) == esc(sv) && s@[k]
                    == '"' implies sv.len() > 0 && needs_esc(sv[0]) && esc_code(sv[0]) == e
                && valid && sv[0] == dec && k >= i + 2 && s@.subrange(i + 2, k) == esc(
                sv.drop_first()) by {
                assert(s@.subrange(i as int, k).len() == k - i);
                assert(sv.len() > 0) by {
                    if sv.len() == 0 {
                        assert(esc(sv).len() == 0);
                        assert(s@[i as int] == '"');
                    }
                }
                lemma_esc_head(sv);
                assert(esc(sv)[0] == s@[i as int]);
                assert(needs_esc(sv[0]));
                assert(esc(sv)[1] == s@.subrange(i as int, k)[1]);
                assert(esc_code(sv[0]) == e);
                assert(s@.subrange(i + 2, k) =~= esc(sv).skip(2));
            }
        }
        if !valid {
            return None;
        }
        match parse_str_body(s, i + 2) {
            Some((rest, k2)) => {
                let ghost restv = rest@;
                let mut out = rest;
                out.insert(0, dec);
                proof {
                    assert(out@ =~= seq![dec] + restv);
                    let u = out@;
                    assert(u.drop_first() =~= restv);
                    assert(needs_esc(dec) && esc_code(dec) == e);
                    assert(esc(u) == esc_char(dec) + esc(u.drop_first()));
                    assert(s@.subrange(i as int, k2 - 1) =~= seq!['\\', e] + s@.subrange(
                        i + 2, k2 - 1));
                    assert(s@.subrange(i as int, k2 - 1) =~= esc(u));
                    assert forall|sv: Seq<char>, k: int|
                        i <= k < s@.len() && s@.subrange(i as int, k) == esc(sv) && s@[k]
                            == '"' implies out@ == sv && k2 == k + 1 by {
                        assert(s@.subrange(i + 2, k) == esc(sv.drop_first()));
                        assert(restv == sv.drop_first() && k2 == k + 1);
                        assert(out@ =~= sv);
                    }
                }
                Some((out, k2))
            }
            None => None,
        }
    } else if c == '\n' || c == '\r' || c == '\t' {
        proof {
            assert forall|sv: Seq<char>, k: int|
                i <= k < s@.len() && s@.subrange(i as int, k) == esc(sv) && s@[k]
                    == '"' implies false by {
                assert(s@.subrange(i as int, k).len() == k - i);
                assert(sv.len() > 0) by {
                    if sv.len() == 0 {
                        assert(esc(sv).len() == 0);
                        assert(s@[i as int] == '"');
                    }
                }
                lemma_esc_head(sv);
                assert(esc(sv)[0] == s@[i as int]);
                if needs_esc(sv[0]) {
                    assert(esc(sv)[0] == '\\');
                }
            }
        }
        None
    } else {
        proof {
            assert forall|sv: Seq<char>, k: int|
                i <= k < s@.len() && s@.subrange(i as int, k) == esc(sv) && s@[k]
                    == '"' implies sv.len() > 0 && !needs_esc(sv[0]) && sv[0] == c && k >= i + 1
                && s@.subrange(i + 1, k) == esc(sv.drop_first()) by {
                assert(s@.subrange(i as int, k).len() == k - i);
                assert(sv.len() > 0) by {
                    if sv.len() == 0 {
                        assert(esc(sv).len() == 0);
                        assert(s@[i as int] == '"');
                    }
                }
                lemma_esc_head(sv);
                assert(esc(sv)[0] == s@[i as int]);
                if needs_esc(sv[0]) {
                    assert(esc(sv)[0] == '\\');
                }
                assert(s@.subrange(i + 1, k) =~= esc(sv).skip(1));
            }
        }
        match parse_str_body(s, i + 1) {
            Some((rest, k2)) => {
                let ghost restv = rest@;
                let mut out = rest;
                out.insert(0, c);
                proof {
                    assert(out@ =~= seq![c] + restv);
                    let u = out@;
                    assert(u.drop_first() =~= restv);
                    assert(!needs_esc(c));
                    assert(esc(u) == esc_char(c) + esc(u.drop_first()));
                    assert(s@.subrange(i as int, k2 - 1) =~= seq![c] + s@.subrange(i + 1, k2 - 1));
                    assert(s@.subrange(i as int, k2 - 1) =~= esc(u));
                    assert forall|sv: Seq<char>, k: int|
                        i <= k < s@.len() && s@.subrange(i as int, k) == esc(sv) && s@[k]
                            == '"' implies out@ == sv && k2 == k + 1 by {
                        assert(s@.subrange(i + 1, k) == esc(sv.drop_first()));
                        assert(restv == sv.drop_first() && k2 == k + 1);
                        assert(out@ =~= sv);
                    }
                }
                Some((out, k2))
            }
            None => None,
        }
    }
}

/// The text at `i .. k` is the canonical form of `jv`.
pub open spec fn text_of(s: Seq<char>, i: int, k: int, jv: JsonV) -> bool {
    0 <= i <= k <= s.len() && wf_json(jv) && s.subrange(i, k) == ser_json(jv)
}

/// Position `k` may end a value: the input ends there, or the next
/// character cannot extend a number lexeme.
pub open spec fn delim_ok(s: Seq<char>, k: int) -> bool {
    k == s.len() || !is_num_char(s[k])
}

/// What canonical text looks like, by variant of the value it writes.
proof fn lemma_str_shape(s: Seq<char>, i: int, k: int, sv: Seq<char>)
    requires
        0 <= i <= k <= s.len(),
        s.subrange(i, k) == ser_str(sv),
    ensures
        k >= i + 2,
        s[i] == '"',
        s[k - 1] == '"',
        s.subrange(i + 1, k - 1) == esc(sv),
{
    assert(ser_str(sv) == seq!['"'] + (esc(sv) + seq!['"'])) by {
        assert(ser_str(sv) =~= seq!['"'] + (esc(sv) + seq!['"']));
    }
    lemma_subrange_split(s, i, k, seq!['"'], esc(sv) + seq!['"']);
    lemma_subrange_split(s, i + 1, k, esc(sv), seq!['"']);
    assert(s[i] == s.subrange(i, i + 1)[0]);
    assert(s[k - 1] == s.subrange(k - 1, k)[0]);
}

/// What canonical text looks like, by variant.
proof fn lemma_value_shape(s: Seq<char>, i: int, k: int, jv: JsonV)
    requires
        text_of(s, i, k, jv),
    ensures
        k > i,
        jv is Null ==> (k == i + 4 && s[i] == 'n' && s[i + 1] == 'u' && s[i + 2] == 'l'
            && s[i + 3] == 'l'),
        jv == JsonV::Bool(true) ==> (k == i + 4 && s[i] == 't' && s[i + 1] == 'r'
            && s[i + 2] == 'u' && s[i + 3] == 'e'),
        jv == JsonV::Bool(false) ==> (k == i + 5 && s[i] == 'f' && s[i + 1] == 'a'
            && s[i + 2] == 'l' && s[i + 3] == 's' && s[i + 4] == 'e'),
        jv is Num ==> (s.subrange(i, k) == jv->Num_0 && (s[i] == '-' || ('0' <= s[i] && s[i]
            <= '9')) && (forall|d: int| i <= d < k ==> is_num_char(#[trigger] s[d]))),
        jv is Str ==> (s[i] == '"' && k >= i + 2 && s[k - 1] == '"' && s.subrange(i + 1, k - 1)
            == esc(jv->Str_0)),
        jv is Arr ==> (s[i] == '[' && k >= i + 2 && s[k - 1] == ']' && s.subrange(i + 1, k - 1)
            == ser_elems(jv->Arr_0)),
        jv is Obj ==> (s[i] == '{' && k >= i + 2 && s[k - 1] == '}' && s.subrange(i + 1, k - 1)
            == ser_members(jv->Obj_0)),
{
    assert(s.subrange(i, k).len() == k - i);
    lemma_ser_first(jv);
    assert forall|d: int| 0 <= d < k - i implies s[i + d] == ser_json(jv)[d] by {
        assert(s.subrange(i, k)[d] == s[i + d]);
    }
    match jv {
        JsonV::Null => {}
        JsonV::Bool(b) => {}
        JsonV::Num(nv) => {
            assert forall|d: int| i <= d < k implies is_num_char(#[trigger] s[d]) by {
                assert(s[d] == ser_json(jv)[d - i]);
            }
        }
        JsonV::Str(sv) => {
            lemma_str_shape(s, i, k, sv);
        }
        JsonV::Arr(av) => {
            assert(ser_json(jv) == seq!['['] + (ser_elems(av) + seq![']'])) by {
                assert(ser_json(jv) =~= seq!['['] + (ser_elems(av) + seq![']']));
            }
            lemma_subrange_split(s, i, k, seq!['['], ser_elems(av) + seq![']']);
            lemma_subrange_split(s, i + 1, k, ser_elems(av), seq![']']);
            assert(s[i] == s.subrange(i, i + 1)[0]);
            assert(s[k - 1] == s.subrange(k - 1, k)[0]);
        }
        JsonV::Obj(mv) => {
            assert(ser_json(jv) == seq!['{'] + (ser_members(mv) + seq!['}'])) by {
                assert(ser_json(jv) =~= seq!['{'] + (ser_members(mv) + seq!['}']));
            }
            lemma_subrange_split(s, i, k, seq!['{'], ser_members(mv) + seq!['}']);
            lemma_subrange_split(s, i + 1, k, ser_members(mv), seq!['}']);
            assert(s[i] == s.subrange(i, i + 1)[0]);
            assert(s[k - 1] == s.subrange(k - 1, k)[0]);
        }
    }
}

/// How a non-empty element list's text decomposes.
proof fn lemma_elems_shape(s: Seq<char>, i: int, k: int, av: Seq<JsonV>)
    requires
        0 <= i <= k <= s.len(),
        av.len() >= 1,
        forall|d: int| 0 <= d < av.len() ==> wf_json(#[trigger] av[d]),
        s.subrange(i, k) == ser_elems(av),
    ensures
        text_of(s, i, i + ser_json(av[0]).len(), av[0]),
        av.len() == 1 ==> k == i + ser_json(av[0]).len(),
        av.len() > 1 ==> (i + ser_json(av[0]).len() < k && s[i + ser_json(av[0]).len()] == ','
            && s.subrange(i + ser_json(av[0]).len() + 1, k) == ser_elems(av.drop_first())),
{
    if av.len() == 1 {
        assert(ser_elems(av) == ser_json(av[0]));
    } else {
        assert(ser_elems(av) == ser_json(av[0]) + (seq![','] + ser_elems(av.drop_first()))) by {
            assert(ser_elems(av) =~= ser_json(av[0]) + (seq![','] + ser_elems(av.drop_first())));
        }
        lemma_subrange_split(s, i, k, ser_json(av[0]), seq![','] + ser_elems(av.drop_first()));
        lemma_subrange_split(s, i + ser_json(av[0]).len(), k, seq![','],
            ser_elems(av.drop_first()));
        assert(s[i + ser_json(av[0]).len()] == s.subrange(i + ser_json(av[0]).len(),
            i + ser_json(av[0]).len() + 1)[0]);
    }
}

/// How a non-empty member list's text decomposes.
proof fn lemma_members_shape(s: Seq<char>, i: int, k: int, mv: Seq<(Seq<char>, JsonV)>)
    requires
        0 <= i <= k <= s.len(),
        mv.len() >= 1,
        forall|d: int| 0 <= d < mv.len() ==> wf_json((#[trigger] mv[d]).1),
        s.subrange(i, k) == ser_members(mv),
    ensures
        ({
            let ks = ser_str(mv[0].0).len();
            let vs = ser_json(mv[0].1).len();
            &&& i + ks < k
            &&& s.subrange(i, i + ks) == ser_str(mv[0].0)
            &&& s[i + ks] == ':'
            &&& text_of(s, i + ks + 1, i + ks + 1 + vs, mv[0].1)
            &&& (mv.len() == 1 ==> k == i + ks + 1 + vs)
            &&& (mv.len() > 1 ==> (i + ks + 1 + vs < k && s[i + ks + 1 + vs] == ','
                && s.subrange(i + ks + 2 + vs, k) == ser_members(mv.drop_first())))
        }),
{
    let ks = ser_str(mv[0].0).len();
    let vs = ser_json(mv[0].1).len();
    if mv.len() == 1 {
        assert(ser_members(mv) == ser_str(mv[0].0) + (seq![':'] + ser_json(mv[0].1))) by {
            assert(ser_members(mv) =~= ser_str(mv[0].0) + (seq![':'] + ser_json(mv[0].1)));
        }
        lemma_subrange_split(s, i, k, ser_str(mv[0].0), seq![':'] + ser_json(mv[0].1));
        lemma_subrange_split(s, i + ks, k, seq![':'], ser_json(mv[0].1));
        assert(s[i + ks] == s.subrange(i + ks, i + ks + 1)[0]);
    } else {
        assert(ser_members(mv) == ser_str(mv[0].0) + (seq![':'] + (ser_json(mv[0].1) + (seq![',']
            + ser_members(mv.drop_first()))))) by {
            assert(ser_members(mv) =~= ser_str(mv[0].0) + (seq![':'] + (ser_json(mv[0].1) + (
            seq![','] + ser_members(mv.drop_first())))));
        }
        lemma_subrange_split(s, i, k, ser_str(mv[0].0), seq![':'] + (ser_json(mv[0].1) + (
        seq![','] + ser_members(mv.drop_first()))));
        lemma_subrange_split(s, i + ks, k, seq![':'], ser_json(mv[0].1) + (seq![',']
            + ser_members(mv.drop_first())));
        assert(s[i + ks] == s.subrange(i + ks, i + ks + 1)[0]);
        lemma_subrange_split(s, i + ks + 1, k, ser_json(mv[0].1), seq![','] + ser_members(
            mv.drop_first()));
        lemma_subrange_split(s, i + ks + 1 + vs, k, seq![','], ser_members(mv.drop_first()));
        assert(s[i + ks + 1 + vs] == s.subrange(i + ks + 1 + vs, i + ks + 2 + vs)[0]);
    }
}

/// Is `c` a number character?
fn num_char(c: char) -> (r: bool)
    ensures
        r == is_num_char(c),
{
    ('0' <= c && c <= '9') || c == '-' || c == '+' || c == '.' || c == 'e' || c == 'E'
}

/// A quoted string read from position `i`; on success the consumed text is
/// the canonical form of the returned string, and any canonically written
/// string at `i` is read back exactly.
#[verifier::loop_isolation(false)]
#[verifier::rlimit(60)]
fn parse_string(s: &Vec<char>, i: usize) -> (r: Option<(String, usize)>)
    requires
        i <= s@.len(),
    ensures
        (match r {
            Some(p) => i + 2 <= p.1 <= s@.len() && s@.subrange(i as int, p.1 as int) == ser_str(
                p.0@),
            None => true,
        }),
        forall|sv: Seq<char>, k: int|
            i <= k <= s@.len() && s@.subrange(i as int, k) == ser_str(sv)
                ==> (match r {
                Some(p) => p.0@ == sv && p.1 == k,
                None => false,
            }),
    decreases s@.len() - i,
{
    proof {
        assert forall|sv: Seq<char>, k: int|
            i <= k <= s@.len() && s@.subrange(i as int, k) == ser_str(sv) implies k >= i + 2
            && s@[i as int] == '"' && s@[k - 1] == '"' && s@.subrange(i + 1, k - 1) == esc(
            sv) by {
            lemma_str_shape(s@, i as int, k, sv);
        }
    }
    if i == s.len() {
        return None;
    }
    if s[i] != '"' {
        return None;
    }
    match parse_str_body(s, i + 1) {
        Some((cs, k2)) => {
            let st = string_from_chars(&cs);
            proof {
                assert(s@.subrange(i as int, k2 as int) =~= seq!['"'] + esc(st@) + seq!['"']);
                assert forall|sv: Seq<char>, k: int|
                    i <= k <= s@.len() && s@.subrange(i as int, k) == ser_str(sv) implies st@
                    == sv && k2 == k by {
                    assert(s@.subrange(i + 1, k - 1) == esc(sv));
                    assert(cs@ == sv && k2 == k);
                }
            }
            Some((st, k2))
        }
        None => {
            None
        }
    }
}

/// One value read from position `i`.  On success the consumed text is the
/// canonical form of a well-formed value; conversely, the canonical text
/// of any well-formed value standing at `i` (its end not running into a
/// number character) is read back exactly.
#[verifier::loop_isolation(false)]
#[verifier::rlimit(100)]
fn parse_value(s: &Vec<char>, i: usize) -> (r: Option<(Json, usize)>)
    requires
        i <= s@.len(),
    ensures
        (match r {
            Some(p) => i < p.1 <= s@.len() && text_of(s@, i as int, p.1 as int, jview(p.0)),
            None => true,
        }),
        forall|jv: JsonV, k: int|
            text_of(s@, i as int, k, jv) && delim_ok(s@, k)
                ==> (match r {
                Some(p) => jview(p.0) == jv && p.1 == k,
                None => false,
            }),
    decreases s@.len() - i, 0int,
{
    proof {
        assert forall|jv: JsonV, k: int| text_of(s@, i as int, k, jv) implies k > i as int by {
            lemma_value_shape(s@, i as int, k, jv);
        }
    }
    if i == s.len() {
        return None;
    }
    let c = s[i];
    if c == 'n' {
        if s.len() - i >= 4 && s[i + 1] == 'u' && s[i + 2] == 'l' && s[i + 3] == 'l' {
            proof {
                assert(s@.subrange(i as int, i + 4) =~= seq!['n', 'u', 'l', 'l']);
                assert(text_of(s@, i as int, i + 4, jview(Json::Null)));
                assert forall|jv: JsonV, k: int|
                    text_of(s@, i as int, k, jv) && delim_ok(s@, k) implies jview(Json::Null)
                    == jv && i + 4 == k by {
                    lemma_value_shape(s@, i as int, k, jv);
                }
            }
            Some((Json::Null, i + 4))
        } else {
            proof {
                assert forall|jv: JsonV, k: int|
                    text_of(s@, i as int, k, jv) && delim_ok(s@, k) implies false by {
                    lemma_value_shape(s@, i as int, k, jv);
                }
            }
            None
        }
    } else if c == 't' {
        if s.len() - i >= 4 && s[i + 1] == 'r' && s[i + 2] == 'u' && s[i + 3] == 'e' {
            proof {
                assert(s@.subrange(i as int, i + 4) =~= seq!['t', 'r', 'u', 'e']);
                assert(text_of(s@, i as int, i + 4, jview(Json::Bool(true))));
                assert forall|jv: JsonV, k: int|
                    text_of(s@, i as int, k, jv) && delim_ok(s@, k) implies jview(Json::Bool(
                    true)) == jv && i + 4 == k by {
                    lemma_value_shape(s@, i as int, k, jv);
                }
            }
            Some((Json::Bool(true), i + 4))
        } else {
            proof {
                assert forall|jv: JsonV, k: int|
                    text_of(s@, i as int, k, jv) && delim_ok(s@, k) implies false by {
                    lemma_value_shape(s@, i as int, k, jv);
                }
            }
            None
        }
    } else if c == 'f' {
        if s.len() - i >= 5 && s[i + 1] == 'a' && s[i + 2] == 'l' && s[i + 3] == 's' && s[i + 4]
            == 'e' {
            proof {
                assert(s@.subrange(i as int, i + 5) =~= seq!['f', 'a', 'l', 's', 'e']);
                assert(text_of(s@, i as int, i + 5, jview(Json::Bool(false))));
                assert forall|jv: JsonV, k: int|
                    text_of(s@, i as int, k, jv) && delim_ok(s@, k) implies jview(Json::Bool(
                    false)) == jv && i + 5 == k by {
                    lemma_value_shape(s@, i as int, k, jv);
                }
            }
            Some((Json::Bool(false), i + 5))
        } else {
            proof {
                assert forall|jv: JsonV, k: int|
                    text_of(s@, i as int, k, jv) && delim_ok(s@, k) implies false by {
                    lemma_value_shape(s@, i as int, k, jv);
                }
            }
            None
        }
    } else if c == '"' {
        let res = parse_string(s, i);
        proof {
            assert forall|jv: JsonV, k: int|
                text_of(s@, i as int, k, jv) && delim_ok(s@, k) implies jv is Str
                && s@.subrange(i as int, k) == ser_str(jv->Str_0) by {
                lemma_value_shape(s@, i as int, k, jv);
            }
        }
        match res {
            Some((st, k)) => {
                proof {
                    assert(text_of(s@, i as int, k as int, jview(Json::Str(st))));
                }
                Some((Json::Str(st), k))
            }
            None => None,
        }
    } else if c == '[' {
        proof {
            assert forall|jv: JsonV, k: int|
                text_of(s@, i as int, k, jv) && delim_ok(s@, k) implies jv is Arr && k >= i + 2
                && s@[k - 1] == ']' && s@.subrange(i + 1, k - 1) == ser_elems(jv->Arr_0) by {
                lemma_value_shape(s@, i as int, k, jv);
            }
        }
        if s.len() - i > 1 && s[i + 1] == ']' {
            let es: Vec<Json> = Vec::new();
            proof {
                assert(jview_seq(es@) =~= Seq::<JsonV>::empty());
                assert(s@.subrange(i as int, i + 2) =~= seq!['['] + ser_elems(jview_seq(es@))
                    + seq![']']);
                assert(text_of(s@, i as int, i + 2, jview(Json::Arr(es))));
                assert forall|jv: JsonV, k: int|
                    text_of(s@, i as int, k, jv) && delim_ok(s@, k) implies jview(Json::Arr(es))
                    == jv && i + 2 == k by {
                    lemma_value_shape(s@, i as int, k, jv);
                    let av = jv->Arr_0;
                    if av.len() >= 1 {
                        lemma_elems_shape(s@, i + 1, k - 1, av);
                        lemma_ser_first(av[0]);
                        assert(s@[i + 1] == ser_json(av[0])[0]);
                    }
                    assert(av =~= jview_seq(es@));
                }
            }
            Some((Json::Arr(es), i + 2))
        } else {
            let res = parse_elems(s, i + 1);
            proof {
                assert forall|jv: JsonV, k: int|
                    text_of(s@, i as int, k, jv) && delim_ok(s@, k) implies jv->Arr_0.len() >= 1
                    && (forall|d: int| 0 <= d < jv->Arr_0.len() ==> wf_json(
                    #[trigger] jv->Arr_0[d])) by {
                    lemma_value_shape(s@, i as int, k, jv);
                    let av = jv->Arr_0;
                    if av.len() == 0 {
                        assert(s@.subrange(i + 1, k - 1) =~= Seq::<char>::empty());
                        assert(k == i + 2);
                        assert(s@[i + 1] == ']');
                    }
                }
            }
            match res {
                Some((es, k1)) => {
                    if k1 < s.len() && s[k1] == ']' {
                        proof {
                            assert(s@.subrange(i as int, k1 + 1) =~= seq!['['] + ser_elems(
                                jview_seq(es@)) + seq![']']);
                            lemma_jview_seq(es@);
                            assert(forall|d: int| 0 <= d < jview_seq(es@).len() ==> wf_json(
                                #[trigger] jview_seq(es@)[d]));
                            assert(text_of(s@, i as int, k1 + 1, jview(Json::Arr(es))));
                            assert forall|jv: JsonV, k: int|
                                text_of(s@, i as int, k, jv) && delim_ok(s@, k) implies jview(
                                Json::Arr(es)) == jv && k1 + 1 == k by {
                                lemma_value_shape(s@, i as int, k, jv);
                                let av = jv->Arr_0;
                                assert(jview_seq(es@) == av && k1 == k - 1);
                            }
                        }
                        Some((Json::Arr(es), k1 + 1))
                    } else {
                        proof {
                            assert forall|jv: JsonV, k: int|
                                text_of(s@, i as int, k, jv) && delim_ok(s@, k) implies false by {
                                lemma_value_shape(s@, i as int, k, jv);
                                let av = jv->Arr_0;
                                assert(jview_seq(es@) == av && k1 == k - 1);
                            }
                        }
                        None
                    }
                }
                None => None,
            }
        }
    } else if c == '{' {
        proof {
            assert forall|jv: JsonV, k: int|
                text_of(s@, i as int, k, jv) && delim_ok(s@, k) implies jv is Obj && k >= i + 2
                && s@[k - 1] == '}' && s@.subrange(i + 1, k - 1) == ser_members(jv->Obj_0) by {
                lemma_value_shape(s@, i as int, k, jv);
            }
        }
        if s.len() - i > 1 && s[i + 1] == '}' {
            let ms: Vec<(String, Json)> = Vec::new();
            proof {
                assert(jview_mems(ms@) =~= Seq::<(Seq<char>, JsonV)>::empty());
                assert(s@.subrange(i as int, i + 2) =~= seq!['{'] + ser_members(jview_mems(ms@))
                    + seq!['}']);
                assert(text_of(s@, i as int, i + 2, jview(Json::Obj(ms))));
                assert forall|jv: JsonV, k: int|
                    text_of(s@, i as int, k, jv) && delim_ok(s@, k) implies jview(Json::Obj(ms))
                    == jv && i + 2 == k by {
                    lemma_value_shape(s@, i as int, k, jv);
                    let mv = jv->Obj_0;
                    if mv.len() >= 1 {
                        lemma_members_shape(s@, i + 1, k - 1, mv);
                        lemma_str_shape(s@, i + 1, i + 1 + ser_str(mv[0].0).len(), mv[0].0);
                    }
                    assert(mv =~= jview_mems(ms@));
                }
            }
            Some((Json::Obj(ms), i + 2))
        } else {
            let res = parse_members(s, i + 1);
            proof {
                assert forall|jv: JsonV, k: int|
                    text_of(s@, i as int, k, jv) && delim_ok(s@, k) implies jv->Obj_0.len() >= 1
                    && (forall|d: int| 0 <= d < jv->Obj_0.len() ==> wf_json(
                    (#[trigger] jv->Obj_0[d]).1)) by {
                    lemma_value_shape(s@, i as int, k, jv);
                    let mv = jv->Obj_0;
                    if mv.len() == 0 {
                        assert(s@.subrange(i + 1, k - 1) =~= Seq::<char>::empty());
                        assert(k == i + 2);
                        assert(s@[i + 1] == '}');
                    }
                }
            }
            match res {
                Some((ms, k1)) => {
                    if k1 < s.len() && s[k1] == '}' {
                        proof {
                            assert(s@.subrange(i as int, k1 + 1) =~= seq!['{'] + ser_members(
                                jview_mems(ms@)) + seq!['}']);
                            lemma_jview_mems(ms@);
                            assert(forall|d: int| 0 <= d < jview_mems(ms@).len() ==> wf_json(
                                (#[trigger] jview_mems(ms@)[d]).1));
                            assert(text_of(s@, i as int, k1 + 1, jview(Json::Obj(ms))));
                            assert forall|jv: JsonV, k: int|
                                text_of(s@, i as int, k, jv) && delim_ok(s@, k) implies jview(
                                Json::Obj(ms)) == jv && k1 + 1 == k by {
                                lemma_value_shape(s@, i as int, k, jv);
                                let mv = jv->Obj_0;
                                assert(jview_mems(ms@) == mv && k1 == k - 1);
                            }
                        }
                        Some((Json::Obj(ms), k1 + 1))
                    } else {
                        proof {
                            assert forall|jv: JsonV, k: int|
                                text_of(s@, i as int, k, jv) && delim_ok(s@, k) implies false by {
                                lemma_value_shape(s@, i as int, k, jv);
                                let mv = jv->Obj_0;
                                assert(jview_mems(ms@) == mv && k1 == k - 1);
                            }
                        }
                        None
                    }
                }
                None => None,
            }
        }
    } else if c == '-' || ('0' <= c && c <= '9') {
        let mut k: usize = i;
        while k < s.len() && num_char(s[k])
            invariant
                i <= k <= s@.len(),
                forall|d: int| i <= d < k ==> is_num_char(#[trigger] s@[d]),
            decreases s@.len() - k,
        {
            k = k + 1;
        }
        assert(k > i);
        let mut lex: Vec<char> = Vec::new();
        let mut d: usize = i;
        while d < k
            invariant
                i <= d <= k <= s@.len(),
                lex@ == s@.subrange(i as int, d as int),
            decreases k - d,
        {
            proof {
                assert(s@.subrange(i as int, d + 1 as int) =~= s@.subrange(i as int,
                    d as int).push(s@[d as int]));
            }
            lex.push(s[d]);
            d = d + 1;
        }
        let st = string_from_chars(&lex);
        proof {
            assert(st@ == s@.subrange(i as int, k as int));
            assert(wf_num(st@));
            assert(text_of(s@, i as int, k as int, jview(Json::Num(st))));
            assert forall|jv: JsonV, kk: int|
                text_of(s@, i as int, kk, jv) && delim_ok(s@, kk) implies jview(Json::Num(st))
                == jv && k == kk by {
                lemma_value_shape(s@, i as int, kk, jv);
                let nv = jv->Num_0;
                if kk < k {
                    assert(is_num_char(s@[kk]));
                } else if kk > k {
                    assert(s@[k as int] == s@.subrange(i as int, kk)[k - i]);
                    assert(is_num_char(s@[k as int]));
                }
                assert(nv =~= st@);
            }
        }
        Some((Json::Num(st), k))
    } else {
        proof {
            assert forall|jv: JsonV, k: int|
                text_of(s@, i as int, k, jv) && delim_ok(s@, k) implies false by {
                lemma_value_shape(s@, i as int, k, jv);
            }
        }
        None
    }
}

/// A non-empty comma-separated element list read from position `i`.
#[verifier::loop_isolation(false)]
#[verifier::rlimit(100)]
fn parse_elems(s: &Vec<char>, i: usize) -> (r: Option<(Vec<Json>, usize)>)
    requires
        i <= s@.len(),
    ensures
        (match r {
            Some(p) => i < p.1 <= s@.len() && p.0.len() >= 1 && (forall|d: int|
                0 <= d < jview_seq(p.0@).len() ==> wf_json(#[trigger] jview_seq(p.0@)[d]))
                && s@.subrange(i as int, p.1 as int) == ser_elems(jview_seq(p.0@)),
            None => true,
        }),
        forall|av: Seq<JsonV>, k: int|
            i <= k < s@.len() && av.len() >= 1 && (forall|d: int|
                0 <= d < av.len() ==> wf_json(#[trigger] av[d])) && s@.subrange(i as int, k)
                == ser_elems(av) && s@[k] == ']'
                ==> (match r {
                Some(p) => jview_seq(p.0@) == av && p.1 == k,
                None => false,
            }),
    decreases s@.len() - i, 1int,
{
    proof {
        assert forall|av: Seq<JsonV>, k: int|
            i <= k < s@.len() && av.len() >= 1 && (forall|d: int|
                0 <= d < av.len() ==> wf_json(#[trigger] av[d])) && s@.subrange(i as int, k)
                == ser_elems(av) && s@[k] == ']' implies text_of(s@, i as int,
            i + ser_json(av[0]).len(), av[0]) && delim_ok(s@, i + ser_json(av[0]).len()) by {
            lemma_elems_shape(s@, i as int, k, av);
        }
    }
    match parse_value(s, i) {
        Some((j0, k0)) => {
            if k0 < s.len() && s[k0] == ',' {
                proof {
                    assert forall|av: Seq<JsonV>, k: int|
                        i <= k < s@.len() && av.len() >= 1 && (forall|d: int|
                            0 <= d < av.len() ==> wf_json(#[trigger] av[d])) && s@.subrange(
                        i as int, k) == ser_elems(av) && s@[k] == ']' implies av.len() >= 2
                        && k0 + 1 <= k < s@.len() && s@.subrange(k0 + 1, k) == ser_elems(
                        av.drop_first()) && av.drop_first().len() >= 1 && (forall|d: int|
                        0 <= d < av.drop_first().len() ==> wf_json(
                        #[trigger] av.drop_first()[d])) by {
                        lemma_elems_shape(s@, i as int, k, av);
                        assert(jview(j0) == av[0] && k0 == i + ser_json(av[0]).len());
                    }
                }
                match parse_elems(s, k0 + 1) {
                    Some((rest, k1)) => {
                        let ghost restv = rest@;
                        let mut es = rest;
                        es.insert(0, j0);
                        proof {
                            assert(es@ =~= seq![j0] + restv);
                            assert(es@[0] == j0);
                            assert(es@.drop_first() =~= restv);
                            assert(jview_seq(es@) == seq![jview(j0)] + jview_seq(restv));
                            lemma_jview_seq(es@);
                            assert(jview_seq(es@).len() >= 2);
                            assert(jview_seq(es@).drop_first() =~= jview_seq(restv));
                            assert(ser_elems(jview_seq(es@)) == ser_json(jview(j0)) + seq![',']
                                + ser_elems(jview_seq(restv)));
                            assert(s@.subrange(i as int, k1 as int) =~= s@.subrange(i as int,
                                k0 as int) + seq![','] + s@.subrange(k0 + 1, k1 as int));
                            assert(s@.subrange(i as int, k1 as int) == ser_elems(jview_seq(es@)));
                            assert forall|av: Seq<JsonV>, k: int|
                                i <= k < s@.len() && av.len() >= 1 && (forall|d: int|
                                    0 <= d < av.len() ==> wf_json(#[trigger] av[d]))
                                && s@.subrange(i as int, k) == ser_elems(av) && s@[k]
                                == ']' implies jview_seq(es@) == av && k1 == k by {
                                lemma_elems_shape(s@, i as int, k, av);
                                assert(jview_seq(restv) == av.drop_first() && k1 == k);
                                assert(jview_seq(es@) =~= av);
                            }
                        }
                        Some((es, k1))
                    }
                    None => None,
                }
            } else {
                let mut es: Vec<Json> = Vec::new();
                es.push(j0);
                proof {
                    assert(es@ =~= seq![j0]);
                    assert(es@[0] == j0);
                    assert(es@.drop_first() =~= Seq::<Json>::empty());
                    assert(jview_seq(Seq::<Json>::empty()) =~= Seq::<JsonV>::empty());
                    assert(jview_seq(es@) =~= seq![jview(j0)]);
                    assert(ser_elems(jview_seq(es@)) == ser_json(jview(j0)));
                    assert forall|av: Seq<JsonV>, k: int|
                        i <= k < s@.len() && av.len() >= 1 && (forall|d: int|
                            0 <= d < av.len() ==> wf_json(#[trigger] av[d])) && s@.subrange(
                        i as int, k) == ser_elems(av) && s@[k] == ']' implies jview_seq(es@) == av
                        && k0 == k by {
                        lemma_elems_shape(s@, i as int, k, av);
                        assert(jview(j0) == av[0] && k0 == i + ser_json(av[0]).len());
                        if av.len() > 1 {
                            assert(s@[k0 as int] == ',');
                        }
                        assert(av =~= jview_seq(es@));
                    }
                }
                Some((es, k0))
            }
        }
        None => None,
    }
}

/// A non-empty comma-separated member list read from position `i`.
#[verifier::loop_isolation(false)]
#[verifier::rlimit(100)]
fn parse_members(s: &Vec<char>, i: usize) -> (r: Option<(Vec<(String, Json)>, usize)>)
    requires
        i <= s@.len(),
    ensures
        (match r {
            Some(p) => i < p.1 <= s@.len() && p.0.len() >= 1 && (forall|d: int|
                0 <= d < jview_mems(p.0@).len() ==> wf_json(
                (#[trigger] jview_mems(p.0@)[d]).1)) && s@.subrange(i as int, p.1 as int)
                == ser_members(jview_mems(p.0@)),
            None => true,
        }),
        forall|mv: Seq<(Seq<char>, JsonV)>, k: int|
            i <= k < s@.len() && mv.len() >= 1 && (forall|d: int|
                0 <= d < mv.len() ==> wf_json((#[trigger] mv[d]).1)) && s@.subrange(i as int, k)
                == ser_members(mv) && s@[k] == '}'
                ==> (match r {
                Some(p) => jview_mems(p.0@) == mv && p.1 == k,
                None => false,
            }),
    decreases s@.len() - i, 1int,
{
    proof {
        assert forall|mv: Seq<(Seq<char>, JsonV)>, k: int|
            #![trigger ser_members(mv), s@.subrange(i as int, k)]
            i <= k < s@.len() && mv.len() >= 1 && (forall|d: int|
                0 <= d < mv.len() ==> wf_json((#[trigger] mv[d]).1)) && s@.subrange(i as int, k)
                == ser_members(mv) && s@[k] == '}' implies s@.subrange(i as int,
            i + ser_str(mv[0].0).len()) == ser_str(mv[0].0) && i + ser_str(mv[0].0).len() < k
            && s@[i + ser_str(mv[0].0).len()] == ':' by {
            lemma_members_shape(s@, i as int, k, mv);
        }
    }
    match parse_string(s, i) {
        None => None,
        Some((key, kc)) => {
            if !(kc < s.len()) {
                return None;
            }
            if s[kc] != ':' {
                proof {
                    assert forall|mv: Seq<(Seq<char>, JsonV)>, k: int|
                        i <= k < s@.len() && mv.len() >= 1 && (forall|d: int|
                            0 <= d < mv.len() ==> wf_json((#[trigger] mv[d]).1)) && s@.subrange(
                        i as int, k) == ser_members(mv) && s@[k] == '}' implies false by {
                        assert(key@ == mv[0].0 && kc == i + ser_str(mv[0].0).len());
                    }
                }
                return None;
            }
            proof {
                assert forall|mv: Seq<(Seq<char>, JsonV)>, k: int|
                    i <= k < s@.len() && mv.len() >= 1 && (forall|d: int|
                        0 <= d < mv.len() ==> wf_json((#[trigger] mv[d]).1)) && s@.subrange(
                    i as int, k) == ser_members(mv) && s@[k] == '}' implies text_of(s@, kc + 1,
                    kc + 1 + ser_json(mv[0].1).len(), mv[0].1) && delim_ok(s@,
                    kc + 1 + ser_json(mv[0].1).len()) by {
                    lemma_members_shape(s@, i as int, k, mv);
                    assert(key@ == mv[0].0 && kc == i + ser_str(mv[0].0).len());
                }
            }
            match parse_value(s, kc + 1) {
                None => None,
                Some((v0, k0)) => {
                    if k0 < s.len() && s[k0] == ',' {
                        proof {
                            assert forall|mv: Seq<(Seq<char>, JsonV)>, k: int|
                                i <= k < s@.len() && mv.len() >= 1 && (forall|d: int|
                                    0 <= d < mv.len() ==> wf_json((#[trigger] mv[d]).1))
                                && s@.subrange(i as int, k) == ser_members(mv) && s@[k]
                                == '}' implies mv.len() >= 2 && k0 + 1 <= k < s@.len()
                                && s@.subrange(k0 + 1, k) == ser_members(mv.drop_first())
                                && mv.drop_first().len() >= 1 && (forall|d: int|
                                0 <= d < mv.drop_first().len() ==> wf_json(
                                (#[trigger] mv.drop_first()[d]).1)) by {
                                lemma_members_shape(s@, i as int, k, mv);
                                assert(key@ == mv[0].0 && kc == i + ser_str(mv[0].0).len());
                                assert(jview(v0) == mv[0].1 && k0 == kc + 1 + ser_json(
                                    mv[0].1).len());
                            }
                        }
                        match parse_members(s, k0 + 1) {
                            Some((rest, k1)) => {
                                let ghost restv = rest@;
                                let mut ms = rest;
                                ms.insert(0, (key, v0));
                                proof {
                                    assert(ms@ =~= seq![(key, v0)] + restv);
                                    assert(ms@[0] == (key, v0));
                                    assert(ms@.drop_first() =~= restv);
                                    assert(jview_mems(ms@) == seq![(key@, jview(v0))]
                                        + jview_mems(restv));
                                    lemma_jview_mems(ms@);
                                    assert(jview_mems(ms@).len() >= 2);
                                    assert(jview_mems(ms@).drop_first() =~= jview_mems(restv));
                                    assert(ser_members(jview_mems(ms@)) == ser_str(key@)
                                        + seq![':'] + ser_json(jview(v0)) + seq![',']
                                        + ser_members(jview_mems(restv)));
                                    assert(s@.subrange(i as int, k1 as int) =~= s@.subrange(
                                        i as int, kc as int) + seq![':'] + s@.subrange(kc + 1,
                                        k0 as int) + seq![','] + s@.subrange(k0 + 1, k1 as int));
                                    assert(s@.subrange(i as int, k1 as int) == ser_members(
                                        jview_mems(ms@)));
                                    assert forall|mv: Seq<(Seq<char>, JsonV)>, k: int|
                                        i <= k < s@.len() && mv.len() >= 1 && (forall|d: int|
                                            0 <= d < mv.len() ==> wf_json((#[trigger] mv[d]).1))
                                        && s@.subrange(i as int, k) == ser_members(mv) && s@[k]
                                        == '}' implies jview_mems(ms@) == mv && k1 == k by {
                                        lemma_members_shape(s@, i as int, k, mv);
                                        assert(key@ == mv[0].0 && kc == i + ser_str(
                                            mv[0].0).len());
                                        assert(jview(v0) == mv[0].1 && k0 == kc + 1 + ser_json(
                                            mv[0].1).len());
                                        assert(jview_mems(restv) == mv.drop_first() && k1 == k);
                                        assert(jview_mems(ms@) =~= mv);
                                    }
                                }
                                Some((ms, k1))
                            }
                            None => None,
                        }
                    } else {
                        let mut ms: Vec<(String, Json)> = Vec::new();
                        ms.push((key, v0));
                        proof {
                            assert(ms@ =~= seq![(key, v0)]);
                            assert(ms@[0] == (key, v0));
                            assert(ms@.drop_first() =~= Seq::<(String, Json)>::empty());
                            assert(jview_mems(Seq::<(String, Json)>::empty()) =~= Seq::<(
                            Seq<char>, JsonV)>::empty());
                            assert(jview_mems(ms@) =~= seq![(key@, jview(v0))]);
                            assert(ser_members(jview_mems(ms@)) == ser_str(key@) + seq![':']
                                + ser_json(jview(v0)));
                            assert(s@.subrange(i as int, k0 as int) =~= s@.subrange(i as int,
                                kc as int) + seq![':'] + s@.subrange(kc + 1, k0 as int));
                            assert(s@.subrange(i as int, k0 as int) == ser_members(jview_mems(
                                ms@)));
                            assert forall|mv: Seq<(Seq<char>, JsonV)>, k: int|
                                i <= k < s@.len() && mv.len() >= 1 && (forall|d: int|
                                    0 <= d < mv.len() ==> wf_json((#[trigger] mv[d]).1))
                                && s@.subrange(i as int, k) == ser_members(mv) && s@[k]
                                == '}' implies jview_mems(ms@) == mv && k0 == k by {
                                lemma_members_shape(s@, i as int, k, mv);
                                assert(key@ == mv[0].0 && kc == i + ser_str(mv[0].0).len());
                                assert(jview(v0) == mv[0].1 && k0 == kc + 1 + ser_json(
                                    mv[0].1).len());
                                if mv.len() > 1 {
                                    assert(s@[k0 as int] == ',');
                                }
                                assert(mv =~= jview_mems(ms@));
                            }
                        }
                        Some((ms, k0))
                    }
                }
            }
        }
    }
}

/// A whole document read from canonical text: the unique well-formed value
/// whose canonical form is exactly the input, if there is one.
pub fn parse_json_chars(s: &Vec<char>) -> (r: Option<Json>)
    ensures
        (match r {
            Some(j) => wf_json(jview(j)) && s@ == ser_json(jview(j)),
            None => true,
        }),
        forall|jv: JsonV| wf_json(jv) && s@ == ser_json(jv)
            ==> (match r {
                Some(j) => jview(j) == jv,
                None => false,
            }),
{
    proof {
        assert forall|jv: JsonV| wf_json(jv) && s@ == ser_json(jv) implies text_of(s@, 0,
            s@.len() as int, jv) && delim_ok(s@, s@.len() as int) by {
            assert(s@.subrange(0, s@.len() as int) =~= s@);
        }
    }
    match parse_value(s, 0) {
        Some((j, k)) => {
            if k == s.len() {
                proof {
                    assert(s@.subrange(0, s@.len() as int) =~= s@);
                }
                Some(j)
            } else {
                proof {
                    assert forall|jv: JsonV| wf_json(jv) && s@ == ser_json(jv) implies false by {
                        assert(jview(j) == jv && k == s@.len());
                    }
                }
                None
            }
        }
        None => None,
    }
}

/// Equality of a string and a string slice, by their characters.
pub fn string_eq_str(a: &String, b: &str) -> (r: bool)
    ensures
        r == (a@ == b@),
{
    *a == b.to_owned()
}

/// The first value stored under `name`, scanning members in order.
pub open spec fn obj_lookup(mv: Seq<(Seq<char>, JsonV)>, name: Seq<char>) -> Option<JsonV>
    decreases mv.len(),
{
    if mv.len() == 0 {
        None
    } else if mv[0].0 == name {
        Some(mv[0].1)
    } else {
        obj_lookup(mv.drop_first(), name)
    }
}

/// Looking a member up ignores a skipped prefix without the key.
proof fn lemma_obj_lookup_skip(mv: Seq<(Seq<char>, JsonV)>, name: Seq<char>, i: int)
    requires
        0 <= i < mv.len(),
        mv[i].0 != name,
        obj_lookup(mv, name) == obj_lookup(mv.skip(i), name),
    ensures
        obj_lookup(mv, name) == obj_lookup(mv.skip(i + 1), name),
{
    assert(mv.skip(i).len() == mv.len() - i);
    assert(mv.skip(i)[0] == mv[i]);
    assert(mv.skip(i).drop_first() =~= mv.skip(i + 1));
}

/// The value stored under `name` in an object's member list, if any.
#[verifier::loop_isolation(false)]
pub fn obj_get<'a>(ms: &'a Vec<(String, Json)>, name: &str) -> (r: Option<&'a Json>)
    ensures
        (match r {
            Some(j) => obj_lookup(jview_mems(ms@), name@) == Some(jview(*j)),
            None => obj_lookup(jview_mems(ms@), name@) is None,
        }),
{
    let ghost m = jview_mems(ms@);
    proof {
        lemma_jview_mems(ms@);
        assert(m.skip(0) =~= m);
    }
    let mut i: usize = 0;
    while i < ms.len()
        invariant
            i <= ms@.len(),
            obj_lookup(m, name@) == obj_lookup(m.skip(i as int), name@),
        decreases ms@.len() - i,
    {
        if string_eq_str(&ms[i].0, name) {
            proof {
                assert(m.skip(i as int)[0] == m[i as int]);
            }
            return Some(&ms[i].1);
        }
        proof {
            lemma_obj_lookup_skip(m, name@, i as int);
        }
        i = i + 1;
    }
    proof {
        assert(m.skip(ms@.len() as int) =~= Seq::<(Seq<char>, JsonV)>::empty());
    }
    None
}

/// A document parsed back from canonical text.
pub fn from_json_text(s: &str) -> (r: Option<Json>)
    ensures
        (match r {
            Some(j) => wf_json(jview(j)) && s@ == ser_json(jview(j)),
            None => true,
        }),
        forall|jv: JsonV| wf_json(jv) && s@ == ser_json(jv)
            ==> (match r {
                Some(j) => jview(j) == jv,
                None => false,
            }),
{
    let cs = str_to_chars(s);
    parse_json_chars(&cs)
}

/// The canonical text of a document.
pub fn to_json_text(j: &Json) -> (r: String)
    ensures
        r@ == ser_json(jview(*j)),
{
    let mut out: Vec<char> = Vec::new();
    write_json(j, &mut out);
    string_from_chars(&out)
}

} // verus!
