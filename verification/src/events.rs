//! The canonical stream event schema.
//!
//! Every agent backend is normalized into this one discriminated union, and
//! the UI boundary receives each event as one self-contained JSON record.
//! The writer and the reader of that record are both here, verified to be
//! mutually inverse: an event written to the wire is read back unchanged.

use crate::json::{from_json_text, jview, jview_mems, jview_seq, lemma_jview_mems,
    lemma_jview_seq, obj_get, obj_lookup, ser_json, string_eq_str, to_json_text, wf_json, Json,
    JsonV};
use vstd::prelude::*;

verus! {

/// A canonical stream event.  `System` carries free-form extra fields (the
/// backend-assigned session id travels in there), `Assistant` carries the
/// backend's message document, tool events name the tool, and
/// `SessionEnd` closes every session exactly once.
#[derive(Debug, PartialEq, Eq)]
pub enum StreamEvent {
    System { subtype: String, extra: Vec<(String, Json)> },
    Assistant { message: Json },
    ToolStart { tool_name: String, input: Json },
    ToolEnd { tool_name: String, output: Option<String> },
    Error { message: String },
    SessionEnd,
}

/// Mathematical model of a canonical event.
#[verifier::ext_equal]
pub enum EventV {
    System { subtype: Seq<char>, extra: Seq<(Seq<char>, JsonV)> },
    Assistant { message: JsonV },
    ToolStart { tool_name: Seq<char>, input: JsonV },
    ToolEnd { tool_name: Seq<char>, output: Option<Seq<char>> },
    Error { error_text: Seq<char> },
    SessionEnd,
}

/// Model of an event.
pub open spec fn eview(e: StreamEvent) -> EventV {
    match e {
        StreamEvent::System { subtype, extra } => EventV::System {
            subtype: subtype@,
            extra: jview_mems(extra@),
        },
        StreamEvent::Assistant { message } => EventV::Assistant { message: jview(message) },
        StreamEvent::ToolStart { tool_name, input } => EventV::ToolStart {
            tool_name: tool_name@,
            input: jview(input),
        },
        StreamEvent::ToolEnd { tool_name, output } => EventV::ToolEnd {
            tool_name: tool_name@,
            output: match output {
                Some(s) => Some(s@),
                None => None,
            },
        },
        StreamEvent::Error { message } => EventV::Error { error_text: message@ },
        StreamEvent::SessionEnd => EventV::SessionEnd,
    }
}

impl View for StreamEvent {
    type V = EventV;

    open spec fn view(&self) -> EventV {
        eview(*self)
    }
}

/// Well-formed events: every document they carry is well formed.
pub open spec fn wf_event(ev: EventV) -> bool {
    match ev {
        EventV::System { extra, .. } => forall|i: int|
            0 <= i < extra.len() ==> wf_json((#[trigger] extra[i]).1),
        EventV::Assistant { message } => wf_json(message),
        EventV::ToolStart { input, .. } => wf_json(input),
        EventV::ToolEnd { .. } => true,
        EventV::Error { .. } => true,
        EventV::SessionEnd => true,
    }
}

/// The wire record of an event, as a document: an object whose `type`
/// member names the variant and whose remaining members carry the payload,
/// in this fixed order.
pub open spec fn event_json(ev: EventV) -> JsonV {
    match ev {
        EventV::System { subtype, extra } => JsonV::Obj(
            seq![
                ("type"@, JsonV::Str("system"@)),
                ("subtype"@, JsonV::Str(subtype)),
                ("extra"@, JsonV::Obj(extra)),
            ],
        ),
        EventV::Assistant { message } => JsonV::Obj(
            seq![("type"@, JsonV::Str("assistant"@)), ("message"@, message)],
        ),
        EventV::ToolStart { tool_name, input } => JsonV::Obj(
            seq![
                ("type"@, JsonV::Str("tool_start"@)),
                ("tool_name"@, JsonV::Str(tool_name)),
                ("input"@, input),
            ],
        ),
        EventV::ToolEnd { tool_name, output } => JsonV::Obj(
            seq![
                ("type"@, JsonV::Str("tool_end"@)),
                ("tool_name"@, JsonV::Str(tool_name)),
                ("output"@, output_json(output)),
            ],
        ),
        EventV::Error { error_text } => JsonV::Obj(
            seq![("type"@, JsonV::Str("error"@)), ("message"@, JsonV::Str(error_text))],
        ),
        EventV::SessionEnd => JsonV::Obj(seq![("type"@, JsonV::Str("session_end"@))]),
    }
}

/// The document that an optional tool output becomes.
pub open spec fn output_json(output: Option<Seq<char>>) -> JsonV {
    match output {
        Some(s) => JsonV::Str(s),
        None => JsonV::Null,
    }
}

/// The event a document denotes, if any: the flat schema read by the pipe
/// normalizer and by the wire-record reader.  Unknown `type` values, a
/// missing or non-string `type`, and non-object documents denote nothing.
/// A missing `subtype`, `tool_name` or `message` text defaults to empty, a
/// missing `extra` to no fields, a missing payload document to null, and a
/// missing or non-string `output` to no output.
pub open spec fn event_of_json(jv: JsonV) -> Option<EventV> {
    match jv {
        JsonV::Obj(mv) => match obj_lookup(mv, "type"@) {
            Some(JsonV::Str(t)) => if t == "system"@ {
                Some(
                    EventV::System {
                        subtype: str_or_empty(mv, "subtype"@),
                        extra: match obj_lookup(mv, "extra"@) {
                            Some(JsonV::Obj(em)) => em,
                            _ => Seq::empty(),
                        },
                    },
                )
            } else if t == "assistant"@ {
                Some(EventV::Assistant { message: json_or_null(mv, "message"@) })
            } else if t == "tool_start"@ {
                Some(
                    EventV::ToolStart {
                        tool_name: str_or_empty(mv, "tool_name"@),
                        input: json_or_null(mv, "input"@),
                    },
                )
            } else if t == "tool_end"@ {
                Some(
                    EventV::ToolEnd {
                        tool_name: str_or_empty(mv, "tool_name"@),
                        output: match obj_lookup(mv, "output"@) {
                            Some(JsonV::Str(s)) => Some(s),
                            _ => None,
                        },
                    },
                )
            } else if t == "error"@ {
                Some(EventV::Error { error_text: str_or_empty(mv, "message"@) })
            } else if t == "session_end"@ {
                Some(EventV::SessionEnd)
            } else {
                None
            },
            _ => None,
        },
        _ => None,
    }
}

/// A string member's text, or empty when absent or not a string.
pub open spec fn str_or_empty(mv: Seq<(Seq<char>, JsonV)>, name: Seq<char>) -> Seq<char> {
    match obj_lookup(mv, name) {
        Some(JsonV::Str(s)) => s,
        _ => Seq::empty(),
    }
}

/// A member's document, or null when absent.
pub open spec fn json_or_null(mv: Seq<(Seq<char>, JsonV)>, name: Seq<char>) -> JsonV {
    match obj_lookup(mv, name) {
        Some(v) => v,
        None => JsonV::Null,
    }
}

/// A copy of a document, equal in the model.
#[verifier::loop_isolation(false)]
#[verifier::rlimit(60)]
pub fn json_clone(j: &Json) -> (r: Json)
    ensures
        jview(r) == jview(*j),
    decreases *j,
{
    match j {
        Json::Null => Json::Null,
        Json::Bool(b) => Json::Bool(*b),
        Json::Num(s) => Json::Num(s.clone()),
        Json::Str(s) => Json::Str(s.clone()),
        Json::Arr(v) => {
            let mut out: Vec<Json> = Vec::new();
            let mut k: usize = 0;
            proof {
                lemma_jview_seq(v@);
            }
            while k < v.len()
                invariant
                    k <= v@.len(),
                    out@.len() == k,
                    jview_seq(out@) =~= jview_seq(v@).take(k as int),
                decreases v@.len() - k,
            {
                proof {
                    broadcast use vstd::std_specs::vec::axiom_vec_index_decreases;

                    assert(decreases_to!(*j => (*j)->Arr_0));
                    assert(*v == (*j)->Arr_0);
                    assert(decreases_to!(*v => v@[k as int]));
                    assert(decreases_to!(*j => v@[k as int]));
                }
                let c = json_clone(&v[k]);
                let ghost outp = out@;
                out.push(c);
                proof {
                    lemma_jview_seq(out@);
                    lemma_jview_seq(outp);
                    assert(out@.drop_last() =~= outp);
                    assert(jview_seq(out@) =~= jview_seq(v@).take(k + 1 as int));
                }
                k = k + 1;
            }
            proof {
                assert(jview_seq(v@).take(v@.len() as int) =~= jview_seq(v@));
            }
            Json::Arr(out)
        }
        Json::Obj(v) => {
            let mut out: Vec<(String, Json)> = Vec::new();
            let mut k: usize = 0;
            proof {
                lemma_jview_mems(v@);
            }
            while k < v.len()
                invariant
                    k <= v@.len(),
                    out@.len() == k,
                    jview_mems(out@) =~= jview_mems(v@).take(k as int),
                decreases v@.len() - k,
            {
                proof {
                    broadcast use vstd::std_specs::vec::axiom_vec_index_decreases;

                    assert(decreases_to!(*j => (*j)->Obj_0));
                    assert(*v == (*j)->Obj_0);
                    assert(decreases_to!(*v => v@[k as int]));
                    assert(decreases_to!(v@[k as int] => v@[k as int].1));
                    assert(decreases_to!(*j => v@[k as int].1));
                }
                let c = json_clone(&v[k].1);
                let key = v[k].0.clone();
                let ghost outp = out@;
                out.push((key, c));
                proof {
                    lemma_jview_mems(out@);
                    lemma_jview_mems(outp);
                    assert(out@.drop_last() =~= outp);
                    assert(jview_mems(out@) =~= jview_mems(v@).take(k + 1 as int));
                }
                k = k + 1;
            }
            proof {
                assert(jview_mems(v@).take(v@.len() as int) =~= jview_mems(v@));
            }
            Json::Obj(out)
        }
    }
}

/// The wire record of an event, as a document.
#[verifier::loop_isolation(false)]
#[verifier::rlimit(60)]
pub fn event_to_json(e: &StreamEvent) -> (r: Json)
    ensures
        jview(r) == event_json(e@),
{
    match e {
        StreamEvent::System { subtype, extra } => {
            let mut ms: Vec<(String, Json)> = Vec::new();
            ms.push(("type".to_owned(), Json::Str("system".to_owned())));
            let mut em: Vec<(String, Json)> = Vec::new();
            let mut k: usize = 0;
            proof {
                lemma_jview_mems(extra@);
            }
            while k < extra.len()
                invariant
                    k <= extra@.len(),
                    em@.len() == k,
                    jview_mems(em@) =~= jview_mems(extra@).take(k as int),
                decreases extra@.len() - k,
            {
                let key = extra[k].0.clone();
                let val = json_clone(&extra[k].1);
                let ghost emp = em@;
                em.push((key, val));
                proof {
                    lemma_jview_mems(em@);
                    lemma_jview_mems(emp);
                    lemma_jview_mems(extra@);
                    assert(em@.drop_last() =~= emp);
                    assert(jview_mems(em@) =~= jview_mems(extra@).take(k + 1 as int));
                }
                k = k + 1;
            }
            proof {
                assert(jview_mems(extra@).take(extra@.len() as int) =~= jview_mems(extra@));
            }
            ms.push(("subtype".to_owned(), Json::Str(subtype.clone())));
            ms.push(("extra".to_owned(), Json::Obj(em)));
            proof {
                lemma_jview_mems(ms@);
                assert(jview_mems(ms@) =~= seq![
                    ("type"@, JsonV::Str("system"@)),
                    ("subtype"@, JsonV::Str(subtype@)),
                    ("extra"@, JsonV::Obj(jview_mems(extra@))),
                ]);
            }
            let result = Json::Obj(ms);
            proof {
                assert(jview(result) =~~= event_json(e@));
            }
            result
        }
        StreamEvent::Assistant { message } => {
            let mut ms: Vec<(String, Json)> = Vec::new();
            ms.push(("type".to_owned(), Json::Str("assistant".to_owned())));
            ms.push(("message".to_owned(), json_clone(message)));
            proof {
                lemma_jview_mems(ms@);
                assert(jview_mems(ms@) =~= seq![
                    ("type"@, JsonV::Str("assistant"@)),
                    ("message"@, jview(*message)),
                ]);
                assert(jview(Json::Obj(ms)) =~~= event_json(e@));
            }
            Json::Obj(ms)
        }
        StreamEvent::ToolStart { tool_name, input } => {
            let mut ms: Vec<(String, Json)> = Vec::new();
            ms.push(("type".to_owned(), Json::Str("tool_start".to_owned())));
            ms.push(("tool_name".to_owned(), Json::Str(tool_name.clone())));
            ms.push(("input".to_owned(), json_clone(input)));
            proof {
                lemma_jview_mems(ms@);
                assert(jview_mems(ms@) =~= seq![
                    ("type"@, JsonV::Str("tool_start"@)),
                    ("tool_name"@, JsonV::Str(tool_name@)),
                    ("input"@, jview(*input)),
                ]);
                assert(jview(Json::Obj(ms)) =~~= event_json(e@));
            }
            Json::Obj(ms)
        }
        StreamEvent::ToolEnd { tool_name, output } => {
            let mut ms: Vec<(String, Json)> = Vec::new();
            ms.push(("type".to_owned(), Json::Str("tool_end".to_owned())));
            ms.push(("tool_name".to_owned(), Json::Str(tool_name.clone())));
            let out_json = match output {
                Some(s) => Json::Str(s.clone()),
                None => Json::Null,
            };
            ms.push(("output".to_owned(), out_json));
            proof {
                lemma_jview_mems(ms@);
                assert(jview_mems(ms@) =~= seq![
                    ("type"@, JsonV::Str("tool_end"@)),
                    ("tool_name"@, JsonV::Str(tool_name@)),
                    (
                        "output"@,
                        match output {
                            Some(s) => JsonV::Str(s@),
                            None => JsonV::Null,
                        },
                    ),
                ]);
                match output {
                    Some(s) => {
                        assert(eview(*e)->ToolEnd_output == Some(s@));
                        assert(jview_mems(ms@) =~= seq![
                            ("type"@, JsonV::Str("tool_end"@)),
                            ("tool_name"@, JsonV::Str(tool_name@)),
                            ("output"@, JsonV::Str(s@)),
                        ]);
                        assert(event_json(EventV::ToolEnd { tool_name: tool_name@, output: Some(
                            s@) }) =~~= JsonV::Obj(seq![
                            ("type"@, JsonV::Str("tool_end"@)),
                            ("tool_name"@, JsonV::Str(tool_name@)),
                            ("output"@, JsonV::Str(s@)),
                        ]));
                        assert(e@ == (EventV::ToolEnd { tool_name: tool_name@, output: Some(
                            s@) }));
                        assert(jview(Json::Obj(ms)) =~~= event_json(e@));
                    }
                    None => {
                        assert(eview(*e)->ToolEnd_output == None::<Seq<char>>);
                        assert(event_json(EventV::ToolEnd { tool_name: tool_name@, output: None })
                            =~~= JsonV::Obj(seq![
                            ("type"@, JsonV::Str("tool_end"@)),
                            ("tool_name"@, JsonV::Str(tool_name@)),
                            ("output"@, JsonV::Null),
                        ]));
                        assert(e@ == (EventV::ToolEnd { tool_name: tool_name@, output: None }));
                        assert(jview(Json::Obj(ms)) == JsonV::Obj(jview_mems(ms@)));
                        assert(jview_mems(ms@) =~= seq![
                            ("type"@, JsonV::Str("tool_end"@)),
                            ("tool_name"@, JsonV::Str(tool_name@)),
                            ("output"@, JsonV::Null),
                        ]);
                        assert(event_json(e@) =~~= JsonV::Obj(seq![
                            ("type"@, JsonV::Str("tool_end"@)),
                            ("tool_name"@, JsonV::Str(tool_name@)),
                            ("output"@, JsonV::Null),
                        ]));
                        assert(jview(Json::Obj(ms)) =~~= event_json(e@));
                    }
                }
            }
            Json::Obj(ms)
        }
        StreamEvent::Error { message } => {
            let mut ms: Vec<(String, Json)> = Vec::new();
            ms.push(("type".to_owned(), Json::Str("error".to_owned())));
            ms.push(("message".to_owned(), Json::Str(message.clone())));
            proof {
                lemma_jview_mems(ms@);
                assert(jview_mems(ms@) =~= seq![
                    ("type"@, JsonV::Str("error"@)),
                    ("message"@, JsonV::Str(message@)),
                ]);
                assert(jview(Json::Obj(ms)) =~~= event_json(e@));
            }
            Json::Obj(ms)
        }
        StreamEvent::SessionEnd => {
            let mut ms: Vec<(String, Json)> = Vec::new();
            ms.push(("type".to_owned(), Json::Str("session_end".to_owned())));
            proof {
                lemma_jview_mems(ms@);
                assert(jview_mems(ms@) =~= seq![("type"@, JsonV::Str("session_end"@))]);
                assert(jview(Json::Obj(ms)) =~~= event_json(e@));
            }
            Json::Obj(ms)
        }
    }
}

/// A copy of an object's member list, equal in the model.
#[verifier::loop_isolation(false)]
pub fn clone_members(v: &Vec<(String, Json)>) -> (r: Vec<(String, Json)>)
    ensures
        jview_mems(r@) == jview_mems(v@),
{
    let mut out: Vec<(String, Json)> = Vec::new();
    let mut k: usize = 0;
    proof {
        lemma_jview_mems(v@);
    }
    while k < v.len()
        invariant
            k <= v@.len(),
            out@.len() == k,
            jview_mems(out@) =~= jview_mems(v@).take(k as int),
        decreases v@.len() - k,
    {
        let key = v[k].0.clone();
        let val = json_clone(&v[k].1);
        let ghost outp = out@;
        out.push((key, val));
        proof {
            lemma_jview_mems(out@);
            lemma_jview_mems(outp);
            assert(out@.drop_last() =~= outp);
            assert(jview_mems(out@) =~= jview_mems(v@).take(k + 1 as int));
        }
        k = k + 1;
    }
    proof {
        assert(jview_mems(v@).take(v@.len() as int) =~= jview_mems(v@));
    }
    out
}

/// A string member's text, or empty when absent or not a string.
pub fn get_str_or_empty(ms: &Vec<(String, Json)>, name: &str) -> (r: String)
    ensures
        r@ == str_or_empty(jview_mems(ms@), name@),
{
    match obj_get(ms, name) {
        Some(Json::Str(s)) => s.clone(),
        _ => String::new(),
    }
}

/// A member's document, or null when absent.
pub fn get_json_or_null(ms: &Vec<(String, Json)>, name: &str) -> (r: Json)
    ensures
        jview(r) == json_or_null(jview_mems(ms@), name@),
{
    match obj_get(ms, name) {
        Some(v) => json_clone(v),
        None => Json::Null,
    }
}

/// The event a document denotes, exactly as [`event_of_json`] says.
pub fn json_to_event(j: &Json) -> (r: Option<StreamEvent>)
    ensures
        (match r {
            Some(e) => event_of_json(jview(*j)) == Some(e@),
            None => event_of_json(jview(*j)) is None,
        }),
{
    match j {
        Json::Obj(ms) => {
            match obj_get(ms, "type") {
                Some(Json::Str(t)) => {
                    if string_eq_str(t, "system") {
                        let subtype = get_str_or_empty(ms, "subtype");
                        let extra = match obj_get(ms, "extra") {
                            Some(Json::Obj(em)) => clone_members(em),
                            _ => Vec::new(),
                        };
                        proof {
                            assert(jview_mems(Seq::<(String, Json)>::empty()) =~= Seq::<(
                            Seq<char>, JsonV)>::empty());
                        }
                        Some(StreamEvent::System { subtype, extra })
                    } else if string_eq_str(t, "assistant") {
                        Some(StreamEvent::Assistant { message: get_json_or_null(ms, "message") })
                    } else if string_eq_str(t, "tool_start") {
                        Some(
                            StreamEvent::ToolStart {
                                tool_name: get_str_or_empty(ms, "tool_name"),
                                input: get_json_or_null(ms, "input"),
                            },
                        )
                    } else if string_eq_str(t, "tool_end") {
                        let output = match obj_get(ms, "output") {
                            Some(Json::Str(s)) => Some(s.clone()),
                            _ => None,
                        };
                        Some(
                            StreamEvent::ToolEnd {
                                tool_name: get_str_or_empty(ms, "tool_name"),
                                output,
                            },
                        )
                    } else if string_eq_str(t, "error") {
                        Some(StreamEvent::Error { message: get_str_or_empty(ms, "message") })
                    } else if string_eq_str(t, "session_end") {
                        Some(StreamEvent::SessionEnd)
                    } else {
                        None
                    }
                }
                _ => None,
            }
        }
        _ => None,
    }
}

/// The wire record of an event: one self-contained JSON text.
pub fn serialize_event(e: &StreamEvent) -> (r: String)
    ensures
        r@ == ser_json(event_json(e@)),
{
    let j = event_to_json(e);
    to_json_text(&j)
}

/// The event a wire record holds.  The second clause is the reading half
/// of the round trip: a record written by [`serialize_event`] (whose text
/// is the canonical form of its event's document) is read back to exactly
/// the event that [`event_of_json`] assigns to that document.
pub fn deserialize_event(s: &str) -> (r: Option<StreamEvent>)
    ensures
        (match r {
            Some(e) => exists|jv: JsonV| wf_json(jv) && s@ == ser_json(jv) && event_of_json(jv)
                == Some(e@),
            None => true,
        }),
        forall|jv: JsonV| wf_json(jv) && s@ == ser_json(jv)
            ==> (match r {
                Some(e) => event_of_json(jv) == Some(e@),
                None => event_of_json(jv) is None,
            }),
{
    match from_json_text(s) {
        Some(j) => {
            let r = json_to_event(&j);
            proof {
                if r is Some {
                    assert(wf_json(jview(j)) && s@ == ser_json(jview(j)) && event_of_json(jview(
                        j)) == Some(r->0@));
                }
            }
            r
        }
        None => None,
    }
}

/// Member lookup in a one-member object.
proof fn lemma_lookup1(mv: Seq<(Seq<char>, JsonV)>, k0: Seq<char>, v0: JsonV)
    requires
        mv == seq![(k0, v0)],
    ensures
        obj_lookup(mv, k0) == Some(v0),
{
}

/// Member lookup in a two-member object with distinct keys.
proof fn lemma_lookup2(
    mv: Seq<(Seq<char>, JsonV)>,
    k0: Seq<char>,
    v0: JsonV,
    k1: Seq<char>,
    v1: JsonV,
)
    requires
        mv == seq![(k0, v0), (k1, v1)],
        k0 != k1,
    ensures
        obj_lookup(mv, k0) == Some(v0),
        obj_lookup(mv, k1) == Some(v1),
{
    assert(mv.drop_first() =~= seq![(k1, v1)]);
    lemma_lookup1(mv.drop_first(), k1, v1);
}

/// Member lookup in a three-member object with distinct keys.
proof fn lemma_lookup3(
    mv: Seq<(Seq<char>, JsonV)>,
    k0: Seq<char>,
    v0: JsonV,
    k1: Seq<char>,
    v1: JsonV,
    k2: Seq<char>,
    v2: JsonV,
)
    requires
        mv == seq![(k0, v0), (k1, v1), (k2, v2)],
        k0 != k1,
        k0 != k2,
        k1 != k2,
    ensures
        obj_lookup(mv, k0) == Some(v0),
        obj_lookup(mv, k1) == Some(v1),
        obj_lookup(mv, k2) == Some(v2),
{
    assert(mv.drop_first() =~= seq![(k1, v1), (k2, v2)]);
    lemma_lookup2(mv.drop_first(), k1, v1, k2, v2);
}

/// Every canonical event survives the UI wire format: the document written
/// for a well-formed event is itself well formed, and reading it back with
/// [`event_of_json`] yields the same event.  Together with the writer's
/// and reader's contracts this makes serialization followed by
/// deserialization the identity on events.
pub proof fn lemma_event_round_trip(ev: EventV)
    requires
        wf_event(ev),
    ensures
        wf_json(event_json(ev)),
        event_of_json(event_json(ev)) == Some(ev),
{
    reveal_strlit("type");
    reveal_strlit("subtype");
    reveal_strlit("extra");
    reveal_strlit("message");
    reveal_strlit("tool_name");
    reveal_strlit("input");
    reveal_strlit("output");
    reveal_strlit("system");
    reveal_strlit("assistant");
    reveal_strlit("tool_start");
    reveal_strlit("tool_end");
    reveal_strlit("error");
    reveal_strlit("session_end");
    assert("type"@.len() == 4);
    assert("subtype"@.len() == 7);
    assert("extra"@.len() == 5);
    assert("message"@.len() == 7);
    assert("tool_name"@.len() == 9);
    assert("input"@.len() == 5);
    assert("output"@.len() == 6);
    assert("system"@.len() == 6);
    assert("assistant"@.len() == 9);
    assert("tool_start"@.len() == 10);
    assert("tool_end"@.len() == 8);
    assert("error"@.len() == 5);
    assert("session_end"@.len() == 11);
    match ev {
        EventV::System { subtype, extra } => {
            lemma_lookup3(event_json(ev)->Obj_0, "type"@, JsonV::Str("system"@), "subtype"@,
                JsonV::Str(subtype), "extra"@, JsonV::Obj(extra));
            assert(event_of_json(event_json(ev)) =~~= Some(ev));
            assert(wf_json(event_json(ev))) by {
                assert forall|d: int| 0 <= d < event_json(ev)->Obj_0.len() implies wf_json(
                    (#[trigger] event_json(ev)->Obj_0[d]).1) by {
                }
            }
        }
        EventV::Assistant { message } => {
            lemma_lookup2(event_json(ev)->Obj_0, "type"@, JsonV::Str("assistant"@), "message"@,
                message);
            assert(event_of_json(event_json(ev)) =~~= Some(ev));
            assert(wf_json(event_json(ev))) by {
                assert forall|d: int| 0 <= d < event_json(ev)->Obj_0.len() implies wf_json(
                    (#[trigger] event_json(ev)->Obj_0[d]).1) by {
                }
            }
        }
        EventV::ToolStart { tool_name, input } => {
            lemma_lookup3(event_json(ev)->Obj_0, "type"@, JsonV::Str("tool_start"@),
                "tool_name"@, JsonV::Str(tool_name), "input"@, input);
            assert(event_of_json(event_json(ev)) =~~= Some(ev));
            assert(wf_json(event_json(ev))) by {
                assert forall|d: int| 0 <= d < event_json(ev)->Obj_0.len() implies wf_json(
                    (#[trigger] event_json(ev)->Obj_0[d]).1) by {
                }
            }
        }
        EventV::ToolEnd { tool_name, output } => {
            lemma_lookup3(event_json(ev)->Obj_0, "type"@, JsonV::Str("tool_end"@), "tool_name"@,
                JsonV::Str(tool_name), "output"@, output_json(output));
            match output {
                Some(s) => {
                    assert(event_of_json(event_json(ev)) =~~= Some(ev));
                }
                None => {
                    assert(event_of_json(event_json(ev)) =~~= Some(ev));
                }
            }
            assert(wf_json(event_json(ev))) by {
                assert forall|d: int| 0 <= d < event_json(ev)->Obj_0.len() implies wf_json(
                    (#[trigger] event_json(ev)->Obj_0[d]).1) by {
                }
            }
        }
        EventV::Error { error_text } => {
            lemma_lookup2(event_json(ev)->Obj_0, "type"@, JsonV::Str("error"@), "message"@,
                JsonV::Str(error_text));
            assert(event_of_json(event_json(ev)) =~~= Some(ev));
            assert(wf_json(event_json(ev))) by {
                assert forall|d: int| 0 <= d < event_json(ev)->Obj_0.len() implies wf_json(
                    (#[trigger] event_json(ev)->Obj_0[d]).1) by {
                }
            }
        }
        EventV::SessionEnd => {
            lemma_lookup1(event_json(ev)->Obj_0, "type"@, JsonV::Str("session_end"@));
            assert(event_of_json(event_json(ev)) =~~= Some(ev));
            assert(wf_json(event_json(ev))) by {
                assert forall|d: int| 0 <= d < event_json(ev)->Obj_0.len() implies wf_json(
                    (#[trigger] event_json(ev)->Obj_0[d]).1) by {
                }
            }
        }
    }
}

} // verus!
