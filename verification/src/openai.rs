//! Chat-proxy support.
//!
//! The streaming HTTP chat proxy itself is an external collaborator: the
//! shell owns the client, the request and the byte stream.  What the
//! stream means is decided here: how one server-sent-event line is
//! classified, how an event record for the UI sink is assembled, which
//! tools the proxy offers, and what a tool call resolves to.

use crate::events::json_clone;
use crate::json::{jview, jview_mems, lemma_jview_mems, obj_get, obj_lookup, string_eq_str, Json,
    JsonV};
use crate::pipe::{json_parse, parse_raw_json, trim_line, trim_spec};
use vstd::prelude::*;

verus! {

/// The default token budget of a proxied chat request.
pub fn default_max_tokens() -> (r: u32)
    ensures
        r == 4096,
{
    4096
}

/// Whether tool calling is offered by default.
pub fn default_enable_tools() -> (r: bool)
    ensures
        r,
{
    true
}

/// What one line of a server-sent-event stream is.
#[derive(Debug, PartialEq, Eq)]
pub enum SseLine {
    /// Blank, or not a data line: skipped.
    Skip,
    /// The end-of-stream marker.
    Done,
    /// One data payload, the `data: ` prefix stripped.
    Data(String),
}

/// The classification of one stream line: after trimming, a line is
/// skipped unless it opens with `data: `; the payload `[DONE]` marks the
/// end of the stream.
pub open spec fn sse_classify(s: Seq<char>) -> SseLineV {
    let t = trim_spec(s);
    if t.len() >= 6 && t.subrange(0, 6) == seq!['d', 'a', 't', 'a', ':', ' '] {
        if t.skip(6) == seq!['[', 'D', 'O', 'N', 'E', ']'] {
            SseLineV::Done
        } else {
            SseLineV::Data(t.skip(6))
        }
    } else {
        SseLineV::Skip
    }
}

/// Model of a classified stream line.
pub enum SseLineV {
    Skip,
    Done,
    Data(Seq<char>),
}

/// Classify one line of the stream, exactly as [`sse_classify`] says.
#[verifier::loop_isolation(false)]
pub fn sse_line(line: &str) -> (r: SseLine)
    ensures
        (match r {
            SseLine::Skip => sse_classify(line@) is Skip,
            SseLine::Done => sse_classify(line@) is Done,
            SseLine::Data(d) => sse_classify(line@) == SseLineV::Data(d@),
        }),
{
    let t = trim_line(line);
    let cs = crate::json::str_to_chars(t.as_str());
    let n = cs.len();
    if !(n >= 6 && cs[0] == 'd' && cs[1] == 'a' && cs[2] == 't' && cs[3] == 'a' && cs[4] == ':'
        && cs[5] == ' ') {
        proof {
            if trim_spec(line@).len() >= 6 {
                assert(trim_spec(line@).subrange(0, 6)[0] == cs@[0]);
                assert(trim_spec(line@).subrange(0, 6)[1] == cs@[1]);
                assert(trim_spec(line@).subrange(0, 6)[2] == cs@[2]);
                assert(trim_spec(line@).subrange(0, 6)[3] == cs@[3]);
                assert(trim_spec(line@).subrange(0, 6)[4] == cs@[4]);
                assert(trim_spec(line@).subrange(0, 6)[5] == cs@[5]);
            }
        }
        return SseLine::Skip;
    }
    proof {
        assert(cs@.subrange(0, 6) =~= seq!['d', 'a', 't', 'a', ':', ' ']);
    }
    let mut data: Vec<char> = Vec::new();
    let mut i: usize = 6;
    while i < n
        invariant
            6 <= i <= n,
            n == cs@.len(),
            data@ == cs@.subrange(6, i as int),
        decreases n - i,
    {
        proof {
            assert(cs@.subrange(6, i + 1 as int) =~= cs@.subrange(6, i as int).push(
                cs@[i as int]));
        }
        data.push(cs[i]);
        i = i + 1;
    }
    proof {
        assert(cs@.subrange(6, n as int) =~= cs@.skip(6));
    }
    let is_done: bool = data.len() == 6 && data[0] == '[' && data[1] == 'D' && data[2] == 'O'
        && data[3] == 'N' && data[4] == 'E' && data[5] == ']';
    if is_done {
        proof {
            assert(cs@.skip(6) =~= seq!['[', 'D', 'O', 'N', 'E', ']']);
        }
        SseLine::Done
    } else {
        proof {
            if cs@.skip(6) == seq!['[', 'D', 'O', 'N', 'E', ']'] {
                assert(data@[0] == '[' && data@[1] == 'D' && data@[2] == 'O' && data@[3] == 'N'
                    && data@[4] == 'E' && data@[5] == ']');
            }
        }
        SseLine::Data(crate::json::string_from_chars(&data))
    }
}

/// The members of a payload object with the record's own keys dropped.
pub open spec fn payload_members(mv: Seq<(Seq<char>, JsonV)>) -> Seq<(Seq<char>, JsonV)>
    decreases mv.len(),
{
    if mv.len() == 0 {
        Seq::empty()
    } else if mv.last().0 == "type"@ || mv.last().0 == "sessionId"@ {
        payload_members(mv.drop_last())
    } else {
        payload_members(mv.drop_last()).push(mv.last())
    }
}

/// The member the payload stores under `k`, or the record's own value
/// when the payload does not name the key.
pub open spec fn override_member(mv: Seq<(Seq<char>, JsonV)>, k: Seq<char>, own: JsonV) -> JsonV {
    match obj_lookup(mv, k) {
        Some(v) => v,
        None => own,
    }
}

/// The record delivered to the UI sink for one proxied chat event: its
/// type, the owning session id, and the payload's remaining fields.  A
/// payload member named `type` or `sessionId` overrides the record's own
/// member of that name.
pub open spec fn event_record_spec(et: Seq<char>, sid: Seq<char>, payload: JsonV) -> JsonV {
    let mv = (match payload {
        JsonV::Obj(m) => m,
        _ => Seq::<(Seq<char>, JsonV)>::empty(),
    });
    JsonV::Obj(
        seq![
            ("type"@, override_member(mv, "type"@, JsonV::Str(et))),
            ("sessionId"@, override_member(mv, "sessionId"@, JsonV::Str(sid))),
        ] + payload_members(mv),
    )
}

/// Assemble the record delivered to the UI sink for one proxied event.
#[verifier::loop_isolation(false)]
pub fn event_record(event_type: &str, session_id: &str, payload: &Json) -> (r: Json)
    ensures
        jview(r) == event_record_spec(event_type@, session_id@, jview(*payload)),
{
    let type_val: Json = match payload {
        Json::Obj(pm) => match obj_get(pm, "type") {
            Some(v) => json_clone(v),
            None => Json::Str(event_type.to_owned()),
        },
        _ => Json::Str(event_type.to_owned()),
    };
    let sid_val: Json = match payload {
        Json::Obj(pm) => match obj_get(pm, "sessionId") {
            Some(v) => json_clone(v),
            None => Json::Str(session_id.to_owned()),
        },
        _ => Json::Str(session_id.to_owned()),
    };
    let ghost pmv = (match jview(*payload) {
        JsonV::Obj(m) => m,
        _ => Seq::<(Seq<char>, JsonV)>::empty(),
    });
    let mut ms: Vec<(String, Json)> = Vec::new();
    ms.push(("type".to_owned(), type_val));
    ms.push(("sessionId".to_owned(), sid_val));
    let ghost base = seq![
        ("type"@, override_member(pmv, "type"@, JsonV::Str(event_type@))),
        ("sessionId"@, override_member(pmv, "sessionId"@, JsonV::Str(session_id@))),
    ];
    proof {
        lemma_jview_mems(ms@);
        assert(jview_mems(ms@) =~= base);
    }
    match payload {
        Json::Obj(pm) => {
            let mut k: usize = 0;
            proof {
                lemma_jview_mems(pm@);
                assert(payload_members(jview_mems(pm@).take(0)) =~= Seq::<(
                Seq<char>, JsonV)>::empty());
            }
            while k < pm.len()
                invariant
                    k <= pm@.len(),
                    jview_mems(ms@) == base + payload_members(jview_mems(pm@).take(k as int)),
                decreases pm@.len() - k,
            {
                proof {
                    assert(jview_mems(pm@).take(k + 1 as int).drop_last() =~= jview_mems(
                        pm@).take(k as int));
                    assert(jview_mems(pm@).take(k + 1 as int).last() == jview_mems(pm@)[
                        k as int]);
                }
                let skip = string_eq_str(&pm[k].0, "type") || string_eq_str(&pm[k].0,
                    "sessionId");
                if !skip {
                    let key = pm[k].0.clone();
                    let val = json_clone(&pm[k].1);
                    let ghost msp = ms@;
                    ms.push((key, val));
                    proof {
                        lemma_jview_mems(ms@);
                        lemma_jview_mems(msp);
                        assert(ms@.drop_last() =~= msp);
                        assert(payload_members(jview_mems(pm@).take(k + 1 as int))
                            == payload_members(jview_mems(pm@).take(k as int)).push(jview_mems(
                            pm@)[k as int]));
                        assert(jview_mems(ms@).len() == msp.len() + 1);
                        assert(ms@[msp.len() as int].0@ == pm@[k as int].0@);
                        assert(jview(ms@[msp.len() as int].1) == jview(pm@[k as int].1));
                        assert(jview_mems(ms@)[msp.len() as int] == (pm@[k as int].0@, jview(
                            pm@[k as int].1)));
                        assert forall|d: int|
                            0 <= d < jview_mems(ms@).len() implies jview_mems(ms@)[d] == (base
                            + payload_members(jview_mems(pm@).take(k + 1 as int)))[d] by {
                            if d < msp.len() {
                                assert(ms@[d] == msp[d]);
                                assert(jview_mems(ms@)[d] == jview_mems(msp)[d]);
                                assert(jview_mems(msp)[d] == (base + payload_members(jview_mems(
                                pm@).take(k as int)))[d]);
                            }
                        }
                        assert(jview_mems(ms@) =~= base + payload_members(jview_mems(pm@).take(k
                            + 1 as int)));
                    }
                }
                k = k + 1;
            }
            proof {
                assert(jview_mems(pm@).take(pm@.len() as int) =~= jview_mems(pm@));
            }
        }
        _ => {
            proof {
                assert(base + Seq::<(Seq<char>, JsonV)>::empty() =~= base);
            }
        }
    }
    Json::Obj(ms)
}

/// A tool the proxy offers to the model.
pub struct Tool {
    pub tool_type: String,
    pub function: ToolFunction,
}

/// The function a tool exposes.
pub struct ToolFunction {
    pub name: String,
    pub description: String,
    pub parameters: ToolParameters,
}

/// The parameter schema of a tool function: a JSON-schema object whose
/// property values carry free-form documentation.
pub struct ToolParameters {
    pub param_type: String,
    pub properties: Vec<(String, Json)>,
    pub required: Vec<String>,
}

/// The keys of a member list, in order.
pub open spec fn keys_of(ms: Seq<(String, Json)>) -> Seq<Seq<char>> {
    ms.map_values(|p: (String, Json)| p.0@)
}

/// Is `t` the catalog entry with this shape?
pub open spec fn tool_is(t: Tool, name: Seq<char>, props: Seq<Seq<char>>, req: Seq<
    Seq<char>,
>) -> bool {
    &&& t.tool_type@ == "function"@
    &&& t.function.name@ == name
    &&& t.function.parameters.param_type@ == "object"@
    &&& keys_of(t.function.parameters.properties@) == props
    &&& crate::launcher::views_of(t.function.parameters.required@) == req
}

/// One string property of a parameter schema, documented by `doc`.
fn schema_prop(doc: &str, ty: &str) -> (r: Json)
    ensures
        jview(r) == JsonV::Obj(
            seq![("type"@, JsonV::Str(ty@)), ("description"@, JsonV::Str(doc@))],
        ),
{
    let mut ms: Vec<(String, Json)> = Vec::new();
    ms.push(("type".to_owned(), Json::Str(ty.to_owned())));
    ms.push(("description".to_owned(), Json::Str(doc.to_owned())));
    proof {
        lemma_jview_mems(ms@);
        assert(jview_mems(ms@) =~= seq![
            ("type"@, JsonV::Str(ty@)),
            ("description"@, JsonV::Str(doc@)),
        ]);
    }
    Json::Obj(ms)
}

/// One catalog entry.
fn make_tool(name: &str, description: &str, props: Vec<(String, Json)>, required: Vec<String>) -> (
    r: Tool)
    ensures
        tool_is(r, name@, keys_of(props@), crate::launcher::views_of(required@)),
{
    Tool {
        tool_type: "function".to_owned(),
        function: ToolFunction {
            name: name.to_owned(),
            description: description.to_owned(),
            parameters: ToolParameters {
                param_type: "object".to_owned(),
                properties: props,
                required,
            },
        },
    }
}

/// The catalog of tools the proxy offers: reading, writing, listing and
/// searching the project's files.
#[verifier::rlimit(60)]
pub fn available_tools() -> (r: Vec<Tool>)
    ensures
        r@.len() == 5,
        tool_is(r@[0], "read_file"@, seq!["path"@], seq!["path"@]),
        tool_is(r@[1], "write_file"@, seq!["path"@, "content"@], seq!["path"@, "content"@]),
        tool_is(r@[2], "list_directory"@, seq!["path"@, "recursive"@], seq!["path"@]),
        tool_is(r@[3], "search_files"@, seq!["pattern"@, "path"@], seq!["pattern"@]),
        tool_is(r@[4], "search_content"@, seq!["pattern"@, "path"@, "filePattern"@], seq![
            "pattern"@,
        ]),
{
    let mut tools: Vec<Tool> = Vec::new();

    let mut props: Vec<(String, Json)> = Vec::new();
    props.push(("path".to_owned(), schema_prop("the file to read", "string")));
    let mut req: Vec<String> = Vec::new();
    req.push("path".to_owned());
    proof {
        assert(keys_of(props@) =~= seq!["path"@]);
        assert(crate::launcher::views_of(req@) =~= seq!["path"@]);
    }
    tools.push(make_tool("read_file", "Read a whole file's content.", props, req));

    let mut props: Vec<(String, Json)> = Vec::new();
    props.push(("path".to_owned(), schema_prop("the file to write", "string")));
    props.push(("content".to_owned(), schema_prop("the text to write", "string")));
    let mut req: Vec<String> = Vec::new();
    req.push("path".to_owned());
    req.push("content".to_owned());
    proof {
        assert(keys_of(props@) =~= seq!["path"@, "content"@]);
        assert(crate::launcher::views_of(req@) =~= seq!["path"@, "content"@]);
    }
    tools.push(make_tool("write_file", "Write a file, creating or replacing it.", props, req));

    let mut props: Vec<(String, Json)> = Vec::new();
    props.push(("path".to_owned(), schema_prop("the directory to list", "string")));
    props.push(("recursive".to_owned(), schema_prop("descend into subdirectories", "boolean")));
    let mut req: Vec<String> = Vec::new();
    req.push("path".to_owned());
    proof {
        assert(keys_of(props@) =~= seq!["path"@, "recursive"@]);
        assert(crate::launcher::views_of(req@) =~= seq!["path"@]);
    }
    tools.push(make_tool("list_directory", "List a directory's files and subdirectories.",
        props, req));

    let mut props: Vec<(String, Json)> = Vec::new();
    props.push(("pattern".to_owned(), schema_prop("the glob pattern to match", "string")));
    props.push(("path".to_owned(), schema_prop("the directory to search from", "string")));
    let mut req: Vec<String> = Vec::new();
    req.push("pattern".to_owned());
    proof {
        assert(keys_of(props@) =~= seq!["pattern"@, "path"@]);
        assert(crate::launcher::views_of(req@) =~= seq!["pattern"@]);
    }
    tools.push(make_tool("search_files", "Find file paths matching a glob pattern.", props,
        req));

    let mut props: Vec<(String, Json)> = Vec::new();
    props.push(("pattern".to_owned(), schema_prop("the text or pattern to look for", "string")));
    props.push(("path".to_owned(), schema_prop("the directory to search from", "string")));
    props.push(("filePattern".to_owned(), schema_prop("limit the files searched", "string")));
    let mut req: Vec<String> = Vec::new();
    req.push("pattern".to_owned());
    proof {
        assert(keys_of(props@) =~= seq!["pattern"@, "path"@, "filePattern"@]);
        assert(crate::launcher::views_of(req@) =~= seq!["pattern"@]);
    }
    tools.push(make_tool("search_content", "Find lines matching a pattern in file contents.",
        props, req));

    tools
}

/// A required string argument of a tool call.
pub open spec fn arg_str(jv: JsonV, k: Seq<char>) -> Option<Seq<char>> {
    match jv {
        JsonV::Obj(mv) => match obj_lookup(mv, k) {
            Some(JsonV::Str(s)) => Some(s),
            _ => None,
        },
        _ => None,
    }
}

/// An optional boolean argument, absent meaning false.
pub open spec fn arg_bool_or_false(jv: JsonV, k: Seq<char>) -> bool {
    match jv {
        JsonV::Obj(mv) => match obj_lookup(mv, k) {
            Some(JsonV::Bool(b)) => b,
            _ => false,
        },
        _ => false,
    }
}

/// A string argument with a default.
pub open spec fn arg_str_or(jv: JsonV, k: Seq<char>, dflt: Seq<char>) -> Seq<char> {
    match arg_str(jv, k) {
        Some(s) => s,
        None => dflt,
    }
}

/// What a tool call resolves to: the command the shell must invoke and
/// the arguments to hand it, or the error reported to the model.
pub open spec fn plan_spec(tool: Seq<char>, jv: JsonV) -> Result<(Seq<char>, JsonV), Seq<char>> {
    if tool == "read_file"@ {
        match arg_str(jv, "path"@) {
            Some(p) => Ok(
                ("plugin:filesystem|read_file"@, JsonV::Obj(seq![("path"@, JsonV::Str(p))])),
            ),
            None => Err("missing path argument"@),
        }
    } else if tool == "write_file"@ {
        match (arg_str(jv, "path"@), arg_str(jv, "content"@)) {
            (Some(p), Some(c)) => Ok(
                (
                    "plugin:filesystem|write_file"@,
                    JsonV::Obj(seq![("path"@, JsonV::Str(p)), ("contents"@, JsonV::Str(c))]),
                ),
            ),
            (None, _) => Err("missing path argument"@),
            (Some(_), None) => Err("missing content argument"@),
        }
    } else if tool == "list_directory"@ {
        match arg_str(jv, "path"@) {
            Some(p) => Ok(
                (
                    "plugin:filesystem|read_dir"@,
                    JsonV::Obj(
                        seq![
                            ("path"@, JsonV::Str(p)),
                            ("recursive"@, JsonV::Bool(arg_bool_or_false(jv, "recursive"@))),
                        ],
                    ),
                ),
            ),
            None => Err("missing path argument"@),
        }
    } else if tool == "search_files"@ {
        match arg_str(jv, "pattern"@) {
            Some(p) => Ok(
                (
                    "plugin:glob|glob"@,
                    JsonV::Obj(
                        seq![
                            ("pattern"@, JsonV::Str(p)),
                            ("path"@, JsonV::Str(arg_str_or(jv, "path"@, "."@))),
                        ],
                    ),
                ),
            ),
            None => Err("missing pattern argument"@),
        }
    } else if tool == "search_content"@ {
        match arg_str(jv, "pattern"@) {
            Some(p) => Ok(
                (
                    "plugin:grep|grep"@,
                    JsonV::Obj(
                        seq![
                            ("pattern"@, JsonV::Str(p)),
                            ("path"@, JsonV::Str(arg_str_or(jv, "path"@, "."@))),
                        ] + (match arg_str(jv, "filePattern"@) {
                            Some(fp) => seq![("filePattern"@, JsonV::Str(fp))],
                            None => Seq::empty(),
                        }),
                    ),
                ),
            ),
            None => Err("missing pattern argument"@),
        }
    } else {
        Err("unknown tool"@)
    }
}

/// A required string argument, read off the concrete document.
fn get_arg_str(j: &Json, k: &str) -> (r: Option<String>)
    ensures
        (match r {
            Some(s) => arg_str(jview(*j), k@) == Some(s@),
            None => arg_str(jview(*j), k@) is None,
        }),
{
    match j {
        Json::Obj(ms) => match obj_get(ms, k) {
            Some(Json::Str(s)) => Some(s.clone()),
            _ => None,
        },
        _ => None,
    }
}

/// Resolve one tool call: parse its argument text, then plan exactly as
/// [`plan_spec`] says.
#[verifier::rlimit(60)]
pub fn plan_tool_call(tool_name: &str, arguments: &str) -> (r: Result<(String, Json), String>)
    ensures
        (match json_parse(arguments@) {
            None => r matches Err(e) && e@ == "tool arguments are not valid JSON"@,
            Some(jv) => match r {
                Ok((cmd, args)) => plan_spec(tool_name@, jv) == Ok::<_, Seq<char>>(
                    (cmd@, jview(args)),
                ),
                Err(e) => plan_spec(tool_name@, jv) == Err::<(Seq<char>, JsonV), _>(e@),
            },
        }),
{
    let parsed = match parse_raw_json(arguments) {
        Some(j) => j,
        None => {
            return Err("tool arguments are not valid JSON".to_owned());
        }
    };
    let j = &parsed;
    let tn = tool_name.to_owned();
    if string_eq_str(&tn, "read_file") {
        match get_arg_str(j, "path") {
            Some(p) => {
                let mut ms: Vec<(String, Json)> = Vec::new();
                ms.push(("path".to_owned(), Json::Str(p)));
                proof {
                    lemma_jview_mems(ms@);
                    assert(jview_mems(ms@) =~= seq![("path"@, JsonV::Str(ms@[0].1->Str_0@))]);
                }
                Ok(("plugin:filesystem|read_file".to_owned(), Json::Obj(ms)))
            }
            None => Err("missing path argument".to_owned()),
        }
    } else if string_eq_str(&tn, "write_file") {
        match get_arg_str(j, "path") {
            Some(p) => match get_arg_str(j, "content") {
                Some(c) => {
                    let mut ms: Vec<(String, Json)> = Vec::new();
                    ms.push(("path".to_owned(), Json::Str(p)));
                    ms.push(("contents".to_owned(), Json::Str(c)));
                    proof {
                        lemma_jview_mems(ms@);
                        assert(jview_mems(ms@) =~= seq![
                            ("path"@, JsonV::Str(ms@[0].1->Str_0@)),
                            ("contents"@, JsonV::Str(ms@[1].1->Str_0@)),
                        ]);
                    }
                    Ok(("plugin:filesystem|write_file".to_owned(), Json::Obj(ms)))
                }
                None => Err("missing content argument".to_owned()),
            },
            None => Err("missing path argument".to_owned()),
        }
    } else if string_eq_str(&tn, "list_directory") {
        match get_arg_str(j, "path") {
            Some(p) => {
                let recursive: bool = match j {
                    Json::Obj(ms) => match obj_get(ms, "recursive") {
                        Some(Json::Bool(b)) => *b,
                        _ => false,
                    },
                    _ => false,
                };
                let mut ms: Vec<(String, Json)> = Vec::new();
                ms.push(("path".to_owned(), Json::Str(p)));
                ms.push(("recursive".to_owned(), Json::Bool(recursive)));
                proof {
                    lemma_jview_mems(ms@);
                    assert(jview_mems(ms@) =~= seq![
                        ("path"@, JsonV::Str(ms@[0].1->Str_0@)),
                        ("recursive"@, JsonV::Bool(recursive)),
                    ]);
                }
                Ok(("plugin:filesystem|read_dir".to_owned(), Json::Obj(ms)))
            }
            None => Err("missing path argument".to_owned()),
        }
    } else if string_eq_str(&tn, "search_files") {
        match get_arg_str(j, "pattern") {
            Some(p) => {
                let path: String = match get_arg_str(j, "path") {
                    Some(s) => s,
                    None => ".".to_owned(),
                };
                let mut ms: Vec<(String, Json)> = Vec::new();
                ms.push(("pattern".to_owned(), Json::Str(p)));
                ms.push(("path".to_owned(), Json::Str(path)));
                proof {
                    lemma_jview_mems(ms@);
                    assert(jview_mems(ms@) =~= seq![
                        ("pattern"@, JsonV::Str(ms@[0].1->Str_0@)),
                        ("path"@, JsonV::Str(ms@[1].1->Str_0@)),
                    ]);
                }
                Ok(("plugin:glob|glob".to_owned(), Json::Obj(ms)))
            }
            None => Err("missing pattern argument".to_owned()),
        }
    } else if string_eq_str(&tn, "search_content") {
        match get_arg_str(j, "pattern") {
            Some(p) => {
                let path: String = match get_arg_str(j, "path") {
                    Some(s) => s,
                    None => ".".to_owned(),
                };
                let mut ms: Vec<(String, Json)> = Vec::new();
                ms.push(("pattern".to_owned(), Json::Str(p)));
                ms.push(("path".to_owned(), Json::Str(path)));
                match get_arg_str(j, "filePattern") {
                    Some(fp) => {
                        ms.push(("filePattern".to_owned(), Json::Str(fp)));
                        proof {
                            lemma_jview_mems(ms@);
                            assert(jview_mems(ms@) =~= seq![
                                ("pattern"@, JsonV::Str(ms@[0].1->Str_0@)),
                                ("path"@, JsonV::Str(ms@[1].1->Str_0@)),
                            ] + seq![("filePattern"@, JsonV::Str(ms@[2].1->Str_0@))]);
                        }
                    }
                    None => {
                        proof {
                            lemma_jview_mems(ms@);
                            assert(jview_mems(ms@) =~= seq![
                                ("pattern"@, JsonV::Str(ms@[0].1->Str_0@)),
                                ("path"@, JsonV::Str(ms@[1].1->Str_0@)),
                            ] + Seq::<(Seq<char>, JsonV)>::empty());
                        }
                    }
                }
                Ok(("plugin:grep|grep".to_owned(), Json::Obj(ms)))
            }
            None => Err("missing pattern argument".to_owned()),
        }
    } else {
        Err("unknown tool".to_owned())
    }
}

} // verus!
