//! The transcript normalizer.
//!
//! File-based backends persist their session to an append-only JSON-lines
//! transcript instead of writing events on a pipe.  Each line is one
//! record in a richer schema (`uuid`, `sessionId`, `type`, nested
//! `message.content` blocks); this module reads that schema off the
//! library's document model and flattens the records into canonical
//! events.  `user` records are dropped; `assistant` records concatenate
//! their text blocks, then their tool-use blocks, into one assistant
//! event; tool records become tool-end or tool-start events.  A turn
//! counts as finished when an assistant record's stop reason is one of a
//! fixed set of terminal reasons — a documented heuristic, since the
//! transcript format has no explicit end-of-turn marker.

use crate::events::{json_clone, EventV, StreamEvent};
use crate::json::{jview, jview_mems, jview_seq, lemma_jview_mems, lemma_jview_seq, obj_get, obj_lookup,
    string_eq_str, Json, JsonV};
use crate::pipe::{json_parse, parse_raw_json, trim_line, trim_spec};
use vstd::prelude::*;

verus! {

/// One transcript record.
#[derive(Debug, PartialEq, Eq)]
pub struct IFlowJsonlEvent {
    pub uuid: String,
    pub parent_uuid: Option<String>,
    pub session_id: String,
    pub timestamp: String,
    pub event_type: String,
    pub is_sidechain: bool,
    pub user_type: String,
    pub message: Option<IFlowMessage>,
    pub cwd: Option<String>,
    pub git_branch: Option<String>,
    pub version: Option<String>,
    pub tool_use_result: Option<IFlowToolUseResult>,
}

/// A record's message payload.
#[derive(Debug, PartialEq, Eq)]
pub struct IFlowMessage {
    pub id: Option<String>,
    pub message_type: Option<String>,
    pub role: String,
    pub content: Vec<IFlowContentBlock>,
    pub model: Option<String>,
    pub stop_reason: Option<String>,
    pub usage: Option<IFlowUsage>,
}

/// One block of a message's content.
#[derive(Debug, PartialEq, Eq)]
pub enum IFlowContentBlock {
    Text { text: String },
    ToolUse { id: String, name: String, input: Json },
    ToolResult { tool_use_id: String, content: IFlowToolResultContent },
}

/// The payload of a tool-result block.
#[derive(Debug, PartialEq, Eq)]
pub struct IFlowToolResultContent {
    pub call_id: String,
    pub response_parts: Option<IFlowResponseParts>,
    pub result_display: Option<String>,
}

/// The response parts of a tool result.
#[derive(Debug, PartialEq, Eq)]
pub struct IFlowResponseParts {
    pub function_response: Option<IFlowFunctionResponse>,
}

/// A function response within a tool result.
#[derive(Debug, PartialEq, Eq)]
pub struct IFlowFunctionResponse {
    pub id: String,
    pub name: String,
    pub response: Json,
}

/// Token usage counters of a message.
#[derive(Debug, Clone, Copy, PartialEq, Eq, Structural)]
pub struct IFlowUsage {
    pub input_tokens: u32,
    pub output_tokens: u32,
}

/// The outcome a record reports for a tool call.
#[derive(Debug, PartialEq, Eq)]
pub struct IFlowToolUseResult {
    pub tool_name: String,
    pub status: String,
    pub timestamp: u64,
}

/// Model of a content block.
pub enum BlockV {
    Text { text: Seq<char> },
    ToolUse { id: Seq<char>, name: Seq<char>, input: JsonV },
    ToolResult { tool_use_id: Seq<char>, content: ToolResultContentV },
}

/// Model of a tool-result payload.
pub struct ToolResultContentV {
    pub call_id: Seq<char>,
    pub response_parts: Option<RespPartsV>,
    pub result_display: Option<Seq<char>>,
}

/// Model of response parts.
pub struct RespPartsV {
    pub function_response: Option<FuncRespV>,
}

/// Model of a function response.
pub struct FuncRespV {
    pub id: Seq<char>,
    pub name: Seq<char>,
    pub response: JsonV,
}

/// Model of a tool-call outcome.
pub struct ToolUseResultV {
    pub tool_name: Seq<char>,
    pub status: Seq<char>,
    pub timestamp: u64,
}

/// Model of a message payload.
pub struct MessageV {
    pub id: Option<Seq<char>>,
    pub message_type: Option<Seq<char>>,
    pub role: Seq<char>,
    pub content: Seq<BlockV>,
    pub model: Option<Seq<char>>,
    pub stop_reason: Option<Seq<char>>,
    pub usage: Option<IFlowUsage>,
}

/// Model of a transcript record.
pub struct TranscriptV {
    pub uuid: Seq<char>,
    pub parent_uuid: Option<Seq<char>>,
    pub session_id: Seq<char>,
    pub timestamp: Seq<char>,
    pub event_type: Seq<char>,
    pub is_sidechain: bool,
    pub user_type: Seq<char>,
    pub message: Option<MessageV>,
    pub cwd: Option<Seq<char>>,
    pub git_branch: Option<Seq<char>>,
    pub version: Option<Seq<char>>,
    pub tool_use_result: Option<ToolUseResultV>,
}

/// Model of an optional string.
pub open spec fn opt_view(o: Option<String>) -> Option<Seq<char>> {
    match o {
        Some(s) => Some(s@),
        None => None,
    }
}

impl View for IFlowContentBlock {
    type V = BlockV;

    open spec fn view(&self) -> BlockV {
        match *self {
            IFlowContentBlock::Text { text } => BlockV::Text { text: text@ },
            IFlowContentBlock::ToolUse { id, name, input } => BlockV::ToolUse {
                id: id@,
                name: name@,
                input: jview(input),
            },
            IFlowContentBlock::ToolResult { tool_use_id, content } => BlockV::ToolResult {
                tool_use_id: tool_use_id@,
                content: content@,
            },
        }
    }
}

impl View for IFlowToolResultContent {
    type V = ToolResultContentV;

    open spec fn view(&self) -> ToolResultContentV {
        ToolResultContentV {
            call_id: self.call_id@,
            response_parts: match self.response_parts {
                Some(p) => Some(p@),
                None => None,
            },
            result_display: opt_view(self.result_display),
        }
    }
}

impl View for IFlowResponseParts {
    type V = RespPartsV;

    open spec fn view(&self) -> RespPartsV {
        RespPartsV {
            function_response: match self.function_response {
                Some(f) => Some(f@),
                None => None,
            },
        }
    }
}

impl View for IFlowFunctionResponse {
    type V = FuncRespV;

    open spec fn view(&self) -> FuncRespV {
        FuncRespV { id: self.id@, name: self.name@, response: jview(self.response) }
    }
}

impl View for IFlowToolUseResult {
    type V = ToolUseResultV;

    open spec fn view(&self) -> ToolUseResultV {
        ToolUseResultV {
            tool_name: self.tool_name@,
            status: self.status@,
            timestamp: self.timestamp,
        }
    }
}

/// Model of a block sequence, element by element.
pub open spec fn blocks_view(s: Seq<IFlowContentBlock>) -> Seq<BlockV> {
    Seq::new(s.len(), |i: int| s[i]@)
}

impl View for IFlowMessage {
    type V = MessageV;

    open spec fn view(&self) -> MessageV {
        MessageV {
            id: opt_view(self.id),
            message_type: opt_view(self.message_type),
            role: self.role@,
            content: blocks_view(self.content@),
            model: opt_view(self.model),
            stop_reason: opt_view(self.stop_reason),
            usage: self.usage,
        }
    }
}

impl View for IFlowJsonlEvent {
    type V = TranscriptV;

    open spec fn view(&self) -> TranscriptV {
        TranscriptV {
            uuid: self.uuid@,
            parent_uuid: opt_view(self.parent_uuid),
            session_id: self.session_id@,
            timestamp: self.timestamp@,
            event_type: self.event_type@,
            is_sidechain: self.is_sidechain,
            user_type: self.user_type@,
            message: match self.message {
                Some(m) => Some(m@),
                None => None,
            },
            cwd: opt_view(self.cwd),
            git_branch: opt_view(self.git_branch),
            version: opt_view(self.version),
            tool_use_result: match self.tool_use_result {
                Some(t) => Some(t@),
                None => None,
            },
        }
    }
}

/// A non-empty run of decimal digits.
pub open spec fn is_digits(s: Seq<char>) -> bool {
    s.len() > 0 && forall|i: int| 0 <= i < s.len() ==> '0' <= #[trigger] s[i] && s[i] <= '9'
}

/// The value a digit run denotes.
pub open spec fn digits_val(s: Seq<char>) -> int
    decreases s.len(),
{
    if s.len() == 0 {
        0
    } else {
        digits_val(s.drop_last()) * 10 + (s.last() as int - '0' as int)
    }
}

/// Digit values are non-negative and grow with the run.
proof fn lemma_digits_mono(s: Seq<char>, i: int, j: int)
    requires
        0 <= i <= j <= s.len(),
        forall|d: int| 0 <= d < s.len() ==> '0' <= #[trigger] s[d] && s[d] <= '9',
    ensures
        0 <= digits_val(s.take(i)) <= digits_val(s.take(j)),
    decreases j,
{
    if j == 0 {
    } else if i == j {
        lemma_digits_mono(s, i - 1, j - 1);
        assert(s.take(j).drop_last() =~= s.take(j - 1));
        assert(s.take(j).last() == s[j - 1]);
    } else {
        lemma_digits_mono(s, i, j - 1);
        assert(s.take(j).drop_last() =~= s.take(j - 1));
        assert(s.take(j).last() == s[j - 1]);
        assert(digits_val(s.take(j)) == digits_val(s.take(j - 1)) * 10 + (s[j - 1] as int
            - '0' as int));
    }
}

/// The value of a digit lexeme, when it is one and fits in 64 bits.
#[verifier::loop_isolation(false)]
pub fn parse_u64_digits(lex: &String) -> (r: Option<u64>)
    ensures
        (match r {
            Some(v) => is_digits(lex@) && digits_val(lex@) == v as int,
            None => !(is_digits(lex@) && digits_val(lex@) <= u64::MAX as int),
        }),
{
    let n = lex.as_str().unicode_len();
    if n == 0 {
        return None;
    }
    let mut acc: u128 = 0;
    let mut i: usize = 0;
    while i < n
        invariant
            i <= n,
            n == lex@.len(),
            forall|d: int| 0 <= d < i ==> '0' <= #[trigger] lex@[d] && lex@[d] <= '9',
            acc as int == digits_val(lex@.take(i as int)),
            acc <= u64::MAX as u128,
        decreases n - i,
    {
        let c = lex.as_str().get_char(i);
        if !('0' <= c && c <= '9') {
            return None;
        }
        let d: u128 = (c as u32 - '0' as u32) as u128;
        proof {
            assert(lex@.take(i + 1 as int).drop_last() =~= lex@.take(i as int));
            assert(lex@.take(i + 1 as int).last() == lex@[i as int]);
        }
        acc = acc * 10 + d;
        i = i + 1;
        if acc > u64::MAX as u128 {
            proof {
                if is_digits(lex@) {
                    lemma_digits_mono(lex@, i as int, lex@.len() as int);
                    assert(lex@.take(lex@.len() as int) =~= lex@);
                }
            }
            return None;
        }
    }
    proof {
        assert(lex@.take(n as int) =~= lex@);
    }
    Some(acc as u64)
}

/// A required string member.
pub open spec fn read_req_str(mv: Seq<(Seq<char>, JsonV)>, k: Seq<char>) -> Option<Seq<char>> {
    match obj_lookup(mv, k) {
        Some(JsonV::Str(s)) => Some(s),
        _ => None,
    }
}

/// An optional string member: absent or null reads as nothing; a present
/// non-string is a schema error.
pub open spec fn read_opt_str(mv: Seq<(Seq<char>, JsonV)>, k: Seq<char>) -> Option<
    Option<Seq<char>>,
> {
    match obj_lookup(mv, k) {
        None => Some(None),
        Some(JsonV::Null) => Some(None),
        Some(JsonV::Str(s)) => Some(Some(s)),
        Some(_) => None,
    }
}

/// A required boolean member.
pub open spec fn read_bool(mv: Seq<(Seq<char>, JsonV)>, k: Seq<char>) -> Option<bool> {
    match obj_lookup(mv, k) {
        Some(JsonV::Bool(b)) => Some(b),
        _ => None,
    }
}

/// A required unsigned member with an upper bound.
pub open spec fn read_uint(mv: Seq<(Seq<char>, JsonV)>, k: Seq<char>, max: int) -> Option<int> {
    match obj_lookup(mv, k) {
        Some(JsonV::Num(s)) => if is_digits(s) && digits_val(s) <= max {
            Some(digits_val(s))
        } else {
            None
        },
        _ => None,
    }
}

/// Usage counters read off a document.
pub open spec fn read_usage_v(jv: JsonV) -> Option<IFlowUsage> {
    match jv {
        JsonV::Obj(mv) => match (read_uint(mv, "input_tokens"@, u32::MAX as int), read_uint(mv,
            "output_tokens"@, u32::MAX as int)) {
            (Some(a), Some(b)) => Some(IFlowUsage { input_tokens: a as u32, output_tokens: b as u32 }),
            _ => None,
        },
        _ => None,
    }
}

/// A function response read off a document.
pub open spec fn read_fr_v(jv: JsonV) -> Option<FuncRespV> {
    match jv {
        JsonV::Obj(mv) => match (read_req_str(mv, "id"@), read_req_str(mv, "name"@), obj_lookup(
            mv, "response"@)) {
            (Some(id), Some(name), Some(resp)) => Some(
                FuncRespV { id, name, response: resp },
            ),
            _ => None,
        },
        _ => None,
    }
}

/// Response parts read off a document.
pub open spec fn read_rp_v(jv: JsonV) -> Option<RespPartsV> {
    match jv {
        JsonV::Obj(mv) => match obj_lookup(mv, "functionResponse"@) {
            None => Some(RespPartsV { function_response: None }),
            Some(JsonV::Null) => Some(RespPartsV { function_response: None }),
            Some(f) => match read_fr_v(f) {
                Some(fr) => Some(RespPartsV { function_response: Some(fr) }),
                None => None,
            },
        },
        _ => None,
    }
}

/// A tool-result payload read off a document.
pub open spec fn read_trc_v(jv: JsonV) -> Option<ToolResultContentV> {
    match jv {
        JsonV::Obj(mv) => match (read_req_str(mv, "callId"@), read_opt_str(mv,
            "resultDisplay"@)) {
            (Some(call_id), Some(result_display)) => match obj_lookup(mv, "responseParts"@) {
                None => Some(
                    ToolResultContentV { call_id, response_parts: None, result_display },
                ),
                Some(JsonV::Null) => Some(
                    ToolResultContentV { call_id, response_parts: None, result_display },
                ),
                Some(p) => match read_rp_v(p) {
                    Some(rp) => Some(
                        ToolResultContentV {
                            call_id,
                            response_parts: Some(rp),
                            result_display,
                        },
                    ),
                    None => None,
                },
            },
            _ => None,
        },
        _ => None,
    }
}

/// One content block read off a document, by its `type` tag.
pub open spec fn read_block_v(jv: JsonV) -> Option<BlockV> {
    match jv {
        JsonV::Obj(mv) => match read_req_str(mv, "type"@) {
            Some(t) => if t == "text"@ {
                match read_req_str(mv, "text"@) {
                    Some(text) => Some(BlockV::Text { text }),
                    None => None,
                }
            } else if t == "tool_use"@ {
                match (read_req_str(mv, "id"@), read_req_str(mv, "name"@), obj_lookup(mv,
                    "input"@)) {
                    (Some(id), Some(name), Some(input)) => Some(
                        BlockV::ToolUse { id, name, input },
                    ),
                    _ => None,
                }
            } else if t == "tool_result"@ {
                match read_req_str(mv, "tool_use_id"@) {
                    Some(tool_use_id) => match obj_lookup(mv, "content"@) {
                        Some(c) => match read_trc_v(c) {
                            Some(content) => Some(BlockV::ToolResult { tool_use_id, content }),
                            None => None,
                        },
                        None => None,
                    },
                    None => None,
                }
            } else {
                None
            },
            None => None,
        },
        _ => None,
    }
}

/// A block list read off a document sequence.
pub open spec fn read_blocks_v(s: Seq<JsonV>) -> Option<Seq<BlockV>>
    decreases s.len(),
{
    if s.len() == 0 {
        Some(Seq::empty())
    } else {
        match (read_blocks_v(s.drop_last()), read_block_v(s.last())) {
            (Some(rest), Some(b)) => Some(rest.push(b)),
            _ => None,
        }
    }
}

/// A message payload read off a document.
pub open spec fn read_message_v(jv: JsonV) -> Option<MessageV> {
    match jv {
        JsonV::Obj(mv) => match (read_opt_str(mv, "id"@), read_opt_str(mv, "type"@),
            read_req_str(mv, "role"@), read_opt_str(mv, "model"@), read_opt_str(mv,
            "stop_reason"@)) {
            (Some(id), Some(message_type), Some(role), Some(model), Some(stop_reason)) => {
                let content = match obj_lookup(mv, "content"@) {
                    Some(JsonV::Arr(a)) => read_blocks_v(a),
                    _ => None,
                };
                let usage = match obj_lookup(mv, "usage"@) {
                    None => Some(None),
                    Some(JsonV::Null) => Some(None),
                    Some(u) => match read_usage_v(u) {
                        Some(us) => Some(Some(us)),
                        None => None,
                    },
                };
                match (content, usage) {
                    (Some(content), Some(usage)) => Some(
                        MessageV { id, message_type, role, content, model, stop_reason, usage },
                    ),
                    _ => None,
                }
            },
            _ => None,
        },
        _ => None,
    }
}

/// A tool-call outcome read off a document.
pub open spec fn read_tur_v(jv: JsonV) -> Option<ToolUseResultV> {
    match jv {
        JsonV::Obj(mv) => match (read_req_str(mv, "toolName"@), read_req_str(mv, "status"@),
            read_uint(mv, "timestamp"@, u64::MAX as int)) {
            (Some(tool_name), Some(status), Some(ts)) => Some(
                ToolUseResultV { tool_name, status, timestamp: ts as u64 },
            ),
            _ => None,
        },
        _ => None,
    }
}

/// A whole transcript record read off a document.
pub open spec fn read_transcript_v(jv: JsonV) -> Option<TranscriptV> {
    match jv {
        JsonV::Obj(mv) => match (read_req_str(mv, "uuid"@), read_opt_str(mv, "parentUuid"@),
            read_req_str(mv, "sessionId"@), read_req_str(mv, "timestamp"@), read_req_str(mv,
            "type"@), read_bool(mv, "isSidechain"@), read_req_str(mv, "userType"@), read_opt_str(
            mv, "cwd"@), read_opt_str(mv, "gitBranch"@), read_opt_str(mv, "version"@)) {
            (
                Some(uuid),
                Some(parent_uuid),
                Some(session_id),
                Some(timestamp),
                Some(event_type),
                Some(is_sidechain),
                Some(user_type),
                Some(cwd),
                Some(git_branch),
                Some(version),
            ) => {
                let message = match obj_lookup(mv, "message"@) {
                    None => Some(None),
                    Some(JsonV::Null) => Some(None),
                    Some(m) => match read_message_v(m) {
                        Some(msg) => Some(Some(msg)),
                        None => None,
                    },
                };
                let tool_use_result = match obj_lookup(mv, "toolUseResult"@) {
                    None => Some(None),
                    Some(JsonV::Null) => Some(None),
                    Some(t) => match read_tur_v(t) {
                        Some(tr) => Some(Some(tr)),
                        None => None,
                    },
                };
                match (message, tool_use_result) {
                    (Some(message), Some(tool_use_result)) => Some(
                        TranscriptV {
                            uuid,
                            parent_uuid,
                            session_id,
                            timestamp,
                            event_type,
                            is_sidechain,
                            user_type,
                            message,
                            cwd,
                            git_branch,
                            version,
                            tool_use_result,
                        },
                    ),
                    _ => None,
                }
            },
            _ => None,
        },
        _ => None,
    }
}

/// A required string member, read off the concrete members.
fn get_req_str(ms: &Vec<(String, Json)>, k: &str) -> (r: Option<String>)
    ensures
        (match r {
            Some(s) => read_req_str(jview_mems(ms@), k@) == Some(s@),
            None => read_req_str(jview_mems(ms@), k@) is None,
        }),
{
    match obj_get(ms, k) {
        Some(Json::Str(s)) => Some(s.clone()),
        _ => None,
    }
}

/// An optional string member, read off the concrete members.
fn get_opt_str(ms: &Vec<(String, Json)>, k: &str) -> (r: Option<Option<String>>)
    ensures
        (match r {
            Some(o) => read_opt_str(jview_mems(ms@), k@) == Some(opt_view(o)),
            None => read_opt_str(jview_mems(ms@), k@) is None,
        }),
{
    match obj_get(ms, k) {
        None => Some(None),
        Some(Json::Null) => Some(None),
        Some(Json::Str(s)) => Some(Some(s.clone())),
        Some(_) => None,
    }
}

/// A required boolean member, read off the concrete members.
fn get_bool(ms: &Vec<(String, Json)>, k: &str) -> (r: Option<bool>)
    ensures
        (match r {
            Some(b) => read_bool(jview_mems(ms@), k@) == Some(b),
            None => read_bool(jview_mems(ms@), k@) is None,
        }),
{
    match obj_get(ms, k) {
        Some(Json::Bool(b)) => Some(*b),
        _ => None,
    }
}

/// A required unsigned member within `u32`, read off the concrete members.
fn get_u32(ms: &Vec<(String, Json)>, k: &str) -> (r: Option<u32>)
    ensures
        (match r {
            Some(v) => read_uint(jview_mems(ms@), k@, u32::MAX as int) == Some(v as int),
            None => read_uint(jview_mems(ms@), k@, u32::MAX as int) is None,
        }),
{
    match obj_get(ms, k) {
        Some(Json::Num(lex)) => match parse_u64_digits(lex) {
            Some(v) => if v <= u32::MAX as u64 {
                Some(v as u32)
            } else {
                None
            },
            None => None,
        },
        _ => None,
    }
}

/// A required unsigned member within `u64`, read off the concrete members.
fn get_u64(ms: &Vec<(String, Json)>, k: &str) -> (r: Option<u64>)
    ensures
        (match r {
            Some(v) => read_uint(jview_mems(ms@), k@, u64::MAX as int) == Some(v as int),
            None => read_uint(jview_mems(ms@), k@, u64::MAX as int) is None,
        }),
{
    match obj_get(ms, k) {
        Some(Json::Num(lex)) => parse_u64_digits(lex),
        _ => None,
    }
}

/// Usage counters, read off a concrete document.
fn read_usage(j: &Json) -> (r: Option<IFlowUsage>)
    ensures
        (match r {
            Some(u) => read_usage_v(jview(*j)) == Some(u),
            None => read_usage_v(jview(*j)) is None,
        }),
{
    match j {
        Json::Obj(ms) => match (get_u32(ms, "input_tokens"), get_u32(ms, "output_tokens")) {
            (Some(a), Some(b)) => Some(IFlowUsage { input_tokens: a, output_tokens: b }),
            _ => None,
        },
        _ => None,
    }
}

/// A function response, read off a concrete document.
fn read_fr(j: &Json) -> (r: Option<IFlowFunctionResponse>)
    ensures
        (match r {
            Some(f) => read_fr_v(jview(*j)) == Some(f@),
            None => read_fr_v(jview(*j)) is None,
        }),
{
    match j {
        Json::Obj(ms) => match (get_req_str(ms, "id"), get_req_str(ms, "name")) {
            (Some(id), Some(name)) => match obj_get(ms, "response") {
                Some(resp) => Some(
                    IFlowFunctionResponse { id, name, response: json_clone(resp) },
                ),
                None => None,
            },
            _ => None,
        },
        _ => None,
    }
}

/// Response parts, read off a concrete document.
fn read_rp(j: &Json) -> (r: Option<IFlowResponseParts>)
    ensures
        (match r {
            Some(p) => read_rp_v(jview(*j)) == Some(p@),
            None => read_rp_v(jview(*j)) is None,
        }),
{
    match j {
        Json::Obj(ms) => match obj_get(ms, "functionResponse") {
            None => Some(IFlowResponseParts { function_response: None }),
            Some(Json::Null) => Some(IFlowResponseParts { function_response: None }),
            Some(f) => match read_fr(f) {
                Some(fr) => Some(IFlowResponseParts { function_response: Some(fr) }),
                None => None,
            },
        },
        _ => None,
    }
}

/// A tool-result payload, read off a concrete document.
fn read_trc(j: &Json) -> (r: Option<IFlowToolResultContent>)
    ensures
        (match r {
            Some(c) => read_trc_v(jview(*j)) == Some(c@),
            None => read_trc_v(jview(*j)) is None,
        }),
{
    match j {
        Json::Obj(ms) => match (get_req_str(ms, "callId"), get_opt_str(ms, "resultDisplay")) {
            (Some(call_id), Some(result_display)) => match obj_get(ms, "responseParts") {
                None => Some(
                    IFlowToolResultContent { call_id, response_parts: None, result_display },
                ),
                Some(Json::Null) => Some(
                    IFlowToolResultContent { call_id, response_parts: None, result_display },
                ),
                Some(p) => match read_rp(p) {
                    Some(rp) => Some(
                        IFlowToolResultContent {
                            call_id,
                            response_parts: Some(rp),
                            result_display,
                        },
                    ),
                    None => None,
                },
            },
            _ => None,
        },
        _ => None,
    }
}

/// One content block, read off a concrete document.
fn read_block(j: &Json) -> (r: Option<IFlowContentBlock>)
    ensures
        (match r {
            Some(b) => read_block_v(jview(*j)) == Some(b@),
            None => read_block_v(jview(*j)) is None,
        }),
{
    match j {
        Json::Obj(ms) => match get_req_str(ms, "type") {
            Some(t) => {
                if string_eq_str(&t, "text") {
                    match get_req_str(ms, "text") {
                        Some(text) => Some(IFlowContentBlock::Text { text }),
                        None => None,
                    }
                } else if string_eq_str(&t, "tool_use") {
                    match (get_req_str(ms, "id"), get_req_str(ms, "name")) {
                        (Some(id), Some(name)) => match obj_get(ms, "input") {
                            Some(input) => Some(
                                IFlowContentBlock::ToolUse {
                                    id,
                                    name,
                                    input: json_clone(input),
                                },
                            ),
                            None => None,
                        },
                        _ => None,
                    }
                } else if string_eq_str(&t, "tool_result") {
                    match get_req_str(ms, "tool_use_id") {
                        Some(tool_use_id) => match obj_get(ms, "content") {
                            Some(c) => match read_trc(c) {
                                Some(content) => Some(
                                    IFlowContentBlock::ToolResult { tool_use_id, content },
                                ),
                                None => None,
                            },
                            None => None,
                        },
                        None => None,
                    }
                } else {
                    None
                }
            }
            None => None,
        },
        _ => None,
    }
}

/// A block list, read off concrete documents.
#[verifier::loop_isolation(false)]
fn read_blocks(v: &Vec<Json>) -> (r: Option<Vec<IFlowContentBlock>>)
    ensures
        (match r {
            Some(bs) => read_blocks_v(jview_seq(v@)) == Some(blocks_view(bs@)),
            None => read_blocks_v(jview_seq(v@)) is None,
        }),
{
    proof {
        lemma_jview_seq(v@);
    }
    let mut out: Vec<IFlowContentBlock> = Vec::new();
    let mut i: usize = 0;
    proof {
        assert(jview_seq(v@).take(0) =~= Seq::<JsonV>::empty());
        assert(blocks_view(out@) =~= Seq::<BlockV>::empty());
    }
    while i < v.len()
        invariant
            i <= v@.len(),
            out@.len() == i,
            read_blocks_v(jview_seq(v@).take(i as int)) == Some(blocks_view(out@)),
        decreases v@.len() - i,
    {
        proof {
            assert(jview_seq(v@).take(i + 1 as int).drop_last() =~= jview_seq(v@).take(i as int));
            assert(jview_seq(v@).take(i + 1 as int).last() == jview(v@[i as int]));
        }
        match read_block(&v[i]) {
            Some(b) => {
                let ghost outp = out@;
                let ghost bv = b@;
                out.push(b);
                proof {
                    assert(blocks_view(out@) =~= blocks_view(outp).push(bv));
                }
            }
            None => {
                proof {
                    assert(jview_seq(v@).take(v@.len() as int) =~= jview_seq(v@));
                    if read_blocks_v(jview_seq(v@)) is Some {
                        lemma_read_blocks_prefix(jview_seq(v@), i + 1);
                    }
                }
                return None;
            }
        }
        i = i + 1;
    }
    proof {
        assert(jview_seq(v@).take(v@.len() as int) =~= jview_seq(v@));
    }
    Some(out)
}

/// When a whole block list reads, so does each of its prefixes.
proof fn lemma_read_blocks_prefix(s: Seq<JsonV>, n: int)
    requires
        0 <= n <= s.len(),
        read_blocks_v(s) is Some,
    ensures
        read_blocks_v(s.take(n)) is Some,
        forall|d: int| 0 <= d < n ==> read_block_v(#[trigger] s[d]) is Some,
    decreases s.len(),
{
    if s.len() > 0 {
        assert(read_blocks_v(s.drop_last()) is Some && read_block_v(s.last()) is Some);
        lemma_read_blocks_prefix(s.drop_last(), if n < s.len() {
            n
        } else {
            s.len() - 1
        });
        if n < s.len() {
            assert(s.drop_last().take(n) =~= s.take(n));
        } else {
            assert(s.take(n) =~= s);
        }
        assert forall|d: int| 0 <= d < n implies read_block_v(#[trigger] s[d]) is Some by {
            if d < s.len() - 1 {
                assert(s.drop_last()[d] == s[d]);
                assert(read_block_v(s.drop_last()[d]) is Some);
            } else {
                assert(s[d] == s.last());
            }
        }
    }
}

/// A message payload, read off a concrete document.
fn read_message(j: &Json) -> (r: Option<IFlowMessage>)
    ensures
        (match r {
            Some(m) => read_message_v(jview(*j)) == Some(m@),
            None => read_message_v(jview(*j)) is None,
        }),
{
    match j {
        Json::Obj(ms) => {
            let id = get_opt_str(ms, "id");
            let message_type = get_opt_str(ms, "type");
            let role = get_req_str(ms, "role");
            let model = get_opt_str(ms, "model");
            let stop_reason = get_opt_str(ms, "stop_reason");
            match (id, message_type, role, model, stop_reason) {
                (Some(id), Some(message_type), Some(role), Some(model), Some(stop_reason)) => {
                    let content = match obj_get(ms, "content") {
                        Some(Json::Arr(a)) => read_blocks(a),
                        _ => None,
                    };
                    let usage: Option<Option<IFlowUsage>> = match obj_get(ms, "usage") {
                        None => Some(None),
                        Some(Json::Null) => Some(None),
                        Some(u) => match read_usage(u) {
                            Some(us) => Some(Some(us)),
                            None => None,
                        },
                    };
                    match (content, usage) {
                        (Some(content), Some(usage)) => Some(
                            IFlowMessage {
                                id,
                                message_type,
                                role,
                                content,
                                model,
                                stop_reason,
                                usage,
                            },
                        ),
                        _ => None,
                    }
                }
                _ => None,
            }
        }
        _ => None,
    }
}

/// A tool-call outcome, read off a concrete document.
fn read_tur(j: &Json) -> (r: Option<IFlowToolUseResult>)
    ensures
        (match r {
            Some(t) => read_tur_v(jview(*j)) == Some(t@),
            None => read_tur_v(jview(*j)) is None,
        }),
{
    match j {
        Json::Obj(ms) => match (get_req_str(ms, "toolName"), get_req_str(ms, "status"), get_u64(
            ms, "timestamp")) {
            (Some(tool_name), Some(status), Some(ts)) => Some(
                IFlowToolUseResult { tool_name, status, timestamp: ts },
            ),
            _ => None,
        },
        _ => None,
    }
}

/// A whole transcript record, read off a concrete document.
fn read_transcript(j: &Json) -> (r: Option<IFlowJsonlEvent>)
    ensures
        (match r {
            Some(ev) => read_transcript_v(jview(*j)) == Some(ev@),
            None => read_transcript_v(jview(*j)) is None,
        }),
{
    match j {
        Json::Obj(ms) => {
            let uuid = get_req_str(ms, "uuid");
            let parent_uuid = get_opt_str(ms, "parentUuid");
            let session_id = get_req_str(ms, "sessionId");
            let timestamp = get_req_str(ms, "timestamp");
            let event_type = get_req_str(ms, "type");
            let is_sidechain = get_bool(ms, "isSidechain");
            let user_type = get_req_str(ms, "userType");
            let cwd = get_opt_str(ms, "cwd");
            let git_branch = get_opt_str(ms, "gitBranch");
            let version = get_opt_str(ms, "version");
            match (uuid, parent_uuid, session_id, timestamp, event_type, is_sidechain, user_type,
                cwd, git_branch, version) {
                (
                    Some(uuid),
                    Some(parent_uuid),
                    Some(session_id),
                    Some(timestamp),
                    Some(event_type),
                    Some(is_sidechain),
                    Some(user_type),
                    Some(cwd),
                    Some(git_branch),
                    Some(version),
                ) => {
                    let message: Option<Option<IFlowMessage>> = match obj_get(ms, "message") {
                        None => Some(None),
                        Some(Json::Null) => Some(None),
                        Some(m) => match read_message(m) {
                            Some(msg) => Some(Some(msg)),
                            None => None,
                        },
                    };
                    let tool_use_result: Option<Option<IFlowToolUseResult>> = match obj_get(ms,
                        "toolUseResult") {
                        None => Some(None),
                        Some(Json::Null) => Some(None),
                        Some(t) => match read_tur(t) {
                            Some(tr) => Some(Some(tr)),
                            None => None,
                        },
                    };
                    match (message, tool_use_result) {
                        (Some(message), Some(tool_use_result)) => Some(
                            IFlowJsonlEvent {
                                uuid,
                                parent_uuid,
                                session_id,
                                timestamp,
                                event_type,
                                is_sidechain,
                                user_type,
                                message,
                                cwd,
                                git_branch,
                                version,
                                tool_use_result,
                            },
                        ),
                        _ => None,
                    }
                }
                _ => None,
            }
        }
        _ => None,
    }
}

/// The text blocks of a message, flattened to wire documents, in order.
pub open spec fn text_blocks_json(cs: Seq<BlockV>) -> Seq<JsonV>
    decreases cs.len(),
{
    if cs.len() == 0 {
        Seq::empty()
    } else {
        text_blocks_json(cs.drop_last()) + (match cs.last() {
            BlockV::Text { text } => seq![
                JsonV::Obj(seq![("text"@, JsonV::Str(text)), ("type"@, JsonV::Str("text"@))]),
            ],
            _ => Seq::empty(),
        })
    }
}

/// The tool-use blocks of a message, flattened to wire documents, in order.
pub open spec fn tool_blocks_json(cs: Seq<BlockV>) -> Seq<JsonV>
    decreases cs.len(),
{
    if cs.len() == 0 {
        Seq::empty()
    } else {
        tool_blocks_json(cs.drop_last()) + (match cs.last() {
            BlockV::ToolUse { id, name, input } => seq![
                JsonV::Obj(
                    seq![
                        ("id"@, JsonV::Str(id)),
                        ("input"@, input),
                        ("name"@, JsonV::Str(name)),
                        ("type"@, JsonV::Str("tool_use"@)),
                    ],
                ),
            ],
            _ => Seq::empty(),
        })
    }
}

/// An optional string as a wire document: its text, or null.
pub open spec fn opt_str_json(o: Option<Seq<char>>) -> JsonV {
    match o {
        Some(s) => JsonV::Str(s),
        None => JsonV::Null,
    }
}

/// The one message document an assistant record is flattened to: all text
/// blocks in order, then all tool-use blocks, with the message's id,
/// model and stop reason as metadata.
pub open spec fn assistant_message_json(m: MessageV) -> JsonV {
    JsonV::Obj(
        seq![
            ("content"@, JsonV::Arr(text_blocks_json(m.content) + tool_blocks_json(m.content))),
            ("id"@, opt_str_json(m.id)),
            ("model"@, opt_str_json(m.model)),
            ("stop_reason"@, opt_str_json(m.stop_reason)),
        ],
    )
}

/// The canonical event an assistant record denotes.
pub open spec fn spec_assistant_event(ev: TranscriptV) -> Option<EventV> {
    match ev.message {
        Some(m) => Some(EventV::Assistant { message: assistant_message_json(m) }),
        None => None,
    }
}

/// The first tool-use block of a message, if any.
pub open spec fn first_tool_use(cs: Seq<BlockV>) -> Option<BlockV>
    decreases cs.len(),
{
    if cs.len() == 0 {
        None
    } else if cs[0] is ToolUse {
        Some(cs[0])
    } else {
        first_tool_use(cs.drop_first())
    }
}

/// The canonical event a tool record denotes: a tool end when the record
/// carries a tool-call outcome, else a tool start for the first tool-use
/// block of its message.
pub open spec fn spec_tool_event(ev: TranscriptV) -> Option<EventV> {
    match ev.tool_use_result {
        Some(tr) => Some(
            EventV::ToolEnd { tool_name: tr.tool_name, output: Some("Status: "@ + tr.status) },
        ),
        None => match ev.message {
            Some(m) => match first_tool_use(m.content) {
                Some(BlockV::ToolUse { id, name, input }) => Some(
                    EventV::ToolStart { tool_name: name, input },
                ),
                _ => None,
            },
            None => None,
        },
    }
}

/// The canonical event a transcript record denotes: nothing for `user`
/// records and unknown record types.
pub open spec fn spec_stream_event(ev: TranscriptV) -> Option<EventV> {
    if ev.event_type == "user"@ {
        None
    } else if ev.event_type == "assistant"@ {
        spec_assistant_event(ev)
    } else if ev.event_type == "tool_result"@ || ev.event_type == "tool"@ {
        spec_tool_event(ev)
    } else {
        None
    }
}

/// Does this record end the turn?  The transcript format has no explicit
/// end-of-turn marker, so a stop reason of exactly `STOP` or `max_tokens`
/// is taken as terminal — a best-effort heuristic, not a protocol
/// guarantee.
pub open spec fn spec_is_session_end(ev: TranscriptV) -> bool {
    match ev.message {
        Some(m) => match m.stop_reason {
            Some(sr) => sr == "STOP"@ || sr == "max_tokens"@,
            None => false,
        },
        None => false,
    }
}

/// The transcript record one raw line denotes, if any.
pub open spec fn transcript_line(s: Seq<char>) -> Option<TranscriptV> {
    if trim_spec(s).len() == 0 {
        None
    } else {
        match json_parse(trim_spec(s)) {
            Some(jv) => read_transcript_v(jv),
            None => None,
        }
    }
}

/// An optional string field as a concrete document.
fn opt_to_json(o: &Option<String>) -> (r: Json)
    ensures
        jview(r) == opt_str_json(opt_view(*o)),
{
    match o {
        Some(s) => Json::Str(s.clone()),
        None => Json::Null,
    }
}

impl IFlowJsonlEvent {
    /// One transcript line, parsed: exactly what [`transcript_line`] says.
    pub fn parse_line(line: &str) -> (r: Option<IFlowJsonlEvent>)
        ensures
            (match r {
                Some(ev) => transcript_line(line@) == Some(ev@),
                None => transcript_line(line@) is None,
            }),
    {
        let t = trim_line(line);
        if t.as_str().unicode_len() == 0 {
            return None;
        }
        match parse_raw_json(t.as_str()) {
            Some(j) => read_transcript(&j),
            None => None,
        }
    }

    /// The canonical event this record denotes, exactly as
    /// [`spec_stream_event`] says.
    pub fn to_stream_event(&self) -> (r: Option<StreamEvent>)
        ensures
            (match r {
                Some(e) => spec_stream_event(self@) == Some(e@),
                None => spec_stream_event(self@) is None,
            }),
    {
        if string_eq_str(&self.event_type, "user") {
            None
        } else if string_eq_str(&self.event_type, "assistant") {
            self.to_assistant_event()
        } else if string_eq_str(&self.event_type, "tool_result") || string_eq_str(
            &self.event_type, "tool") {
            self.to_tool_event()
        } else {
            None
        }
    }

    /// The assistant record's flattened message event.
    #[verifier::loop_isolation(false)]
    #[verifier::rlimit(60)]
    fn to_assistant_event(&self) -> (r: Option<StreamEvent>)
        ensures
            (match r {
                Some(e) => spec_assistant_event(self@) == Some(e@),
                None => spec_assistant_event(self@) is None,
            }),
    {
        let message = match &self.message {
            Some(m) => m,
            None => {
                return None;
            }
        };
        let ghost bv = blocks_view(message.content@);
        let mut texts: Vec<Json> = Vec::new();
        let mut tools: Vec<Json> = Vec::new();
        let mut i: usize = 0;
        proof {
            assert(bv.take(0) =~= Seq::<BlockV>::empty());
            assert(jview_seq(texts@) =~= Seq::<JsonV>::empty());
            assert(jview_seq(tools@) =~= Seq::<JsonV>::empty());
        }
        while i < message.content.len()
            invariant
                i <= message.content@.len(),
                bv == blocks_view(message.content@),
                bv.len() == message.content@.len(),
                jview_seq(texts@) == text_blocks_json(bv.take(i as int)),
                jview_seq(tools@) == tool_blocks_json(bv.take(i as int)),
            decreases message.content@.len() - i,
        {
            proof {
                assert(bv.take(i + 1 as int).drop_last() =~= bv.take(i as int));
                assert(bv.take(i + 1 as int).last() == bv[i as int]);
                assert(bv[i as int] == message.content@[i as int]@);
            }
            match &message.content[i] {
                IFlowContentBlock::Text { text } => {
                    let mut ms: Vec<(String, Json)> = Vec::new();
                    ms.push(("text".to_owned(), Json::Str(text.clone())));
                    ms.push(("type".to_owned(), Json::Str("text".to_owned())));
                    let ghost textsv = texts@;
                    proof {
                        lemma_jview_mems(ms@);
                        assert(jview_mems(ms@) =~= seq![
                            ("text"@, JsonV::Str(text@)),
                            ("type"@, JsonV::Str("text"@)),
                        ]);
                    }
                    texts.push(Json::Obj(ms));
                    proof {
                        lemma_jview_seq(texts@);
                        lemma_jview_seq(textsv);
                        assert(texts@.drop_last() =~= textsv);
                        assert(jview_seq(texts@) =~= text_blocks_json(bv.take(i + 1 as int)));
                        assert(tool_blocks_json(bv.take(i + 1 as int)) =~= jview_seq(tools@));
                    }
                }
                IFlowContentBlock::ToolUse { id, name, input } => {
                    let mut ms: Vec<(String, Json)> = Vec::new();
                    ms.push(("id".to_owned(), Json::Str(id.clone())));
                    ms.push(("input".to_owned(), json_clone(input)));
                    ms.push(("name".to_owned(), Json::Str(name.clone())));
                    ms.push(("type".to_owned(), Json::Str("tool_use".to_owned())));
                    let ghost toolsv = tools@;
                    proof {
                        lemma_jview_mems(ms@);
                        assert(jview_mems(ms@) =~= seq![
                            ("id"@, JsonV::Str(id@)),
                            ("input"@, jview(*input)),
                            ("name"@, JsonV::Str(name@)),
                            ("type"@, JsonV::Str("tool_use"@)),
                        ]);
                    }
                    tools.push(Json::Obj(ms));
                    proof {
                        lemma_jview_seq(tools@);
                        lemma_jview_seq(toolsv);
                        assert(tools@.drop_last() =~= toolsv);
                        assert(jview_seq(tools@) =~= tool_blocks_json(bv.take(i + 1 as int)));
                        assert(text_blocks_json(bv.take(i + 1 as int)) =~= jview_seq(texts@));
                    }
                }
                IFlowContentBlock::ToolResult { .. } => {
                    proof {
                        assert(text_blocks_json(bv.take(i + 1 as int)) =~= jview_seq(texts@));
                        assert(tool_blocks_json(bv.take(i + 1 as int)) =~= jview_seq(tools@));
                    }
                }
            }
            i = i + 1;
        }
        proof {
            assert(bv.take(bv.len() as int) =~= bv);
        }
        let ghost textsv = texts@;
        let ghost toolsv = tools@;
        let mut combined = texts;
        let mut tools_m = tools;
        combined.append(&mut tools_m);
        proof {
            lemma_jview_seq_concat(textsv, toolsv);
        }
        let mut ms: Vec<(String, Json)> = Vec::new();
        ms.push(("content".to_owned(), Json::Arr(combined)));
        ms.push(("id".to_owned(), opt_to_json(&message.id)));
        ms.push(("model".to_owned(), opt_to_json(&message.model)));
        ms.push(("stop_reason".to_owned(), opt_to_json(&message.stop_reason)));
        proof {
            lemma_jview_mems(ms@);
            assert(jview_mems(ms@) =~= seq![
                ("content"@, JsonV::Arr(text_blocks_json(bv) + tool_blocks_json(bv))),
                ("id"@, opt_str_json(opt_view(message.id))),
                ("model"@, opt_str_json(opt_view(message.model))),
                ("stop_reason"@, opt_str_json(opt_view(message.stop_reason))),
            ]);
            assert(JsonV::Obj(jview_mems(ms@)) =~~= assistant_message_json(message@));
        }
        Some(StreamEvent::Assistant { message: Json::Obj(ms) })
    }

    /// The tool record's event: a tool end for a reported outcome, else a
    /// tool start for the first tool-use block.
    #[verifier::loop_isolation(false)]
    fn to_tool_event(&self) -> (r: Option<StreamEvent>)
        ensures
            (match r {
                Some(e) => spec_tool_event(self@) == Some(e@),
                None => spec_tool_event(self@) is None,
            }),
    {
        match &self.tool_use_result {
            Some(tr) => {
                let out = "Status: ".to_owned().concat(tr.status.as_str());
                return Some(
                    StreamEvent::ToolEnd {
                        tool_name: tr.tool_name.clone(),
                        output: Some(out),
                    },
                );
            }
            None => {}
        }
        let message = match &self.message {
            Some(m) => m,
            None => {
                return None;
            }
        };
        let ghost bv = blocks_view(message.content@);
        let mut i: usize = 0;
        proof {
            assert(bv.skip(0) =~= bv);
        }
        while i < message.content.len()
            invariant
                i <= message.content@.len(),
                bv == blocks_view(message.content@),
                bv.len() == message.content@.len(),
                first_tool_use(bv) == first_tool_use(bv.skip(i as int)),
            decreases message.content@.len() - i,
        {
            proof {
                assert(bv.skip(i as int)[0] == bv[i as int]);
                assert(bv[i as int] == message.content@[i as int]@);
                assert(bv.skip(i as int).drop_first() =~= bv.skip(i + 1 as int));
            }
            match &message.content[i] {
                IFlowContentBlock::ToolUse { id, name, input } => {
                    return Some(
                        StreamEvent::ToolStart {
                            tool_name: name.clone(),
                            input: json_clone(input),
                        },
                    );
                }
                _ => {}
            }
            i = i + 1;
        }
        proof {
            assert(bv.skip(bv.len() as int) =~= Seq::<BlockV>::empty());
        }
        None
    }

    /// Does this record end the turn, per the documented stop-reason
    /// heuristic?
    pub fn is_session_end(&self) -> (r: bool)
        ensures
            r == spec_is_session_end(self@),
    {
        match &self.message {
            Some(m) => match &m.stop_reason {
                Some(sr) => string_eq_str(sr, "STOP") || string_eq_str(sr, "max_tokens"),
                None => false,
            },
            None => false,
        }
    }
}

/// The models of concatenated vectors concatenate.
proof fn lemma_jview_seq_concat(a: Seq<Json>, b: Seq<Json>)
    ensures
        jview_seq(a + b) == jview_seq(a) + jview_seq(b),
{
    lemma_jview_seq(a + b);
    lemma_jview_seq(a);
    lemma_jview_seq(b);
    assert forall|i: int| 0 <= i < a.len() + b.len() implies jview_seq(a + b)[i] == (jview_seq(a)
        + jview_seq(b))[i] by {
        if i < a.len() {
            assert((a + b)[i] == a[i]);
        } else {
            assert((a + b)[i] == b[i - a.len()]);
        }
    }
    assert(jview_seq(a + b) =~= jview_seq(a) + jview_seq(b));
}

} // verus!
