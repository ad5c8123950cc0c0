//! The transcript tailer's state.
//!
//! File-based sessions are followed by polling a growing file: sleep a
//! fixed short interval, re-check the file length, read what was appended,
//! and cut it into complete lines for the normalizer.  The monitored
//! file's path is not known up front: the session first learns its real
//! id from the diagnostic channel, then resolves the id to a transcript
//! path by the backend's on-disk naming convention, retrying with backoff
//! while the child process has not created the file yet.  All sleeping,
//! reading and path probing is the shell's; every decision is here.

use vstd::prelude::*;

verus! {

/// How long one polling interval lasts.
pub const POLL_INTERVAL_MILLIS: u64 = 200;

/// How often resolving the transcript path is retried before the session
/// is ended with an error event instead of hanging.
pub const RESOLVE_RETRY_BUDGET: u32 = 10;

/// The backoff before the next resolution attempt: doubling from 100 ms,
/// capped at 800 ms; nothing once the budget is spent.
pub fn resolve_backoff(attempt: u32) -> (r: Option<u64>)
    ensures
        attempt >= RESOLVE_RETRY_BUDGET ==> r is None,
        attempt < RESOLVE_RETRY_BUDGET ==> r == Some(
            if attempt == 0 { 100u64 } else if attempt == 1 { 200u64 } else if attempt == 2 {
                400u64
            } else {
                800u64
            },
        ),
{
    if attempt >= RESOLVE_RETRY_BUDGET {
        None
    } else if attempt == 0 {
        Some(100)
    } else if attempt == 1 {
        Some(200)
    } else if attempt == 2 {
        Some(400)
    } else {
        Some(800)
    }
}

/// The file name a session's transcript is stored under.
pub fn transcript_file_name(session_id: &str) -> (r: String)
    ensures
        r@ == "session-"@ + session_id@ + ".jsonl"@,
{
    let mut cs = crate::json::str_to_chars("session-");
    let mut idc = crate::json::str_to_chars(session_id);
    cs.append(&mut idc);
    let mut ext = crate::json::str_to_chars(".jsonl");
    cs.append(&mut ext);
    proof {
        assert(cs@ =~= "session-"@ + session_id@ + ".jsonl"@);
    }
    crate::json::string_from_chars(&cs)
}

/// A project path encoded for the transcript directory name: every path
/// separator or drive-colon becomes a hyphen.
pub open spec fn encode_char(c: char) -> char {
    if c == '/' || c == '\\' || c == ':' {
        '-'
    } else {
        c
    }
}

/// The directory-name encoding of a project path.
#[verifier::loop_isolation(false)]
pub fn encode_project_dir(path: &str) -> (r: String)
    ensures
        r@ == path@.map_values(|c: char| encode_char(c)),
{
    let cs = crate::json::str_to_chars(path);
    let mut out: Vec<char> = Vec::new();
    let mut i: usize = 0;
    proof {
        assert(out@ =~= path@.map_values(|c: char| encode_char(c)).take(0));
    }
    while i < cs.len()
        invariant
            i <= cs@.len(),
            cs@ == path@,
            out@ == path@.map_values(|c: char| encode_char(c)).take(i as int),
        decreases cs@.len() - i,
    {
        let c = cs[i];
        proof {
            assert(path@.map_values(|c: char| encode_char(c)).take(i + 1 as int)
                =~= path@.map_values(|c: char| encode_char(c)).take(i as int).push(encode_char(
                path@[i as int])));
        }
        if c == '/' || c == '\\' || c == ':' {
            out.push('-');
        } else {
            out.push(c);
        }
        i = i + 1;
    }
    proof {
        assert(path@.map_values(|c: char| encode_char(c)).take(cs@.len() as int)
            =~= path@.map_values(|c: char| encode_char(c)));
    }
    crate::json::string_from_chars(&out)
}

/// The tail cursor: how far into the transcript has been read.
pub struct TailCursor {
    pub pos: u64,
}

impl TailCursor {
    /// A cursor opened at the end of the file as it stands, so only lines
    /// appended after the session started are relayed.
    pub fn open_at(len: u64) -> (r: TailCursor)
        ensures
            r.pos == len,
    {
        TailCursor { pos: len }
    }

    /// One poll: given the file's current length, the byte range to read,
    /// if the file has grown.  A shrunken file (truncated by the backend)
    /// resets the cursor without reading.
    pub fn observe(&mut self, len: u64) -> (r: Option<(u64, u64)>)
        ensures
            len > old(self).pos ==> r == Some((old(self).pos, len)) && final(self).pos == len,
            len == old(self).pos ==> r is None && final(self).pos == old(self).pos,
            len < old(self).pos ==> r is None && final(self).pos == len,
    {
        if len > self.pos {
            let from = self.pos;
            self.pos = len;
            Some((from, len))
        } else if len < self.pos {
            self.pos = len;
            None
        } else {
            None
        }
    }
}

/// The incomplete tail of a text: what follows its last newline.
pub open spec fn line_tail(s: Seq<char>) -> Seq<char>
    decreases s.len(),
{
    if s.len() == 0 {
        Seq::empty()
    } else if s.last() == '\n' {
        Seq::empty()
    } else {
        line_tail(s.drop_last()).push(s.last())
    }
}

/// The complete lines of a text, in order: each piece ended by a newline,
/// the newline excluded; what follows the last newline is not a line yet.
pub open spec fn complete_lines(s: Seq<char>) -> Seq<Seq<char>>
    decreases s.len(),
{
    if s.len() == 0 {
        Seq::empty()
    } else if s.last() == '\n' {
        complete_lines(s.drop_last()).push(line_tail(s.drop_last()))
    } else {
        complete_lines(s.drop_last())
    }
}

/// A text without newlines has no complete line and is all tail.
proof fn lemma_no_newline(s: Seq<char>)
    requires
        forall|d: int| 0 <= d < s.len() ==> s[d] != '\n',
    ensures
        complete_lines(s).len() == 0,
        line_tail(s) == s,
    decreases s.len(),
{
    if s.len() > 0 {
        lemma_no_newline(s.drop_last());
        assert(line_tail(s) =~= s);
    }
}

/// The line buffer: appended text accumulates until a newline completes a
/// line.
pub struct LineBuffer {
    rest: Vec<char>,
}

impl LineBuffer {
    /// The buffered incomplete tail.
    pub closed spec fn tail(self) -> Seq<char> {
        self.rest@
    }

    /// The buffered tail never holds a newline.
    pub closed spec fn wf(self) -> bool {
        forall|d: int| 0 <= d < self.rest@.len() ==> self.rest@[d] != '\n'
    }

    /// An empty buffer.
    pub fn new() -> (r: LineBuffer)
        ensures
            r.wf(),
            r.tail() == Seq::<char>::empty(),
    {
        LineBuffer { rest: Vec::new() }
    }

    /// Feed appended text: the newly completed lines come back in order,
    /// and the unfinished tail stays buffered.
    #[verifier::loop_isolation(false)]
    pub fn push_text(&mut self, chunk: &str) -> (r: Vec<String>)
        requires
            old(self).wf(),
        ensures
            final(self).wf(),
            ({
                let whole = old(self).tail() + chunk@;
                &&& r@.len() == complete_lines(whole).len()
                &&& (forall|d: int|
                    0 <= d < r@.len() ==> (#[trigger] r@[d])@ == complete_lines(whole)[d])
                &&& final(self).tail() == line_tail(whole)
            }),
    {
        let ghost whole = self.rest@ + chunk@;
        let ghost base = self.rest@.len() as int;
        let cs = crate::json::str_to_chars(chunk);
        let mut out: Vec<String> = Vec::new();
        let mut i: usize = 0;
        proof {
            assert(whole.take(base) =~= self.rest@);
            lemma_no_newline(whole.take(base));
        }
        while i < cs.len()
            invariant
                i <= cs@.len(),
                cs@ == chunk@,
                whole == old(self).tail() + chunk@,
                base == old(self).tail().len(),
                out@.len() == complete_lines(whole.take(base + i)).len(),
                forall|d: int|
                    0 <= d < out@.len() ==> (#[trigger] out@[d])@ == complete_lines(whole.take(
                        base + i))[d],
                self.rest@ == line_tail(whole.take(base + i)),
                forall|d: int| 0 <= d < self.rest@.len() ==> self.rest@[d] != '\n',
            decreases cs@.len() - i,
        {
            let c = cs[i];
            let ghost pfx = whole.take(base + i);
            proof {
                assert(whole.take(base + i + 1).drop_last() =~= pfx);
                assert(whole.take(base + i + 1).last() == whole[base + i]);
                assert(whole[base + i] == cs@[i as int]);
            }
            if c == '\n' {
                let line = crate::json::string_from_chars(&self.rest);
                let ghost outp = out@;
                out.push(line);
                self.rest = Vec::new();
                proof {
                    assert(complete_lines(whole.take(base + i + 1)) =~= complete_lines(pfx).push(
                        line_tail(pfx)));
                }
            } else {
                self.rest.push(c);
                proof {
                    assert(complete_lines(whole.take(base + i + 1)) == complete_lines(pfx));
                    assert(line_tail(whole.take(base + i + 1)) =~= line_tail(pfx).push(c));
                }
            }
            i = i + 1;
        }
        proof {
            assert(whole.take(base + cs@.len()) =~= whole);
        }
        out
    }
}

} // verus!
