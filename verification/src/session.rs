//! Session orchestration decisions.
//!
//! A session's read loop feeds raw lines through a [`TurnRelay`], which
//! normalizes them and guarantees the central invariant of the engine:
//! exactly one `SessionEnd` event is relayed per session lifetime, whether
//! the process exited cleanly, crashed, or was killed.  The replacement
//! and interrupt decisions of the orchestrator live here too; the shell
//! around the library only spawns, reads and kills as these functions say.

use crate::events::{EventV, StreamEvent};
use crate::json::{obj_get, obj_lookup, Json, JsonV};
use crate::pipe::{line_event, parse_line};
use crate::registry::SessionRegistry;
use crate::transcript::{spec_is_session_end, spec_stream_event, transcript_line,
    IFlowJsonlEvent};
use vstd::prelude::*;

verus! {

/// How many `SessionEnd` events a relayed sequence holds.
pub open spec fn count_ends(s: Seq<EventV>) -> nat
    decreases s.len(),
{
    if s.len() == 0 {
        0
    } else {
        count_ends(s.drop_last()) + (if s.last() is SessionEnd {
            1nat
        } else {
            0nat
        })
    }
}

/// The relay for one session turn: it forwards each line's event to the
/// UI boundary and closes the turn with a synthetic `SessionEnd` when the
/// stream ends, never relaying a second one.
pub struct TurnRelay {
    ended: bool,
    log: Ghost<Seq<EventV>>,
}

impl TurnRelay {
    /// The events relayed so far, in order.
    pub closed spec fn log(self) -> Seq<EventV> {
        self.log@
    }

    /// Has the terminal event been relayed?
    pub closed spec fn is_ended(self) -> bool {
        self.ended
    }

    /// A closed relay has relayed exactly one `SessionEnd`; an open one,
    /// none yet.
    pub closed spec fn wf(self) -> bool {
        count_ends(self.log@) == (if self.ended {
            1nat
        } else {
            0nat
        })
    }

    /// A fresh relay: nothing relayed, turn open.
    pub fn new() -> (r: TurnRelay)
        ensures
            r.wf(),
            !r.is_ended(),
            r.log() == Seq::<EventV>::empty(),
    {
        TurnRelay { ended: false, log: Ghost(Seq::empty()) }
    }

    /// Relay one raw line.  After the turn has ended nothing more is
    /// relayed; otherwise the line's event, if it has one, is relayed,
    /// and a `SessionEnd` seen on the wire closes the turn.
    pub fn on_line(&mut self, line: &str) -> (r: Option<StreamEvent>)
        requires
            old(self).wf(),
        ensures
            final(self).wf(),
            old(self).is_ended() ==> r is None && *final(self) == *old(self),
            !old(self).is_ended() ==> (match line_event(line@) {
                None => r is None && *final(self) == *old(self),
                Some(ev) => {
                    &&& r matches Some(e) && e@ == ev
                    &&& final(self).log() == old(self).log().push(ev)
                    &&& final(self).is_ended() == (ev is SessionEnd)
                },
            }),
    {
        if self.ended {
            return None;
        }
        match parse_line(line) {
            Some(e) => {
                proof {
                    assert(self.log@.push(e@).drop_last() =~= self.log@);
                }
                if matches!(e, StreamEvent::SessionEnd) {
                    self.ended = true;
                }
                self.log = Ghost(self.log@.push(e@));
                Some(e)
            }
            None => None,
        }
    }

    /// Close the turn: when the stream ends, a synthetic `SessionEnd` is
    /// relayed unless one was already seen on the wire, so the UI boundary
    /// is always told the turn is over, exactly once.
    pub fn on_close(&mut self) -> (r: Option<StreamEvent>)
        requires
            old(self).wf(),
        ensures
            final(self).wf(),
            final(self).is_ended(),
            count_ends(final(self).log()) == 1,
            old(self).is_ended() ==> r is None && *final(self) == *old(self),
            !old(self).is_ended() ==> (r matches Some(e) && e@ == EventV::SessionEnd && final(
                self).log() == old(self).log().push(EventV::SessionEnd)),
    {
        if self.ended {
            return None;
        }
        proof {
            assert(self.log@.push(EventV::SessionEnd).drop_last() =~= self.log@);
        }
        self.ended = true;
        self.log = Ghost(self.log@.push(EventV::SessionEnd));
        Some(StreamEvent::SessionEnd)
    }
}

/// A transcript record's event is never itself the terminal event: the
/// transcript schema has no end-of-turn record, which is why the
/// stop-reason heuristic exists.
proof fn lemma_transcript_event_not_end(tv: crate::transcript::TranscriptV)
    ensures
        (match spec_stream_event(tv) {
            Some(ev) => !(ev is SessionEnd),
            None => true,
        }),
{
}

/// The relay for one tail-mode turn: it forwards each transcript record's
/// event to the UI boundary and closes the turn when the stop-reason
/// heuristic fires, when tailing is abandoned with an error, or when the
/// monitor stops — relaying exactly one terminal event per lifetime,
/// like the pipe-mode [`TurnRelay`].
pub struct TailRelay {
    ended: bool,
    log: Ghost<Seq<EventV>>,
}

impl TailRelay {
    /// The events relayed so far, in order.
    pub closed spec fn log(self) -> Seq<EventV> {
        self.log@
    }

    /// Has the terminal event been relayed?
    pub closed spec fn is_ended(self) -> bool {
        self.ended
    }

    /// A closed relay has relayed exactly one `SessionEnd`; an open one,
    /// none yet.
    pub closed spec fn wf(self) -> bool {
        count_ends(self.log@) == (if self.ended {
            1nat
        } else {
            0nat
        })
    }

    /// A fresh relay: nothing relayed, turn open.
    pub fn new() -> (r: TailRelay)
        ensures
            r.wf(),
            !r.is_ended(),
            r.log() == Seq::<EventV>::empty(),
    {
        TailRelay { ended: false, log: Ghost(Seq::empty()) }
    }

    /// Relay one appended transcript line.  The first component is the
    /// record's event, if the line holds a record that denotes one; the
    /// second is the terminal event, relayed when the record's stop
    /// reason is terminal per the documented heuristic.  After the turn
    /// has ended nothing more is relayed.
    pub fn on_line(&mut self, line: &str) -> (r: (Option<StreamEvent>, Option<StreamEvent>))
        requires
            old(self).wf(),
        ensures
            final(self).wf(),
            old(self).is_ended() ==> r == (None::<StreamEvent>, None::<StreamEvent>) && *final(
                self) == *old(self),
            !old(self).is_ended() ==> (match transcript_line(line@) {
                None => r == (None::<StreamEvent>, None::<StreamEvent>) && *final(self) == *old(
                    self),
                Some(tv) => {
                    &&& (match spec_stream_event(tv) {
                        Some(ev) => r.0 matches Some(e) && e@ == ev,
                        None => r.0 is None,
                    })
                    &&& (if spec_is_session_end(tv) {
                        &&& r.1 matches Some(e) && e@ == EventV::SessionEnd
                        &&& final(self).is_ended()
                    } else {
                        r.1 is None && !final(self).is_ended()
                    })
                },
            }),
    {
        if self.ended {
            return (None, None);
        }
        let record = match IFlowJsonlEvent::parse_line(line) {
            Some(rec) => rec,
            None => {
                return (None, None);
            }
        };
        let is_end = record.is_session_end();
        let event = record.to_stream_event();
        proof {
            let ghost tv = transcript_line(line@)->Some_0;
            lemma_transcript_event_not_end(tv);
            match &event {
                Some(e) => {
                    let l1 = self.log@.push(e@);
                    assert(l1.drop_last() =~= self.log@);
                    assert(count_ends(l1) == count_ends(self.log@));
                    assert(l1.push(EventV::SessionEnd).drop_last() =~= l1);
                    assert(count_ends(l1.push(EventV::SessionEnd)) == count_ends(l1) + 1);
                }
                None => {
                    assert(self.log@.push(EventV::SessionEnd).drop_last() =~= self.log@);
                    assert(count_ends(self.log@.push(EventV::SessionEnd)) == count_ends(
                        self.log@) + 1);
                }
            }
        }
        match &event {
            Some(e) => {
                self.log = Ghost(self.log@.push(e@));
            }
            None => {}
        }
        let end = if is_end {
            self.ended = true;
            self.log = Ghost(self.log@.push(EventV::SessionEnd));
            Some(StreamEvent::SessionEnd)
        } else {
            None
        };
        (event, end)
    }

    /// Abandon the turn with an error: when resolving or reading the
    /// transcript fails for good, the session is ended with an error
    /// event followed by the terminal event, rather than hanging.
    pub fn error(&mut self, message: String) -> (r: Option<(StreamEvent, StreamEvent)>)
        requires
            old(self).wf(),
        ensures
            final(self).wf(),
            final(self).is_ended(),
            old(self).is_ended() ==> r is None && *final(self) == *old(self),
            !old(self).is_ended() ==> (r matches Some(p) && p.0@ == (EventV::Error {
                error_text: message@,
            }) && p.1@ == EventV::SessionEnd),
    {
        if self.ended {
            return None;
        }
        proof {
            let ev = EventV::Error { error_text: message@ };
            let l1 = self.log@.push(ev);
            assert(l1.drop_last() =~= self.log@);
            assert(count_ends(l1) == count_ends(self.log@));
            assert(l1.push(EventV::SessionEnd).drop_last() =~= l1);
            assert(count_ends(l1.push(EventV::SessionEnd)) == count_ends(l1) + 1);
        }
        self.log = Ghost(self.log@.push(EventV::Error { error_text: message@ }).push(
            EventV::SessionEnd));
        self.ended = true;
        Some((StreamEvent::Error { message }, StreamEvent::SessionEnd))
    }

    /// Close the turn when the monitor stops: a terminal event is relayed
    /// unless one already was, so the UI boundary is always told the turn
    /// is over, exactly once.
    pub fn on_close(&mut self) -> (r: Option<StreamEvent>)
        requires
            old(self).wf(),
        ensures
            final(self).wf(),
            final(self).is_ended(),
            count_ends(final(self).log()) == 1,
            old(self).is_ended() ==> r is None && *final(self) == *old(self),
            !old(self).is_ended() ==> (r matches Some(e) && e@ == EventV::SessionEnd),
    {
        if self.ended {
            return None;
        }
        proof {
            assert(self.log@.push(EventV::SessionEnd).drop_last() =~= self.log@);
        }
        self.ended = true;
        self.log = Ghost(self.log@.push(EventV::SessionEnd));
        Some(StreamEvent::SessionEnd)
    }
}

/// Exactly one `SessionEnd` event is relayed per session lifetime: once a
/// turn's relay has closed — whatever lines it saw, however the process
/// died — its relayed sequence holds one and only one terminal event.
pub proof fn lemma_one_session_end(r: TurnRelay)
    requires
        r.wf(),
        r.is_ended(),
    ensures
        count_ends(r.log()) == 1,
{
}

/// The same guarantee holds of a tail-mode turn.
pub proof fn lemma_one_session_end_tailing(r: TailRelay)
    requires
        r.wf(),
        r.is_ended(),
    ensures
        count_ends(r.log()) == 1,
{
}

/// The canonical events one pipe session relays for a given sequence of
/// standard-output lines: each line's event in the order the lines were
/// observed, cut after a terminal event seen on the wire, and always
/// closed with the single terminal event.
pub open spec fn relayed_events(lines: Seq<Seq<char>>) -> Seq<EventV>
    decreases lines.len(),
{
    if lines.len() == 0 {
        seq![EventV::SessionEnd]
    } else {
        match line_event(lines[0]) {
            None => relayed_events(lines.drop_first()),
            Some(ev) => if ev is SessionEnd {
                seq![EventV::SessionEnd]
            } else {
                seq![ev] + relayed_events(lines.drop_first())
            },
        }
    }
}

/// Counting terminal events distributes over a prepended event.
proof fn lemma_count_ends_prepend(ev: EventV, rest: Seq<EventV>)
    ensures
        count_ends(seq![ev] + rest) == count_ends(rest) + (if ev is SessionEnd {
            1nat
        } else {
            0nat
        }),
    decreases rest.len(),
{
    if rest.len() == 0 {
        assert(seq![ev] + rest =~= seq![ev]);
        assert((seq![ev]).drop_last() =~= Seq::<EventV>::empty());
        assert(count_ends(Seq::<EventV>::empty()) == 0);
        assert((seq![ev]).last() == ev);
    } else {
        lemma_count_ends_prepend(ev, rest.drop_last());
        assert((seq![ev] + rest).drop_last() =~= seq![ev] + rest.drop_last());
        assert((seq![ev] + rest).last() == rest.last());
    }
}

/// The sequence form of the lifetime guarantee: whatever lines a session
/// turn observes, the relayed sequence holds exactly one terminal event.
pub proof fn lemma_relayed_events_single_end(lines: Seq<Seq<char>>)
    ensures
        count_ends(relayed_events(lines)) == 1,
    decreases lines.len(),
{
    assert(count_ends(seq![EventV::SessionEnd]) == 1) by {
        assert((seq![EventV::SessionEnd]).drop_last() =~= Seq::<EventV>::empty());
        assert(count_ends(Seq::<EventV>::empty()) == 0);
        assert((seq![EventV::SessionEnd]).last() == EventV::SessionEnd);
    }
    if lines.len() > 0 {
        lemma_relayed_events_single_end(lines.drop_first());
        match line_event(lines[0]) {
            None => {}
            Some(ev) => {
                if !(ev is SessionEnd) {
                    lemma_count_ends_prepend(ev, relayed_events(lines.drop_first()));
                }
            }
        }
    }
}

/// One whole session turn, driven over the lines its standard output
/// yielded before closing: the relayed events are exactly what
/// [`relayed_events`] assigns to those lines.
#[verifier::loop_isolation(false)]
#[verifier::rlimit(60)]
pub fn relay_lines(lines: &Vec<String>) -> (r: Vec<StreamEvent>)
    ensures
        r@.map_values(|e: StreamEvent| e@) == relayed_events(
            lines@.map_values(|l: String| l@),
        ),
{
    let ghost lv = lines@.map_values(|l: String| l@);
    let mut relay = TurnRelay::new();
    let mut out: Vec<StreamEvent> = Vec::new();
    let mut i: usize = 0;
    let mut done = false;
    proof {
        assert(lv.skip(0) =~= lv);
        assert(out@.map_values(|e: StreamEvent| e@) =~= Seq::<EventV>::empty());
    }
    while i < lines.len() && !done
        invariant
            i <= lines@.len(),
            lv == lines@.map_values(|l: String| l@),
            relay.wf(),
            relay.is_ended() == done,
            !done ==> relayed_events(lv) == out@.map_values(|e: StreamEvent| e@)
                + relayed_events(lv.skip(i as int)),
            done ==> relayed_events(lv) == out@.map_values(|e: StreamEvent| e@),
        decreases lines@.len() - i + (if done {
            0int
        } else {
            1int
        }),
    {
        let ghost outp = out@;
        proof {
            assert(lv.skip(i as int)[0] == lv[i as int]);
            assert(lv[i as int] == lines@[i as int]@);
            assert(lv.skip(i as int).drop_first() =~= lv.skip(i + 1 as int));
        }
        match relay.on_line(lines[i].as_str()) {
            Some(e) => {
                let is_end = matches!(e, StreamEvent::SessionEnd);
                let ghost ev = e@;
                out.push(e);
                proof {
                    assert(out@.map_values(|x: StreamEvent| x@) =~= outp.map_values(
                        |x: StreamEvent| x@).push(ev));
                }
                if is_end {
                    done = true;
                    proof {
                        assert(relayed_events(lv.skip(i as int)) == seq![EventV::SessionEnd]);
                        assert(out@.map_values(|x: StreamEvent| x@) =~= outp.map_values(
                            |x: StreamEvent| x@) + seq![EventV::SessionEnd]);
                        assert(relayed_events(lv) =~= out@.map_values(|x: StreamEvent| x@));
                    }
                } else {
                    proof {
                        assert(relayed_events(lv.skip(i as int)) == seq![ev] + relayed_events(
                            lv.skip(i + 1 as int)));
                        assert(outp.map_values(|x: StreamEvent| x@) + relayed_events(lv.skip(
                            i as int)) =~= out@.map_values(|x: StreamEvent| x@)
                            + relayed_events(lv.skip(i + 1 as int)));
                    }
                }
            }
            None => {}
        }
        i = i + 1;
    }
    if !done {
        proof {
            assert(lv.skip(i as int) =~= Seq::<Seq<char>>::empty());
        }
        match relay.on_close() {
            Some(end) => {
                let ghost outp = out@;
                out.push(end);
                proof {
                    assert(out@.map_values(|x: StreamEvent| x@) =~= outp.map_values(
                        |x: StreamEvent| x@).push(EventV::SessionEnd));
                    assert(relayed_events(lv) =~= out@.map_values(|x: StreamEvent| x@));
                }
            }
            None => {}
        }
    }
    out
}

/// The errors the orchestrator reports synchronously to a caller.
#[derive(Debug, PartialEq, Eq)]
pub enum CoreError {
    /// No process is registered under the named session id.
    SessionNotFound { session_id: String },
}

/// The backend-announced session id an event carries, if any: a string
/// stored under `session_id` among a system event's extra fields.
pub open spec fn announced_id(ev: EventV) -> Option<Seq<char>> {
    match ev {
        EventV::System { extra, .. } => match obj_lookup(extra, "session_id"@) {
            Some(JsonV::Str(s)) => Some(s),
            _ => None,
        },
        _ => None,
    }
}

/// The id announced by an event, read off the concrete value.
pub fn extract_announced_id(e: &StreamEvent) -> (r: Option<String>)
    ensures
        (match r {
            Some(id) => announced_id(e@) == Some(id@),
            None => announced_id(e@) is None,
        }),
{
    match e {
        StreamEvent::System { extra, .. } => match obj_get(extra, "session_id") {
            Some(Json::Str(s)) => Some(s.clone()),
            _ => None,
        },
        _ => None,
    }
}

/// Process one line observed on a session's standard output: relay its
/// event, and when the backend announces its real session id, rekey the
/// registry entry from `current_id` to the announced id.  The returned
/// pair carries the relayed event and, when reconciliation happened, the
/// announced id the caller must use from now on.
pub fn pipe_step(
    relay: &mut TurnRelay,
    reg: &mut SessionRegistry,
    current_id: &String,
    line: &str,
) -> (r: Option<(StreamEvent, Option<String>)>)
    requires
        old(relay).wf(),
        old(reg).wf(),
    ensures
        final(relay).wf(),
        final(reg).wf(),
        old(relay).is_ended() ==> r is None && *final(relay) == *old(relay) && *final(reg)
            == *old(reg),
        !old(relay).is_ended() ==> (match line_event(line@) {
            None => r is None && *final(relay) == *old(relay) && *final(reg) == *old(reg),
            Some(ev) => {
                &&& r matches Some(p)
                &&& p.0@ == ev
                &&& final(relay).log() == old(relay).log().push(ev)
                &&& final(relay).is_ended() == (ev is SessionEnd)
                &&& (match announced_id(ev) {
                    Some(nid) => {
                        &&& p.1 matches Some(s) && s@ == nid
                        &&& (old(reg)@.contains_key(current_id@) ==> final(reg)@ == old(
                            reg)@.remove(current_id@).insert(nid, old(reg)@[current_id@]))
                        &&& (!old(reg)@.contains_key(current_id@) ==> *final(reg) == *old(reg))
                    },
                    None => p.1 is None && *final(reg) == *old(reg),
                })
            },
        }),
{
    match relay.on_line(line) {
        Some(e) => {
            match extract_announced_id(&e) {
                Some(new_id) => {
                    let announced = new_id.clone();
                    reg.rename(current_id.as_str(), new_id);
                    Some((e, Some(announced)))
                }
                None => Some((e, None)),
            }
        }
        None => None,
    }
}

/// The decision at the head of a `continue` call: any process still
/// registered under this session id is deregistered and must be killed by
/// the caller before the replacement process is spawned.
pub fn begin_replace(reg: &mut SessionRegistry, session_id: &str) -> (kill: Option<u32>)
    requires
        old(reg).wf(),
    ensures
        final(reg).wf(),
        (match kill {
            Some(pid) => old(reg)@.contains_key(session_id@) && old(reg)@[session_id@] == pid
                && final(reg)@ == old(reg)@.remove(session_id@),
            None => !old(reg)@.contains_key(session_id@) && *final(reg) == *old(reg),
        }),
{
    reg.remove(session_id)
}

/// The decision at the tail of a `start` or `continue` call: the freshly
/// spawned process is registered under the session id.
pub fn register_process(reg: &mut SessionRegistry, session_id: String, pid: u32)
    requires
        old(reg).wf(),
    ensures
        final(reg).wf(),
        final(reg)@ == old(reg)@.insert(session_id@, pid),
{
    reg.insert(session_id, pid)
}

/// Two sequential `continue` calls on one session id never leave two
/// processes registered for it: the registry is a map, a replacement
/// overwrites, and after the second call the id resolves to the newest
/// process id alone.
pub proof fn lemma_replacement_keeps_newest(
    m: Map<Seq<char>, u32>,
    id: Seq<char>,
    p1: u32,
    p2: u32,
)
    ensures
        m.remove(id).insert(id, p1).remove(id).insert(id, p2) == m.remove(id).insert(id, p2),
        m.remove(id).insert(id, p2)[id] == p2,
{
    assert(m.remove(id).insert(id, p1).remove(id).insert(id, p2) =~= m.remove(id).insert(id,
        p2));
}

/// The interrupt decision: the process registered under `session_id` is
/// deregistered and returned for the caller to kill.  When no entry
/// exists the call fails with a "session not found" condition and asks
/// for no process operation at all.
pub fn interrupt_session(reg: &mut SessionRegistry, session_id: &String) -> (r: Result<
    u32,
    CoreError,
>)
    requires
        old(reg).wf(),
    ensures
        final(reg).wf(),
        (match r {
            Ok(pid) => old(reg)@.contains_key(session_id@) && old(reg)@[session_id@] == pid
                && final(reg)@ == old(reg)@.remove(session_id@),
            Err(e) => !old(reg)@.contains_key(session_id@) && *final(reg) == *old(reg) && (
            e matches CoreError::SessionNotFound { session_id: s } && s@ == session_id@),
        }),
{
    match reg.remove(session_id.as_str()) {
        Some(pid) => Ok(pid),
        None => Err(CoreError::SessionNotFound { session_id: session_id.clone() }),
    }
}

/// The lifecycle of one session, as the orchestrator tracks it.
#[derive(Debug, Clone, Copy, PartialEq, Eq, Structural)]
pub enum SessionState {
    /// The spawn was requested; no process is registered yet.
    Starting,
    /// A process is registered and its stream is being relayed.
    Running,
    /// The backend announced its real id; the registry entry is being
    /// rekeyed.
    Reconciling,
    /// The stream ended and the terminal event was relayed.
    Ended,
    /// An interrupt or a replacement killed the process.
    Terminated,
}

/// What the orchestrator observes about a session.
#[derive(Debug, Clone, Copy, PartialEq, Eq, Structural)]
pub enum SessionObservation {
    /// The launcher spawn succeeded and the placeholder id was registered.
    Spawned,
    /// A canonical event revealed the backend's real id.
    RealIdObserved,
    /// The registry entry was renamed to the real id.
    Renamed,
    /// The reader or tailer observed the end of the stream.
    StreamEnded,
    /// An interrupt request or a replacement arrived while live.
    Interrupted,
}

/// One step of the session lifecycle: the state an observation leads to,
/// or nothing when the observation cannot occur in that state.
pub fn session_transition(state: SessionState, obs: SessionObservation) -> (r: Option<
    SessionState,
>)
    ensures
        r == session_transition_spec(state, obs),
{
    match (state, obs) {
        (SessionState::Starting, SessionObservation::Spawned) => Some(SessionState::Running),
        (SessionState::Running, SessionObservation::RealIdObserved) => Some(
            SessionState::Reconciling,
        ),
        (SessionState::Reconciling, SessionObservation::Renamed) => Some(SessionState::Running),
        (SessionState::Running, SessionObservation::StreamEnded) => Some(SessionState::Ended),
        (SessionState::Running, SessionObservation::Interrupted) => Some(
            SessionState::Terminated,
        ),
        (SessionState::Reconciling, SessionObservation::Interrupted) => Some(
            SessionState::Terminated,
        ),
        _ => None,
    }
}

/// Ended and terminated sessions are final: no observation leads anywhere.
pub proof fn lemma_terminal_states_are_final(obs: SessionObservation)
    ensures
        session_transition_spec(SessionState::Ended, obs) is None,
        session_transition_spec(SessionState::Terminated, obs) is None,
{
}

/// The transition table, for stating facts about the lifecycle.
pub open spec fn session_transition_spec(state: SessionState, obs: SessionObservation) -> Option<
    SessionState,
> {
    match (state, obs) {
        (SessionState::Starting, SessionObservation::Spawned) => Some(SessionState::Running),
        (SessionState::Running, SessionObservation::RealIdObserved) => Some(
            SessionState::Reconciling,
        ),
        (SessionState::Reconciling, SessionObservation::Renamed) => Some(SessionState::Running),
        (SessionState::Running, SessionObservation::StreamEnded) => Some(SessionState::Ended),
        (SessionState::Running, SessionObservation::Interrupted) => Some(
            SessionState::Terminated,
        ),
        (SessionState::Reconciling, SessionObservation::Interrupted) => Some(
            SessionState::Terminated,
        ),
        _ => None,
    }
}

} // verus!
