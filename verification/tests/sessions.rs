//! Registry, relay and orchestration scenarios.

use polaris_core::events::StreamEvent;
use polaris_core::json::Json;
use polaris_core::registry::SessionRegistry;
use polaris_core::pipe::parse_line;
use polaris_core::session::{begin_replace, interrupt_session, pipe_step, register_process,
    relay_lines, session_transition, CoreError, SessionObservation, SessionState, TailRelay,
    TurnRelay};

fn s(text: &str) -> String {
    text.to_owned()
}

#[test]
fn registry_insert_lookup_remove() {
    let mut reg = SessionRegistry::new();
    reg.insert(s("a"), 10);
    reg.insert(s("b"), 20);
    assert_eq!(reg.lookup("a"), Some(10));
    assert_eq!(reg.lookup("b"), Some(20));
    assert_eq!(reg.lookup("c"), None);
    assert_eq!(reg.remove("a"), Some(10));
    assert_eq!(reg.lookup("a"), None);
    assert_eq!(reg.remove("a"), None);
}

#[test]
fn registry_insert_replaces() {
    let mut reg = SessionRegistry::new();
    reg.insert(s("a"), 10);
    reg.insert(s("a"), 11);
    assert_eq!(reg.lookup("a"), Some(11));
    assert_eq!(reg.remove("a"), Some(11));
    assert_eq!(reg.lookup("a"), None);
}

#[test]
fn rename_moves_the_process() {
    let mut reg = SessionRegistry::new();
    reg.insert(s("temp"), 77);
    reg.rename("temp", s("real"));
    assert_eq!(reg.lookup("temp"), None);
    assert_eq!(reg.lookup("real"), Some(77));
}

#[test]
fn rename_missing_key_is_a_quiet_no_op() {
    let mut reg = SessionRegistry::new();
    reg.insert(s("other"), 5);
    reg.rename("absent", s("new"));
    assert_eq!(reg.lookup("other"), Some(5));
    assert_eq!(reg.lookup("absent"), None);
    assert_eq!(reg.lookup("new"), None);
}

#[test]
fn interrupt_unknown_session_fails_without_any_kill() {
    let mut reg = SessionRegistry::new();
    reg.insert(s("alive"), 9);
    let r = interrupt_session(&mut reg, &s("ghost"));
    assert_eq!(r, Err(CoreError::SessionNotFound { session_id: s("ghost") }));
    assert_eq!(reg.lookup("alive"), Some(9));
}

#[test]
fn interrupt_known_session_hands_back_its_pid() {
    let mut reg = SessionRegistry::new();
    reg.insert(s("s1"), 321);
    assert_eq!(interrupt_session(&mut reg, &s("s1")), Ok(321));
    assert_eq!(reg.lookup("s1"), None);
}

#[test]
fn replacement_kills_the_old_process_and_keeps_only_the_new() {
    let mut reg = SessionRegistry::new();
    register_process(&mut reg, s("s1"), 100);
    let kill = begin_replace(&mut reg, "s1");
    assert_eq!(kill, Some(100));
    register_process(&mut reg, s("s1"), 200);
    assert_eq!(reg.lookup("s1"), Some(200));
    let again = begin_replace(&mut reg, "s1");
    assert_eq!(again, Some(200));
    register_process(&mut reg, s("s1"), 300);
    assert_eq!(reg.lookup("s1"), Some(300));
}

#[test]
fn relay_emits_exactly_one_session_end_on_clean_close() {
    let mut relay = TurnRelay::new();
    let e = relay.on_line("{\"type\":\"assistant\",\"message\":{\"content\":[]}}");
    assert!(matches!(e, Some(StreamEvent::Assistant { .. })));
    let end = relay.on_close();
    assert_eq!(end, Some(StreamEvent::SessionEnd));
    assert_eq!(relay.on_close(), None);
}

#[test]
fn relay_does_not_duplicate_a_wire_session_end() {
    let mut relay = TurnRelay::new();
    let e = relay.on_line("{\"type\":\"session_end\"}");
    assert_eq!(e, Some(StreamEvent::SessionEnd));
    assert_eq!(relay.on_close(), None);
    assert_eq!(relay.on_line("{\"type\":\"session_end\"}"), None);
}

#[test]
fn relay_skips_blank_and_malformed_lines() {
    let mut relay = TurnRelay::new();
    assert_eq!(relay.on_line(""), None);
    assert_eq!(relay.on_line("   \t "), None);
    assert_eq!(relay.on_line("{broken"), None);
    assert_eq!(relay.on_close(), Some(StreamEvent::SessionEnd));
}

#[test]
fn pipe_session_scenario_hello() {
    // Start a session: placeholder id registered, backend announces its
    // real id, one assistant message, stream closes.
    let mut reg = SessionRegistry::new();
    let temp = s("temp-uuid");
    register_process(&mut reg, temp.clone(), 4242);
    let mut relay = TurnRelay::new();

    let first = pipe_step(&mut relay, &mut reg,
        &temp, "{\"type\":\"system\",\"extra\":{\"session_id\":\"abc\"}}");
    let (event, renamed) = first.expect("the system line carries an event");
    assert!(matches!(event, StreamEvent::System { .. }));
    assert_eq!(renamed, Some(s("abc")));
    assert_eq!(reg.lookup("temp-uuid"), None);
    assert_eq!(reg.lookup("abc"), Some(4242));

    let second = pipe_step(&mut relay, &mut reg, &s("abc"),
        "{\"type\":\"assistant\",\"message\":{\"content\":[{\"type\":\"text\",\"text\":\"hi\"}]}}");
    let (event, renamed) = second.expect("the assistant line carries an event");
    match event {
        StreamEvent::Assistant { message } => {
            // The outside JSON parser hands object members over in key
            // order, so the inner block reads text before type.
            let expected = Json::Obj(vec![(
                s("content"),
                Json::Arr(vec![Json::Obj(vec![
                    (s("text"), Json::Str(s("hi"))),
                    (s("type"), Json::Str(s("text"))),
                ])]),
            )]);
            assert_eq!(message, expected);
        }
        other => panic!("expected an assistant event, got {:?}", other),
    }
    assert_eq!(renamed, None);

    let end = relay.on_close();
    assert_eq!(end, Some(StreamEvent::SessionEnd));
    assert_eq!(reg.lookup("abc"), Some(4242));
}

#[test]
fn parse_line_reads_the_flat_schema() {
    assert_eq!(parse_line("  {\"type\":\"session_end\"}  "), Some(StreamEvent::SessionEnd));
    assert_eq!(
        parse_line("{\"type\":\"error\",\"message\":\"oops\"}"),
        Some(StreamEvent::Error { message: s("oops") })
    );
    assert_eq!(
        parse_line("{\"type\":\"tool_start\",\"tool_name\":\"grep\",\"input\":{\"q\":\"x\"}}"),
        Some(StreamEvent::ToolStart {
            tool_name: s("grep"),
            input: Json::Obj(vec![(s("q"), Json::Str(s("x")))]),
        })
    );
    assert_eq!(parse_line("{\"type\":\"wat\"}"), None);
    assert_eq!(parse_line("17"), None);
    assert_eq!(parse_line(""), None);
}

#[test]
fn session_lifecycle_transitions() {
    let s0 = SessionState::Starting;
    let s1 = session_transition(s0, SessionObservation::Spawned).unwrap();
    assert_eq!(s1, SessionState::Running);
    let s2 = session_transition(s1, SessionObservation::RealIdObserved).unwrap();
    assert_eq!(s2, SessionState::Reconciling);
    let s3 = session_transition(s2, SessionObservation::Renamed).unwrap();
    assert_eq!(s3, SessionState::Running);
    assert_eq!(
        session_transition(s3, SessionObservation::StreamEnded),
        Some(SessionState::Ended)
    );
    assert_eq!(
        session_transition(s2, SessionObservation::Interrupted),
        Some(SessionState::Terminated)
    );
    // Terminal states accept nothing further.
    assert_eq!(session_transition(SessionState::Ended, SessionObservation::Spawned), None);
    assert_eq!(
        session_transition(SessionState::Terminated, SessionObservation::StreamEnded),
        None
    );
}

#[test]
fn tail_relay_ends_once_on_the_heuristic() {
    let mut relay = TailRelay::new();
    let going = "{\"uuid\":\"u1\",\"sessionId\":\"sid\",\"timestamp\":\"t\",\
                 \"isSidechain\":false,\"userType\":\"external\",\"type\":\"assistant\",\
                 \"message\":{\"role\":\"assistant\",\"content\":[]}}";
    let (event, end) = relay.on_line(going);
    assert!(matches!(event, Some(StreamEvent::Assistant { .. })));
    assert_eq!(end, None);

    let stopping = "{\"uuid\":\"u2\",\"sessionId\":\"sid\",\"timestamp\":\"t\",\
                    \"isSidechain\":false,\"userType\":\"external\",\"type\":\"assistant\",\
                    \"message\":{\"role\":\"assistant\",\"content\":[],\
                    \"stop_reason\":\"STOP\"}}";
    let (event, end) = relay.on_line(stopping);
    assert!(matches!(event, Some(StreamEvent::Assistant { .. })));
    assert_eq!(end, Some(StreamEvent::SessionEnd));

    // Nothing more is relayed after the terminal event.
    assert_eq!(relay.on_line(going), (None, None));
    assert_eq!(relay.on_close(), None);
}

#[test]
fn tail_relay_abandons_with_an_error_exactly_once() {
    let mut relay = TailRelay::new();
    let (err, end) = relay.error(s("transcript never appeared")).unwrap();
    assert_eq!(err, StreamEvent::Error { message: s("transcript never appeared") });
    assert_eq!(end, StreamEvent::SessionEnd);
    assert_eq!(relay.error(s("again")), None);
    assert_eq!(relay.on_close(), None);
}

#[test]
fn tail_relay_closes_when_the_monitor_stops() {
    let mut relay = TailRelay::new();
    assert_eq!(relay.on_line("not a record"), (None, None));
    assert_eq!(relay.on_close(), Some(StreamEvent::SessionEnd));
    assert_eq!(relay.on_close(), None);
}

#[test]
fn whole_turn_relays_lines_in_order_and_ends_once() {
    let lines = vec![
        s("{\"type\":\"system\",\"extra\":{\"session_id\":\"abc\"}}"),
        s(""),
        s("not json"),
        s("{\"type\":\"assistant\",\"message\":{\"content\":[]}}"),
    ];
    let events = relay_lines(&lines);
    assert_eq!(events.len(), 3);
    assert!(matches!(events[0], StreamEvent::System { .. }));
    assert!(matches!(events[1], StreamEvent::Assistant { .. }));
    assert_eq!(events[2], StreamEvent::SessionEnd);

    // A terminal event on the wire cuts the turn; nothing follows it.
    let cut = relay_lines(&vec![
        s("{\"type\":\"session_end\"}"),
        s("{\"type\":\"assistant\",\"message\":{\"content\":[]}}"),
    ]);
    assert_eq!(cut, vec![StreamEvent::SessionEnd]);

    // No lines at all still end the turn exactly once.
    assert_eq!(relay_lines(&vec![]), vec![StreamEvent::SessionEnd]);
}
