//! The transcript normalizer on realistic JSON lines.

use polaris_core::events::StreamEvent;
use polaris_core::json::Json;
use polaris_core::transcript::IFlowJsonlEvent;

fn s(text: &str) -> String {
    text.to_owned()
}

fn base_line(event_type: &str, message: &str, tool_use_result: &str) -> String {
    let mut line = String::from(
        "{\"uuid\":\"u1\",\"parentUuid\":null,\"sessionId\":\"sid-1\",\
         \"timestamp\":\"2024-01-01T00:00:00Z\",\"isSidechain\":false,\
         \"userType\":\"external\",\"type\":\"",
    );
    line.push_str(event_type);
    line.push('"');
    if !message.is_empty() {
        line.push_str(",\"message\":");
        line.push_str(message);
    }
    if !tool_use_result.is_empty() {
        line.push_str(",\"toolUseResult\":");
        line.push_str(tool_use_result);
    }
    line.push('}');
    line
}

#[test]
fn assistant_line_with_terminal_stop_reason() {
    let line = base_line(
        "assistant",
        "{\"role\":\"assistant\",\"content\":[{\"type\":\"text\",\"text\":\"done!\"}],\
         \"stop_reason\":\"STOP\",\"model\":\"m1\",\"id\":\"m-9\"}",
        "",
    );
    let ev = IFlowJsonlEvent::parse_line(&line).expect("the record must parse");
    assert_eq!(ev.session_id, s("sid-1"));
    assert!(ev.is_session_end());
    let stream = ev.to_stream_event().expect("an assistant record maps to an event");
    match stream {
        StreamEvent::Assistant { message } => {
            let expected = Json::Obj(vec![
                (
                    s("content"),
                    Json::Arr(vec![Json::Obj(vec![
                        (s("text"), Json::Str(s("done!"))),
                        (s("type"), Json::Str(s("text"))),
                    ])]),
                ),
                (s("id"), Json::Str(s("m-9"))),
                (s("model"), Json::Str(s("m1"))),
                (s("stop_reason"), Json::Str(s("STOP"))),
            ]);
            assert_eq!(message, expected);
        }
        other => panic!("expected an assistant event, got {:?}", other),
    }
}

#[test]
fn assistant_flattens_texts_then_tool_uses() {
    let line = base_line(
        "assistant",
        "{\"role\":\"assistant\",\"content\":[\
            {\"type\":\"tool_use\",\"id\":\"t1\",\"name\":\"grep\",\"input\":{\"q\":1}},\
            {\"type\":\"text\",\"text\":\"a\"},\
            {\"type\":\"text\",\"text\":\"b\"}]}",
        "",
    );
    let ev = IFlowJsonlEvent::parse_line(&line).unwrap();
    assert!(!ev.is_session_end());
    match ev.to_stream_event().unwrap() {
        StreamEvent::Assistant { message } => {
            let expected = Json::Obj(vec![
                (
                    s("content"),
                    Json::Arr(vec![
                        Json::Obj(vec![
                            (s("text"), Json::Str(s("a"))),
                            (s("type"), Json::Str(s("text"))),
                        ]),
                        Json::Obj(vec![
                            (s("text"), Json::Str(s("b"))),
                            (s("type"), Json::Str(s("text"))),
                        ]),
                        Json::Obj(vec![
                            (s("id"), Json::Str(s("t1"))),
                            (s("input"), Json::Obj(vec![(s("q"), Json::Num(s("1")))])),
                            (s("name"), Json::Str(s("grep"))),
                            (s("type"), Json::Str(s("tool_use"))),
                        ]),
                    ]),
                ),
                (s("id"), Json::Null),
                (s("model"), Json::Null),
                (s("stop_reason"), Json::Null),
            ]);
            assert_eq!(message, expected);
        }
        other => panic!("expected an assistant event, got {:?}", other),
    }
}

#[test]
fn tool_result_with_outcome_becomes_tool_end() {
    let line = base_line(
        "tool_result",
        "",
        "{\"toolName\":\"read_file\",\"status\":\"success\",\"timestamp\":1700000000}",
    );
    let ev = IFlowJsonlEvent::parse_line(&line).unwrap();
    assert_eq!(
        ev.to_stream_event(),
        Some(StreamEvent::ToolEnd {
            tool_name: s("read_file"),
            output: Some(s("Status: success")),
        })
    );
}

#[test]
fn tool_record_without_outcome_becomes_tool_start() {
    let line = base_line(
        "tool",
        "{\"role\":\"assistant\",\"content\":[\
            {\"type\":\"text\",\"text\":\"using a tool\"},\
            {\"type\":\"tool_use\",\"id\":\"t2\",\"name\":\"ls\",\"input\":null}]}",
        "",
    );
    let ev = IFlowJsonlEvent::parse_line(&line).unwrap();
    assert_eq!(
        ev.to_stream_event(),
        Some(StreamEvent::ToolStart { tool_name: s("ls"), input: Json::Null })
    );
}

#[test]
fn user_records_are_dropped() {
    let line = base_line(
        "user",
        "{\"role\":\"user\",\"content\":[{\"type\":\"text\",\"text\":\"hello\"}]}",
        "",
    );
    let ev = IFlowJsonlEvent::parse_line(&line).unwrap();
    assert_eq!(ev.to_stream_event(), None);
}

#[test]
fn unknown_record_types_are_dropped() {
    let line = base_line("telemetry", "", "");
    let ev = IFlowJsonlEvent::parse_line(&line).unwrap();
    assert_eq!(ev.to_stream_event(), None);
}

#[test]
fn max_tokens_is_also_terminal_but_other_reasons_are_not() {
    let stop = base_line(
        "assistant",
        "{\"role\":\"assistant\",\"content\":[],\"stop_reason\":\"max_tokens\"}",
        "",
    );
    assert!(IFlowJsonlEvent::parse_line(&stop).unwrap().is_session_end());
    let going = base_line(
        "assistant",
        "{\"role\":\"assistant\",\"content\":[],\"stop_reason\":\"tool_use\"}",
        "",
    );
    assert!(!IFlowJsonlEvent::parse_line(&going).unwrap().is_session_end());
}

#[test]
fn malformed_or_incomplete_lines_parse_to_nothing() {
    assert_eq!(IFlowJsonlEvent::parse_line(""), None);
    assert_eq!(IFlowJsonlEvent::parse_line("   "), None);
    assert_eq!(IFlowJsonlEvent::parse_line("{nope"), None);
    // A required field is missing.
    assert_eq!(IFlowJsonlEvent::parse_line("{\"uuid\":\"u1\"}"), None);
    // A required field has the wrong type.
    let bad = base_line("assistant", "5", "");
    assert_eq!(IFlowJsonlEvent::parse_line(&bad), None);
}

#[test]
fn usage_counters_are_read_as_integers() {
    let line = base_line(
        "assistant",
        "{\"role\":\"assistant\",\"content\":[],\
         \"usage\":{\"input_tokens\":12,\"output_tokens\":34}}",
        "",
    );
    let ev = IFlowJsonlEvent::parse_line(&line).unwrap();
    let usage = ev.message.unwrap().usage.unwrap();
    assert_eq!(usage.input_tokens, 12);
    assert_eq!(usage.output_tokens, 34);
}
