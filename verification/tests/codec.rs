//! The canonical event wire format: writing, reading, and the round trip.

use polaris_core::events::{deserialize_event, serialize_event, StreamEvent};
use polaris_core::json::{from_json_text, to_json_text, Json};

fn s(text: &str) -> String {
    text.to_owned()
}

#[test]
fn session_end_wire_shape() {
    let e = StreamEvent::SessionEnd;
    assert_eq!(serialize_event(&e), "{\"type\":\"session_end\"}");
}

#[test]
fn error_wire_shape() {
    let e = StreamEvent::Error { message: s("boom") };
    assert_eq!(serialize_event(&e), "{\"type\":\"error\",\"message\":\"boom\"}");
}

#[test]
fn system_wire_shape() {
    let e = StreamEvent::System {
        subtype: s("init"),
        extra: vec![(s("session_id"), Json::Str(s("abc")))],
    };
    assert_eq!(
        serialize_event(&e),
        "{\"type\":\"system\",\"subtype\":\"init\",\"extra\":{\"session_id\":\"abc\"}}"
    );
}

#[test]
fn tool_end_wire_shape_without_output() {
    let e = StreamEvent::ToolEnd { tool_name: s("grep"), output: None };
    assert_eq!(
        serialize_event(&e),
        "{\"type\":\"tool_end\",\"tool_name\":\"grep\",\"output\":null}"
    );
}

#[test]
fn round_trip_every_variant() {
    let events = vec![
        StreamEvent::System {
            subtype: s("init"),
            extra: vec![
                (s("session_id"), Json::Str(s("abc-123"))),
                (s("n"), Json::Num(s("42"))),
            ],
        },
        StreamEvent::Assistant {
            message: Json::Obj(vec![
                (
                    s("content"),
                    Json::Arr(vec![Json::Obj(vec![
                        (s("text"), Json::Str(s("hi there"))),
                        (s("type"), Json::Str(s("text"))),
                    ])]),
                ),
                (s("stop_reason"), Json::Null),
            ]),
        },
        StreamEvent::ToolStart {
            tool_name: s("read_file"),
            input: Json::Obj(vec![(s("path"), Json::Str(s("a/b.rs")))]),
        },
        StreamEvent::ToolEnd { tool_name: s("read_file"), output: Some(s("Status: success")) },
        StreamEvent::ToolEnd { tool_name: s("grep"), output: None },
        StreamEvent::Error { message: s("spawn failed") },
        StreamEvent::SessionEnd,
    ];
    for e in events {
        let wire = serialize_event(&e);
        let back = deserialize_event(&wire).expect("a written record must read back");
        assert_eq!(back, e);
    }
}

#[test]
fn round_trip_with_escapes() {
    let e = StreamEvent::Error { message: s("a \"quoted\" line\nwith\\slashes\tand\rreturns") };
    let wire = serialize_event(&e);
    assert_eq!(deserialize_event(&wire), Some(e));
}

#[test]
fn json_text_round_trip() {
    let j = Json::Obj(vec![
        (s("a"), Json::Arr(vec![Json::Num(s("1")), Json::Bool(true), Json::Null])),
        (s("b"), Json::Str(s("x\ny"))),
        (s("c"), Json::Obj(vec![])),
        (s("d"), Json::Num(s("-1.5e3"))),
    ]);
    let text = to_json_text(&j);
    assert_eq!(
        text,
        "{\"a\":[1,true,null],\"b\":\"x\\ny\",\"c\":{},\"d\":-1.5e3}"
    );
    assert_eq!(from_json_text(&text), Some(j));
}

#[test]
fn parser_rejects_trailing_text() {
    assert_eq!(from_json_text("nullx"), None);
    assert_eq!(from_json_text(""), None);
    assert_eq!(from_json_text("{\"a\":}"), None);
}

#[test]
fn deserialize_rejects_malformed_records() {
    assert_eq!(deserialize_event("not json"), None);
    assert_eq!(deserialize_event("{\"type\":\"nonsense\"}"), None);
    assert_eq!(deserialize_event("[1,2]"), None);
}
