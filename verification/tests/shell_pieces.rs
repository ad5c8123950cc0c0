//! Launcher arguments, termination plans, tailing, id extraction and the
//! proxy helpers.

use polaris_core::json::Json;
use polaris_core::launcher::{chat_args, cli_script_candidates, pick_first_existing,
    resolution_failure_message, resume_args, runtime_candidates, script_args};
use polaris_core::openai::{available_tools, default_enable_tools, default_max_tokens,
    event_record, plan_tool_call, sse_line, SseLine};
use polaris_core::sid::extract_session_id;
use polaris_core::tail::{resolve_backoff, transcript_file_name, encode_project_dir, LineBuffer,
    TailCursor};
use polaris_core::terminal::combine_output;
use polaris_core::terminate::{kill_plan, u32_decimal, KillStep, GRACE_PERIOD_MILLIS};

fn s(text: &str) -> String {
    text.to_owned()
}

#[test]
fn fresh_and_resumed_argument_vectors() {
    assert_eq!(
        chat_args("hello"),
        vec![
            s("--print"),
            s("--verbose"),
            s("--output-format"),
            s("stream-json"),
            s("--permission-mode"),
            s("bypassPermissions"),
            s("hello"),
        ]
    );
    assert_eq!(
        resume_args("abc", "again"),
        vec![
            s("--resume"),
            s("abc"),
            s("--print"),
            s("--verbose"),
            s("--output-format"),
            s("stream-json"),
            s("--permission-mode"),
            s("bypassPermissions"),
            s("again"),
        ]
    );
}

#[test]
fn runtime_resolution_order_and_failure_message() {
    let well_known = vec![s("C:\\one\\rt.exe"), s("C:\\two\\rt.exe")];
    // The system-wide lookup's result stands between the co-located
    // candidate and the well-known locations.
    let cands = runtime_candidates("C:\\npm", "rt.exe", Some(s("C:\\sys\\rt.exe")), &well_known);
    assert_eq!(
        cands,
        vec![
            s("C:\\npm\\rt.exe"),
            s("C:\\sys\\rt.exe"),
            s("C:\\one\\rt.exe"),
            s("C:\\two\\rt.exe"),
        ]
    );
    let without = runtime_candidates("C:\\npm", "rt.exe", None, &well_known);
    assert_eq!(
        without,
        vec![s("C:\\npm\\rt.exe"), s("C:\\one\\rt.exe"), s("C:\\two\\rt.exe")]
    );
    assert_eq!(pick_first_existing(&without, &vec![false, true, true]), Some(1));
    assert_eq!(pick_first_existing(&without, &vec![false, false, false]), None);
    assert_eq!(
        resolution_failure_message(&without),
        s("not found; tried: C:\\npm\\rt.exe, C:\\one\\rt.exe, C:\\two\\rt.exe")
    );
}

#[test]
fn entry_script_candidates_and_script_led_arguments() {
    let cands = cli_script_candidates("C:\\npm", "node_modules\\pkg\\cli.js", Some("C:\\roam"));
    assert_eq!(
        cands,
        vec![
            s("C:\\npm\\node_modules\\pkg\\cli.js"),
            s("C:\\roam\\npm\\node_modules\\pkg\\cli.js"),
        ]
    );
    assert_eq!(
        cli_script_candidates("C:\\npm", "node_modules\\pkg\\cli.js", None),
        vec![s("C:\\npm\\node_modules\\pkg\\cli.js")]
    );
    let led = script_args("C:\\x\\cli.js", &vec![s("--print"), s("hello")]);
    assert_eq!(led, vec![s("C:\\x\\cli.js"), s("--print"), s("hello")]);
}

#[test]
fn termination_plans() {
    assert_eq!(kill_plan(100, true), vec![KillStep::TreeKill { pid: 100 }]);
    assert_eq!(
        kill_plan(100, false),
        vec![
            KillStep::Signal { pid: 100, graceful: true },
            KillStep::Wait { millis: GRACE_PERIOD_MILLIS },
            KillStep::Signal { pid: 100, graceful: false },
        ]
    );
    assert_eq!(u32_decimal(0), s("0"));
    assert_eq!(u32_decimal(407), s("407"));
    assert_eq!(u32_decimal(u32::MAX), s("4294967295"));
}

#[test]
fn session_id_extraction() {
    assert_eq!(extract_session_id("log: session-ab12-cd established"), Some(s("session-ab12-cd")));
    assert_eq!(extract_session_id("xsession-0f"), Some(s("session-0f")));
    assert_eq!(extract_session_id("session- nope"), None);
    assert_eq!(extract_session_id("nothing here"), None);
    // The leftmost occurrence wins.
    assert_eq!(extract_session_id("session-1 then session-2"), Some(s("session-1")));
}

#[test]
fn tail_cursor_and_backoff() {
    let mut cur = TailCursor::open_at(10);
    assert_eq!(cur.observe(10), None);
    assert_eq!(cur.observe(25), Some((10, 25)));
    assert_eq!(cur.observe(20), None);
    assert_eq!(cur.pos, 20);
    assert_eq!(resolve_backoff(0), Some(100));
    assert_eq!(resolve_backoff(3), Some(800));
    assert_eq!(resolve_backoff(10), None);
}

#[test]
fn transcript_paths() {
    assert_eq!(transcript_file_name("abc"), s("session-abc.jsonl"));
    assert_eq!(encode_project_dir("C:\\work/repo:x"), s("C--work-repo-x"));
}

#[test]
fn line_buffer_cuts_complete_lines() {
    let mut buf = LineBuffer::new();
    assert_eq!(buf.push_text("par"), Vec::<String>::new());
    assert_eq!(buf.push_text("tial\nsecond\nthi"), vec![s("partial"), s("second")]);
    assert_eq!(buf.push_text("rd\n"), vec![s("third")]);
    assert_eq!(buf.push_text("\n\n"), vec![s(""), s("")]);
}

#[test]
fn stream_line_classification() {
    assert_eq!(sse_line(""), SseLine::Skip);
    assert_eq!(sse_line("event: ping"), SseLine::Skip);
    assert_eq!(sse_line("data: [DONE]"), SseLine::Done);
    assert_eq!(sse_line("  data: {\"x\":1}  "), SseLine::Data(s("{\"x\":1}")));
}

#[test]
fn proxy_event_record_merges_payload_fields() {
    let payload = Json::Obj(vec![
        (s("text"), Json::Str(s("hi"))),
        (s("sessionId"), Json::Str(s("dup"))),
    ]);
    // A payload member named like one of the record's own keys wins.
    let record = event_record("text_delta", "sid-1", &payload);
    assert_eq!(
        record,
        Json::Obj(vec![
            (s("type"), Json::Str(s("text_delta"))),
            (s("sessionId"), Json::Str(s("dup"))),
            (s("text"), Json::Str(s("hi"))),
        ])
    );
    let plain = event_record("session_end", "sid-2", &Json::Obj(vec![]));
    assert_eq!(
        plain,
        Json::Obj(vec![
            (s("type"), Json::Str(s("session_end"))),
            (s("sessionId"), Json::Str(s("sid-2"))),
        ])
    );
}

#[test]
fn proxy_defaults_and_tool_catalog() {
    assert_eq!(default_max_tokens(), 4096);
    assert!(default_enable_tools());
    let tools = available_tools();
    let names: Vec<&str> = tools.iter().map(|t| t.function.name.as_str()).collect();
    assert_eq!(names, vec!["read_file", "write_file", "list_directory", "search_files",
        "search_content"]);
    assert!(tools.iter().all(|t| t.tool_type == "function"));
}

#[test]
fn tool_call_planning() {
    let ok = plan_tool_call("read_file", "{\"path\":\"a.rs\"}").unwrap();
    assert_eq!(ok.0, s("plugin:filesystem|read_file"));
    assert_eq!(ok.1, Json::Obj(vec![(s("path"), Json::Str(s("a.rs")))]));

    let write = plan_tool_call("write_file", "{\"path\":\"a\",\"content\":\"b\"}").unwrap();
    assert_eq!(write.0, s("plugin:filesystem|write_file"));
    assert_eq!(
        write.1,
        Json::Obj(vec![(s("path"), Json::Str(s("a"))), (s("contents"), Json::Str(s("b")))])
    );

    let grep = plan_tool_call("search_content", "{\"pattern\":\"x\"}").unwrap();
    assert_eq!(grep.0, s("plugin:grep|grep"));
    assert_eq!(
        grep.1,
        Json::Obj(vec![(s("pattern"), Json::Str(s("x"))), (s("path"), Json::Str(s(".")))])
    );

    assert_eq!(
        plan_tool_call("read_file", "{}"),
        Err(s("missing path argument"))
    );
    assert_eq!(plan_tool_call("read_file", "not json"), Err(s("tool arguments are not valid JSON")));
    assert_eq!(plan_tool_call("dance", "{}"), Err(s("unknown tool")));
}

#[test]
fn terminal_output_combination() {
    assert_eq!(combine_output("out", ""), s("out"));
    assert_eq!(combine_output("out", "err"), s("out\nerr"));
    assert_eq!(combine_output("", "err"), s("\nerr"));
}

#[test]
fn placeholder_ids_have_uuid_shape() {
    let a = polaris_core::new_placeholder_id();
    let b = polaris_core::new_placeholder_id();
    assert_eq!(a.chars().count(), 36);
    assert_eq!(b.chars().count(), 36);
    assert_ne!(a, b);
}
