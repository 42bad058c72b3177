use agent_forge::client::{
    system_message, tool_result_message, user_message, OllamaFunction, OllamaMessage,
    OllamaToolCall,
};
use agent_forge::error::AgentForgeError;
use agent_forge::json::{get_text, Json, JsonNumber};
use agent_forge::session::store::{session_start, InMemoryStore, SessionData};
use agent_forge::session::stream::{RoundAccumulator, StreamEvent};
use agent_forge::session::{
    assistant_turn, build_augmented_system_prompt, build_request_messages,
    compute_tool_signature, format_message_content, next_history, with_initial_messages, CallDecision,
    LoopController, StateReport,
};

fn s(x: &str) -> Json {
    Json::String(x.to_string())
}

fn obj(fields: Vec<(&str, Json)>) -> Json {
    let mut o = Json::empty_object();
    for (k, v) in fields {
        o.insert(k.to_string(), v);
    }
    o
}

fn msg(role: &str, content: &str) -> Json {
    obj(vec![("role", s(role)), ("content", s(content))])
}

fn text_of(j: Option<&Json>) -> Option<String> {
    j.and_then(|v| v.as_str()).map(|t| t.to_string())
}

#[test]
fn signature_of_file_tool_ignores_case_of_path() {
    let args = obj(vec![("path", s("Docs/README.MD"))]);
    let sig = compute_tool_signature("write_file", &args, "{\"path\":\"Docs/README.MD\"}");
    assert_eq!(sig, "write_file:docs/readme.md");
}

#[test]
fn signature_of_search_and_grep() {
    let args = obj(vec![("pattern", s("*.RS")), ("path", s("SRC"))]);
    assert_eq!(compute_tool_signature("search_files", &args, ""), "search_files:*.rs:src");
    assert_eq!(compute_tool_signature("grep_content", &args, ""), "grep_content:*.RS:src");
}

#[test]
fn signature_of_memory_and_other_tools() {
    let args = obj(vec![("key", s("Name"))]);
    assert_eq!(compute_tool_signature("memory_set", &args, ""), "memory_set:Name");
    assert_eq!(
        compute_tool_signature("my_tool", &args, "{\"key\":\"Name\"}"),
        "my_tool:{\"key\":\"Name\"}"
    );
    let none = Json::empty_object();
    assert_eq!(compute_tool_signature("read_file", &none, "{}"), "read_file:");
}

#[test]
fn message_line_formats_thinking_and_content() {
    let m = obj(vec![
        ("role", s("assistant")),
        ("content", s("Hi")),
        ("thinking", s("hmm")),
    ]);
    assert_eq!(format_message_content(&m), "[thinking]: hmm assistant: Hi");
    assert_eq!(format_message_content(&msg("system", "x")), "");
    assert_eq!(format_message_content(&obj(vec![("content", s("c"))])), "unknown: c");
    assert_eq!(format_message_content(&msg("user", "")), "");
}

#[test]
fn augmented_prompt_has_context_and_last_messages() {
    let messages = vec![
        msg("system", "sys"),
        msg("user", "one"),
        msg("assistant", "two"),
        msg("user", "three"),
    ];
    let p = build_augmented_system_prompt(
        &Some("Base".to_string()),
        &Some("Summary".to_string()),
        2,
        &messages,
    );
    assert_eq!(
        p,
        "Base\n\n## Context\nSummary\n\n## Last messages\nassistant: two\nuser: three"
    );
    let q = build_augmented_system_prompt(&None, &Some(String::new()), 3, &vec![]);
    assert_eq!(q, "");
    let r = build_augmented_system_prompt(&None, &None, 1, &messages);
    assert_eq!(r, "## Last messages\nuser: three");
}

#[test]
fn request_plan_keeps_last_non_system_messages() {
    let messages = vec![
        msg("system", "sys"),
        msg("user", "one"),
        msg("assistant", "two"),
        msg("user", "three"),
    ];
    let plan = build_request_messages(&None, &None, 2, &messages);
    assert_eq!(plan.history, vec![2, 3]);
    let sys = plan.system.unwrap();
    assert_eq!(text_of(sys.get("role")), Some("system".to_string()));
    assert_eq!(
        text_of(sys.get("content")),
        Some("## Last messages\nassistant: two\nuser: three".to_string())
    );
    let all = build_request_messages(&None, &None, 10, &messages);
    assert_eq!(all.history, vec![1, 2, 3]);
    let none = build_request_messages(&None, &None, 0, &messages);
    assert!(none.system.is_none());
    assert!(none.history.is_empty());
}

#[test]
fn initial_messages_get_system_prompt_once() {
    let prior = vec![msg("user", "hi")];
    let out = with_initial_messages(&Some("Be kind".to_string()), prior);
    assert_eq!(out.len(), 2);
    assert_eq!(text_of(out[0].get("content")), Some("Be kind".to_string()));
    assert_eq!(text_of(out[1].get("content")), Some("hi".to_string()));
    let again = with_initial_messages(&Some("Other".to_string()), out);
    assert_eq!(again.len(), 2);
    let empty = with_initial_messages(&Some(String::new()), vec![]);
    assert!(empty.is_empty());
}

#[test]
fn duplicate_calls_are_refused() {
    let mut ctl = LoopController::new(10);
    assert!(ctl.start_round());
    assert_eq!(ctl.decide("read_file", "read_file:a".to_string()), CallDecision::Execute);
    assert_eq!(ctl.record(Ok("content".to_string())), "content");
    let d = ctl.decide("read_file", "read_file:a".to_string());
    assert_eq!(d, CallDecision::AlreadyCompleted);
    assert_eq!(
        LoopController::refusal_text("read_file", &d),
        "Action already completed: read_file was already called with similar arguments. Do not repeat this action. Respond to the user now."
    );
    assert!(!ctl.finish_round());
}

#[test]
fn creation_cap_after_two_successes() {
    let mut ctl = LoopController::new(10);
    assert!(ctl.start_round());
    assert_eq!(ctl.decide("write_file", "write_file:a".to_string()), CallDecision::Execute);
    ctl.record(Ok("Successfully wrote 1 bytes to a".to_string()));
    assert_eq!(ctl.decide("write_file", "write_file:b".to_string()), CallDecision::Execute);
    let text = ctl.record(Err(AgentForgeError::ToolExecution("disk full".to_string())));
    assert_eq!(text, "Error: Tool execution failed: disk full");
    assert_eq!(ctl.decide("create_directory", "create_directory:c".to_string()), CallDecision::Execute);
    ctl.record(Ok("Created directory: c".to_string()));
    let d = ctl.decide("write_file", "write_file:d".to_string());
    assert_eq!(d, CallDecision::CreationCapped(2));
    assert_eq!(
        LoopController::refusal_text("write_file", &d),
        "Task completed: you have already created 2 file(s). Stop creating more files and respond to the user with a summary of what was done."
    );
    assert_eq!(ctl.decide("read_file", "read_file:d".to_string()), CallDecision::Execute);
}

#[test]
fn two_refused_rounds_end_the_run() {
    let mut ctl = LoopController::new(10);
    assert!(ctl.start_round());
    ctl.decide("list_directory", "list_directory:.".to_string());
    ctl.record(Ok("[FILE] a".to_string()));
    assert!(!ctl.finish_round());
    assert!(ctl.start_round());
    ctl.decide("list_directory", "list_directory:.".to_string());
    assert!(!ctl.finish_round());
    assert!(ctl.start_round());
    ctl.decide("list_directory", "list_directory:.".to_string());
    assert!(ctl.finish_round());
    assert!(!ctl.start_round());
}

#[test]
fn rounds_are_limited() {
    let mut ctl = LoopController::new(2);
    assert!(ctl.start_round());
    assert!(ctl.start_round());
    assert!(!ctl.start_round());
}

#[test]
fn first_state_change_is_a_snapshot() {
    let mut ctl = LoopController::new(3);
    assert_eq!(ctl.state_change(false), StateReport::Unchanged);
    assert!(ctl.final_snapshot(true));
    assert_eq!(ctl.state_change(true), StateReport::Snapshot);
    assert_eq!(ctl.state_change(true), StateReport::Delta);
    assert!(!ctl.final_snapshot(true));
}

fn call(index: Option<usize>, name: &str, args: Json, args_json: &str) -> OllamaToolCall {
    OllamaToolCall {
        index,
        function: OllamaFunction {
            name: name.to_string(),
            arguments: args,
            arguments_json: args_json.to_string(),
        },
    }
}

#[test]
fn stream_reports_thinking_then_text() {
    let mut acc = RoundAccumulator::new();
    let e1 = acc.read(OllamaMessage {
        role: "assistant".to_string(),
        content: String::new(),
        thinking: Some("let me".to_string()),
        tool_calls: None,
    });
    assert_eq!(
        e1,
        vec![StreamEvent::ThinkingStart, StreamEvent::ThinkingContent("let me".to_string())]
    );
    let e2 = acc.read(OllamaMessage {
        role: "assistant".to_string(),
        content: "Hello".to_string(),
        thinking: None,
        tool_calls: None,
    });
    assert_eq!(e2, vec![StreamEvent::ThinkingEnd, StreamEvent::TextContent("Hello".to_string())]);
    let out = acc.close();
    assert!(!out.end_thinking);
    assert_eq!(out.content, "Hello");
    assert_eq!(out.thinking, "let me");
}

#[test]
fn stream_gathers_tool_calls_by_index() {
    let mut acc = RoundAccumulator::new();
    acc.read(OllamaMessage {
        role: "assistant".to_string(),
        content: String::new(),
        thinking: Some("x".to_string()),
        tool_calls: Some(vec![
            call(Some(1), "write_file", s("{\"pa"), "\"{\\\"pa\""),
            call(Some(0), "read_file", s("{}"), "\"{}\""),
            call(None, "memory_get", obj(vec![("key", s("k"))]), "{\"key\":\"k\"}"),
        ]),
    });
    acc.read(OllamaMessage {
        role: "assistant".to_string(),
        content: String::new(),
        thinking: None,
        tool_calls: Some(vec![call(
            Some(1),
            "",
            s("th\":\"a\"}"),
            "\"th\\\":\\\"a\\\"}\"",
        )]),
    });
    let out = acc.close();
    assert!(out.end_thinking);
    assert_eq!(out.complete.len(), 1);
    assert_eq!(out.complete[0].function.name, "memory_get");
    assert_eq!(
        out.pending,
        vec![
            (0, "read_file".to_string(), "{}".to_string()),
            (1, "write_file".to_string(), "{\"path\":\"a\"}".to_string()),
        ]
    );
}

#[test]
fn non_string_arguments_use_their_json() {
    let mut acc = RoundAccumulator::new();
    acc.read(OllamaMessage {
        role: "assistant".to_string(),
        content: String::new(),
        thinking: None,
        tool_calls: Some(vec![call(
            Some(0),
            "f",
            obj(vec![("n", Json::Number(JsonNumber::PosInt(1)))]),
            "{\"n\":1}",
        )]),
    });
    let out = acc.close();
    assert_eq!(out.pending, vec![(0, "f".to_string(), "{\"n\":1}".to_string())]);
}

#[test]
fn assistant_turn_records_calls() {
    let turn = assistant_turn(
        "",
        "why",
        vec![("read_file".to_string(), obj(vec![("path", s("a"))]))],
    );
    assert_eq!(text_of(turn.get("role")), Some("assistant".to_string()));
    assert_eq!(text_of(turn.get("content")), Some(String::new()));
    assert_eq!(text_of(turn.get("thinking")), Some("why".to_string()));
    match turn.get("tool_calls") {
        Some(Json::Array(v)) => {
            assert_eq!(v.len(), 1);
            let f = v[0].get("function").unwrap();
            assert_eq!(text_of(f.get("name")), Some("read_file".to_string()));
            assert_eq!(text_of(f.get("arguments").unwrap().get("path")), Some("a".to_string()));
        }
        _ => panic!("tool_calls missing"),
    }
    let plain = assistant_turn("ok", "", vec![]);
    assert!(plain.get("thinking").is_none());
    assert!(plain.get("tool_calls").is_none());
}

#[test]
fn store_gives_back_what_was_saved() {
    let mut store = InMemoryStore::new();
    assert!(store.load("t1").unwrap().is_none());
    let mut data = SessionData::default();
    data.summary = Some("sum".to_string());
    data.messages.push(user_message("hello"));
    store.save("t1", data).unwrap();
    store.save("t2", SessionData::default()).unwrap();
    let got = store.load("t1").unwrap().unwrap();
    assert_eq!(got.summary.as_deref(), Some("sum"));
    assert_eq!(got.messages.len(), 1);
    let mut again = SessionData::default();
    again.summary = Some("new".to_string());
    store.save("t1", again).unwrap();
    assert_eq!(store.load("t1").unwrap().unwrap().summary.as_deref(), Some("new"));
    assert!(store.load("t2").unwrap().unwrap().summary.is_none());
}

#[test]
fn session_start_falls_back_to_empty() {
    let d = session_start(Err(AgentForgeError::Sqlite("locked".to_string())));
    assert!(d.messages.is_empty());
    assert!(d.summary.is_none());
    let mut stored = SessionData::default();
    stored.messages.push(system_message("x"));
    stored.messages.push(tool_result_message("t", "r"));
    let kept = session_start(Ok(Some(stored)));
    assert_eq!(kept.messages.len(), 2);
    assert_eq!(text_of(kept.messages[1].get("name")), Some("t".to_string()));
}

#[test]
fn history_grows_by_the_answer_and_its_results() {
    let history = vec![user_message("hi")];
    let calls = vec![("read_file".to_string(), Json::empty_object())];
    let results = vec![
        ("read_file".to_string(), "contents".to_string()),
        ("write_file".to_string(), "refused".to_string()),
    ];
    let next = next_history(history, "ok", "", calls, &results);
    assert_eq!(next.len(), 4);
    assert_eq!(get_text(&next[0], "content"), Some("hi"));
    assert_eq!(get_text(&next[1], "role"), Some("assistant"));
    assert_eq!(get_text(&next[1], "content"), Some("ok"));
    assert_eq!(get_text(&next[2], "role"), Some("tool"));
    assert_eq!(get_text(&next[2], "name"), Some("read_file"));
    assert_eq!(get_text(&next[3], "content"), Some("refused"));
    let none = next_history(Vec::new(), "done", "why", Vec::new(), &Vec::new());
    assert_eq!(none.len(), 1);
    assert_eq!(get_text(&none[0], "thinking"), Some("why"));
}
