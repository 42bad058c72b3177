use agent_forge::json::{json_eq, Json, JsonNumber};
use agent_forge::event::{
    call_announcement, closing_events, failure_events, Event, RunId, ThreadId, ToolCallId,
};
use agent_forge::error::AgentForgeError;
use agent_forge::session::LoopController;
use agent_forge::summarizer::{summary_after, SummaryAnswer};
use agent_forge::client::OllamaMessage;
use agent_forge::tools::dir_create::directory_plan;
use agent_forge::tools::file_read::read_file_answer;
use agent_forge::tools::file_search::{walks_into, FileSearchTool};
use agent_forge::tools::{resolve_create_with, resolve_path_allow_create};

fn detail(r: Result<String, AgentForgeError>) -> String {
    match r {
        Ok(s) => format!("ok: {}", s),
        Err(AgentForgeError::ToolExecution(m)) => format!("tool: {}", m),
        Err(other) => format!("other: {:?}", other),
    }
}

#[test]
fn new_paths_are_judged_by_the_directory_they_go_in() {
    let ok = resolve_create_with("/w", "a/b.txt", Ok("/w".to_string()), false, Err(String::new()), true, Ok("/w/a".to_string()), None);
    assert_eq!(detail(ok), "ok: /w/a/b.txt");
    let out = resolve_create_with("/w", "x/y", Ok("/w".to_string()), false, Err(String::new()), true, Ok("/elsewhere".to_string()), None);
    assert_eq!(detail(out), "tool: Path 'x/y' is outside the working directory");
    let existing = resolve_create_with("/w", "f", Ok("/w".to_string()), true, Ok("/w/f".to_string()), false, Err(String::new()), None);
    assert_eq!(detail(existing), "ok: /w/f");
    let escaped = resolve_create_with("/w", "f", Ok("/w".to_string()), true, Ok("/etc/f".to_string()), false, Err(String::new()), None);
    assert_eq!(detail(escaped), "tool: Path 'f' is outside the working directory");
    let far = resolve_create_with(
        "/w", "n/m/k", Ok("/w".to_string()), false, Err(String::new()), false, Err(String::new()),
        Some(("/w".to_string(), Ok("/w".to_string()))),
    );
    assert_eq!(detail(far), "ok: /w/n/m/k");
    let climb = resolve_create_with(
        "/w", "nope/../../etc/x", Ok("/w".to_string()), false, Err(String::new()), false, Err(String::new()),
        Some(("/w".to_string(), Ok("/w".to_string()))),
    );
    assert_eq!(detail(climb), "tool: Path 'nope/../../etc/x' is outside the working directory");
    let bad_base = resolve_create_with("/w", "f", Err("gone".to_string()), false, Err(String::new()), false, Err(String::new()), None);
    assert_eq!(detail(bad_base), "tool: Invalid workdir '/w': gone");
}

#[test]
fn climbing_out_of_the_workdir_is_refused() {
    let r = resolve_path_allow_create("/tmp", "no_such_dir_4711/../../etc/x");
    assert_eq!(detail(r), "tool: Path 'no_such_dir_4711/../../etc/x' is outside the working directory");
}

#[test]
fn search_patterns_stay_under_the_workdir() {
    let confined = FileSearchTool::new().with_workdir("/w".to_string());
    assert_eq!(detail(confined.glob_for("/w", "*.rs")), "ok: /w/*.rs");
    assert_eq!(detail(confined.glob_for("/w", "/etc/*")), "tool: Pattern '/etc/*' is outside the working directory");
    assert_eq!(detail(confined.glob_for("/w", "../*")), "tool: Pattern '../*' is outside the working directory");
    let free = FileSearchTool::new();
    assert_eq!(detail(free.glob_for(".", "/etc/*")), "ok: /etc/*");
}

#[test]
fn read_answer_tells_text_from_binary() {
    assert_eq!(read_file_answer("a.txt", b"x\ny\n", 1, None, "4B"), "[file: a.txt, 2 lines]\nx\ny");
    assert_eq!(read_file_answer("a.txt", b"x\ny\n", 0, Some(1), "4B"), "[file: a.txt, lines 1-1 of 2, more below]\nx");
    assert_eq!(
        read_file_answer("p.png", &[0xff, 0x00], 1, None, "2B"),
        "[file: p.png \u{2014} PNG file, cannot display as text. Size: 2B]"
    );
}

#[test]
fn directory_plans() {
    assert_eq!(directory_plan("d", true, true).unwrap(), Some("Directory already exists: d".to_string()));
    assert!(matches!(directory_plan("d", true, false), Err(AgentForgeError::ToolExecution(_))));
    assert_eq!(directory_plan("d", false, false).unwrap(), None);
}

#[test]
fn grep_skips_hidden_directories() {
    assert!(!walks_into(".git"));
    assert!(walks_into("src"));
}

#[test]
fn summary_answer_is_trimmed() {
    let mut a = SummaryAnswer::new();
    a.add(Some(OllamaMessage { role: "assistant".to_string(), content: "  The gist".to_string(), thinking: None, tool_calls: None }));
    a.add(None);
    a.add(Some(OllamaMessage { role: "assistant".to_string(), content: " here. \n".to_string(), thinking: None, tool_calls: None }));
    assert_eq!(a.finish(), "The gist here.");
}

#[test]
fn an_answer_without_calls_ends_the_run() {
    let mut c = LoopController::new(5);
    assert!(c.start_round());
    assert!(c.take_answer(2));
    assert!(!c.take_answer(0));
    assert!(!c.start_round());
}

#[test]
fn a_call_is_announced_in_three_events() {
    let id = ToolCallId("call_12345678".to_string());
    let es = call_announcement(id.clone(), "read_file".to_string(), "{\"path\":\"a\"}".to_string());
    assert_eq!(es.len(), 3);
    assert!(matches!(&es[0], Event::ToolCallStart(e) if e.tool_call_id == id && e.tool_call_name == "read_file"));
    assert!(matches!(&es[1], Event::ToolCallArgs(e) if e.delta == "{\"path\":\"a\"}"));
    assert!(matches!(&es[2], Event::ToolCallEnd(e) if e.tool_call_id == id));
}

#[test]
fn a_failed_request_ends_the_run() {
    let t = ThreadId::random();
    let r = RunId::random();
    let es = failure_events("HTTP error: down".to_string(), t, r);
    assert!(matches!(&es[0], Event::RunError(e) if e.message == "HTTP error: down" && e.code.is_none()));
    assert!(matches!(&es[1], Event::RunFinished(e) if e.thread_id == t && e.run_id == r));
}

#[test]
fn json_equality_is_deep() {
    let mut a = Json::empty_object();
    a.insert("k".to_string(), Json::Array(vec![Json::Number(JsonNumber::PosInt(1)), Json::String("x".to_string())]));
    let b = a.duplicate();
    assert!(json_eq(&a, &b));
    let mut c = a.duplicate();
    c.insert("k".to_string(), Json::Array(vec![Json::Number(JsonNumber::PosInt(2)), Json::String("x".to_string())]));
    assert!(!json_eq(&a, &c));
    assert!(!json_eq(&Json::Null, &Json::Bool(false)));
    assert!(!json_eq(&Json::Number(JsonNumber::PosInt(1)), &Json::Number(JsonNumber::NegInt(1))));
}

#[test]
fn a_broken_stream_closes_thinking_then_reports() {
    let es = agent_forge::event::stream_failure_events(true, "HTTP error: reset".to_string());
    assert_eq!(es.len(), 2);
    assert!(matches!(&es[0], Event::ThinkingTextMessageEnd(_)));
    assert!(matches!(&es[1], Event::RunError(e) if e.message == "HTTP error: reset"));
    assert_eq!(agent_forge::event::stream_failure_events(false, "x".to_string()).len(), 1);
}

#[test]
fn closing_events_put_the_snapshot_before_the_end() {
    let t = ThreadId::random();
    let r = RunId::random();
    let events = closing_events(Some(Json::Bool(true)), t, r);
    assert_eq!(events.len(), 2);
    assert!(matches!(&events[0], Event::StateSnapshot(e) if json_eq(&e.snapshot, &Json::Bool(true))));
    assert!(matches!(&events[1], Event::RunFinished(e) if e.thread_id == t && e.run_id == r && e.result.is_none()));
    let events = closing_events(None, t, r);
    assert_eq!(events.len(), 1);
    assert!(matches!(&events[0], Event::RunFinished(_)));
}

#[test]
fn summary_kept_when_summarizing_fails() {
    let old = Some("earlier".to_string());
    assert_eq!(summary_after(old.clone(), None), old);
    assert_eq!(
        summary_after(old.clone(), Some(Err(AgentForgeError::Ollama("down".to_string())))),
        old
    );
    assert_eq!(summary_after(old, Some(Ok("newer".to_string()))), Some("newer".to_string()));
    assert_eq!(summary_after(None, Some(Ok("first".to_string()))), Some("first".to_string()));
}

#[test]
fn identifier_text_is_its_hyphenated_hex() {
    let t = ThreadId(0xa1a2a3a4b1b2c1c2d1d2d3d4d5d6d7d8);
    assert_eq!(t.text(), "a1a2a3a4-b1b2-c1c2-d1d2-d3d4d5d6d7d8");
    assert_eq!(RunId(0).text(), "00000000-0000-0000-0000-000000000000");
    assert_eq!(RunId(1).text(), "00000000-0000-0000-0000-000000000001");
}

#[test]
fn thread_text_reads_back_as_the_thread() {
    let t = ThreadId::random();
    assert_eq!(ThreadId::from_text(&t.text()), Some(t));
    assert_ne!(ThreadId::random().text(), ThreadId::random().text());
    assert_eq!(ThreadId::from_text("not a uuid"), None);
}
