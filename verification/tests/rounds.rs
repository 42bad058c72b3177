use agent_forge::client::{user_message, OllamaFunction, OllamaToolCall};
use agent_forge::event::{Event, MessageId};
use agent_forge::json::Json;
use agent_forge::session::store::SessionData;
use agent_forge::session::stream::{event_of, finalize_calls, StreamEvent};
use agent_forge::session::{plan_request_messages, round_request, state_patch};

fn role_msg(role: &str, content: &str) -> Json {
    let mut o = Json::empty_object();
    o.insert("role".to_string(), Json::String(role.to_string()));
    o.insert("content".to_string(), Json::String(content.to_string()));
    o
}

fn complete_call(name: &str) -> OllamaToolCall {
    OllamaToolCall {
        index: None,
        function: OllamaFunction { name: name.to_string(), arguments: Json::empty_object(), arguments_json: "{}".to_string() },
    }
}

#[test]
fn without_summarization_every_message_is_sent() {
    let ms = vec![role_msg("system", "s"), user_message("a"), user_message("b")];
    let plan = plan_request_messages(false, &Some("sys".to_string()), &None, 1, &ms);
    assert!(plan.system.is_none());
    assert_eq!(plan.history, vec![0, 1, 2]);
}

#[test]
fn with_summarization_the_last_messages_are_sent() {
    let ms = vec![role_msg("system", "s"), user_message("a"), user_message("b")];
    let plan = plan_request_messages(true, &Some("sys".to_string()), &None, 1, &ms);
    assert_eq!(plan.history, vec![2]);
    let system = plan.system.unwrap();
    assert_eq!(system.get("content").and_then(|c| c.as_str()), Some("sys\n\n## Last messages\nuser: b"));
}

#[test]
fn round_request_asks_for_thinking_only_when_on() {
    let r = round_request("m".to_string(), Vec::new(), Vec::new(), None, Some(5), false);
    assert!(r.think.is_none());
    assert!(r.stream);
    assert_eq!(r.max_tokens, Some(5));
    let t = round_request("m".to_string(), Vec::new(), Vec::new(), Some(Json::Null), None, true);
    assert_eq!(t.think, Some(true));
    assert!(matches!(t.temperature, Some(Json::Null)));
}

#[test]
fn state_patch_replaces_the_whole_state() {
    let p = state_patch(Json::Bool(true));
    assert_eq!(p.get("op").and_then(|v| v.as_str()), Some("replace"));
    assert_eq!(p.get("path").and_then(|v| v.as_str()), Some(""));
    assert_eq!(p.get("value").and_then(|v| v.as_bool()), Some(true));
}

#[test]
fn stream_events_become_session_events() {
    let id = MessageId::random();
    assert!(matches!(event_of(StreamEvent::ThinkingStart, id), Event::ThinkingTextMessageStart(_)));
    assert!(matches!(event_of(StreamEvent::ThinkingEnd, id), Event::ThinkingTextMessageEnd(_)));
    match event_of(StreamEvent::ThinkingContent("hm".to_string()), id) {
        Event::ThinkingTextMessageContent(c) => assert_eq!(c.delta, "hm"),
        _ => panic!("expected thinking content"),
    }
    match event_of(StreamEvent::TextContent("hi".to_string()), id) {
        Event::TextMessageContent(c) => {
            assert_eq!(c.delta, "hi");
            assert_eq!(c.message_id, id);
        }
        _ => panic!("expected text content"),
    }
}

#[test]
fn finished_calls_follow_complete_ones() {
    let mut args = Json::empty_object();
    args.insert("path".to_string(), Json::String("a".to_string()));
    let calls = finalize_calls(
        vec![complete_call("list_directory")],
        vec![
            (0, "read_file".to_string(), Some((args, "{\"path\":\"a\"}".to_string()))),
            (3, "write_file".to_string(), None),
        ],
    );
    assert_eq!(calls.len(), 3);
    assert_eq!(calls[0].function.name, "list_directory");
    assert_eq!(calls[1].index, Some(0));
    assert_eq!(calls[1].function.arguments.get("path").and_then(|v| v.as_str()), Some("a"));
    assert_eq!(calls[2].index, Some(3));
    assert_eq!(calls[2].function.arguments_json, "{}");
    assert!(matches!(&calls[2].function.arguments, Json::Object(m) if m.is_empty()));
}

#[test]
fn duplicates_are_deep_copies() {
    let mut state = Json::empty_object();
    state.insert("k".to_string(), Json::Array(vec![Json::String("v".to_string()), Json::Null]));
    let data = SessionData { messages: vec![user_message("x")], state, summary: Some("s".to_string()) };
    let copy = data.duplicate();
    assert_eq!(copy.summary.as_deref(), Some("s"));
    assert_eq!(copy.messages[0].get("content").and_then(|v| v.as_str()), Some("x"));
    match copy.state.get("k") {
        Some(Json::Array(items)) => {
            assert_eq!(items.len(), 2);
            assert_eq!(items[0].as_str(), Some("v"));
        }
        other => panic!("state: {:?}", other),
    }
}

#[test]
fn assistant_message_has_role_and_content() {
    let m = agent_forge::client::assistant_message("done");
    assert_eq!(m.get("role").and_then(|v| v.as_str()), Some("assistant"));
    assert_eq!(m.get("content").and_then(|v| v.as_str()), Some("done"));
}

#[test]
fn bad_expression_is_reported_with_its_error() {
    match agent_forge::tools::file_search::compile_grep_pattern("(", true) {
        Err(agent_forge::error::AgentForgeError::ToolExecution(m)) => {
            assert!(m.starts_with("Invalid regex pattern: "));
            assert!(m.len() > "Invalid regex pattern: ".len());
        }
        Err(other) => panic!("unexpected error {:?}", other),
        Ok(_) => panic!("an unclosed group compiled"),
    }
}

#[test]
fn tool_call_ids_are_hex() {
    let id = agent_forge::event::ToolCallId::random();
    assert!(id.as_str().starts_with("call_"));
    assert_eq!(id.as_str().len(), 13);
    assert!(id.as_str()[5..].chars().all(|c| c.is_ascii_hexdigit() && !c.is_ascii_uppercase()));
    let t = agent_forge::event::ThreadId::random().text();
    assert_eq!(t.len(), 36);
    assert_eq!(&t[8..9], "-");
}

#[test]
fn runs_make_ten_requests_at_most_by_default() {
    assert_eq!(agent_forge::session::default_max_rounds(), 10);
}
