use agent_forge::agent::AgentOptions;
use agent_forge::client::{
    ollama_request_body, ollama_stream_line, openrouter_request_body, user_message, ChatRequest,
};
use agent_forge::error::AgentForgeError;
use agent_forge::json::{Json, JsonNumber};
use agent_forge::memory::{
    memory_get_description, memory_get_name, memory_get_schema, memory_set_description,
    memory_set_name, memory_set_schema,
};
use agent_forge::tools::dir_create::CreateDirectoryTool;
use agent_forge::tools::file_list::FileListTool;
use agent_forge::tools::file_read::FileReadTool;
use agent_forge::tools::file_search::{FileSearchTool, GrepContentTool};
use agent_forge::tools::file_write::FileWriteTool;
use agent_forge::tools::schema::{object_from, parameter, string_array};

fn text(j: Option<&Json>) -> Option<String> {
    j.and_then(|v| v.as_str()).map(|t| t.to_string())
}

fn keys(j: &Json) -> Vec<String> {
    match j {
        Json::Object(m) => m.iter().map(|(k, _)| k.clone()).collect(),
        _ => Vec::new(),
    }
}

fn array_texts(j: Option<&Json>) -> Vec<String> {
    match j {
        Some(Json::Array(items)) => items.iter().filter_map(|v| v.as_str().map(|t| t.to_string())).collect(),
        _ => Vec::new(),
    }
}

#[test]
fn agent_options_fill_in_defaults() {
    let s = AgentOptions::new().build();
    assert_eq!(s.model, "llama3.2");
    assert_eq!(s.summary_model, "llama3.2");
    assert!(s.summarize);
    assert_eq!(s.context_messages, 3);
    assert!(!s.think);
    assert!(s.system_prompt.is_none());
    assert!(s.temperature_bits.is_none());
    assert!(s.max_tokens.is_none());
}

#[test]
fn summary_model_follows_the_model_unless_set() {
    let s = AgentOptions::new().model("qwen".to_string()).build();
    assert_eq!(s.summary_model, "qwen");
    let t = AgentOptions::new()
        .model("qwen".to_string())
        .summary_model("small".to_string())
        .temperature(0.7f32.to_bits())
        .max_tokens(64)
        .summarize(false)
        .context_messages(5)
        .think(true)
        .system_prompt("be brief".to_string())
        .build();
    assert_eq!(t.model, "qwen");
    assert_eq!(t.summary_model, "small");
    assert_eq!(t.temperature_bits.map(f32::from_bits), Some(0.7));
    assert_eq!(t.max_tokens, Some(64));
    assert!(!t.summarize);
    assert_eq!(t.context_messages, 5);
    assert!(t.think);
    assert_eq!(t.system_prompt.as_deref(), Some("be brief"));
}

#[test]
fn ollama_body_has_the_three_fixed_members() {
    let req = ChatRequest::new("m".to_string(), vec![user_message("hi")]);
    let body = ollama_request_body(req);
    assert_eq!(keys(&body), vec!["messages", "model", "stream"]);
    assert_eq!(text(body.get("model")), Some("m".to_string()));
    assert_eq!(body.get("stream").and_then(|v| v.as_bool()), Some(true));
    match body.get("messages") {
        Some(Json::Array(ms)) => {
            assert_eq!(ms.len(), 1);
            assert_eq!(text(ms[0].get("content")), Some("hi".to_string()));
        }
        other => panic!("messages: {:?}", other),
    }
}

#[test]
fn ollama_body_puts_sampling_in_options_and_asks_for_thinking() {
    let req = ChatRequest::new("m".to_string(), Vec::new())
        .with_tools(vec![Json::Null])
        .with_temperature(Json::Number(JsonNumber::Float(0.5f64.to_bits())))
        .with_max_tokens(10)
        .with_think(true);
    assert_eq!(req.think, Some(true));
    let body = ollama_request_body(req);
    assert_eq!(keys(&body), vec!["messages", "model", "options", "stream", "think", "tools"]);
    let options = body.get("options").unwrap();
    assert_eq!(keys(options), vec!["num_predict", "temperature"]);
    assert!(matches!(options.get("temperature"), Some(Json::Number(JsonNumber::Float(b))) if f64::from_bits(*b) == 0.5));
    assert_eq!(options.get("num_predict").and_then(|v| v.as_u64()), Some(10));
    assert_eq!(body.get("think").and_then(|v| v.as_bool()), Some(true));
    assert!(body.get("temperature").is_none());
    assert!(body.get("max_tokens").is_none());
}

#[test]
fn ollama_body_without_sampling_has_no_options() {
    let body = ollama_request_body(ChatRequest::new("m".to_string(), Vec::new()).with_max_tokens(7));
    assert_eq!(keys(body.get("options").unwrap()), vec!["num_predict"]);
    let plain = ollama_request_body(ChatRequest::new("m".to_string(), Vec::new()));
    assert!(plain.get("options").is_none());
    assert!(plain.get("think").is_none());
}

#[test]
fn openrouter_body_asks_for_reasoning_when_thinking() {
    let body = openrouter_request_body(ChatRequest::new("m".to_string(), Vec::new()).with_think(true));
    let r = body.get("reasoning").unwrap();
    assert_eq!(r.get("enabled").and_then(|v| v.as_bool()), Some(true));
}

#[test]
fn openrouter_body_always_streams_and_carries_the_token_limit() {
    let mut req = ChatRequest::new("m".to_string(), Vec::new()).with_max_tokens(10);
    req.stream = false;
    let body = openrouter_request_body(req);
    assert_eq!(keys(&body), vec!["max_tokens", "messages", "model", "stream"]);
    assert_eq!(body.get("stream").and_then(|v| v.as_bool()), Some(true));
    assert_eq!(body.get("max_tokens").and_then(|v| v.as_u64()), Some(10));
}

#[test]
fn empty_tool_list_is_left_out() {
    let req = ChatRequest::new("m".to_string(), Vec::new()).with_tools(Vec::new());
    let body = openrouter_request_body(req);
    assert!(body.get("tools").is_none());
}

#[test]
fn ollama_lines() {
    assert_eq!(ollama_stream_line(b"  \n").unwrap(), None);
    assert_eq!(ollama_stream_line(b"{\"model\":\"m\"}\n").unwrap(), Some("{\"model\":\"m\"}\n".to_string()));
    match ollama_stream_line(&[0xff, 0xfe]) {
        Err(AgentForgeError::Agent(m)) => assert!(m.contains("invalid utf-8")),
        other => panic!("expected an agent error, got {:?}", other),
    }
}

#[test]
fn parameter_without_type() {
    let p = parameter(None, "anything");
    assert_eq!(keys(&p), vec!["description"]);
    let q = parameter(Some("string"), "a name");
    assert_eq!(text(q.get("type")), Some("string".to_string()));
    assert_eq!(text(q.get("description")), Some("a name".to_string()));
}

#[test]
fn later_fields_win() {
    let o = object_from(vec![
        ("a".to_string(), Json::Bool(true)),
        ("a".to_string(), Json::Bool(false)),
        ("b".to_string(), Json::Null),
    ]);
    assert_eq!(keys(&o), vec!["a", "b"]);
    assert_eq!(o.get("a").and_then(|v| v.as_bool()), Some(false));
    assert_eq!(array_texts(Some(&string_array(&vec!["x", "y"]))), vec!["x", "y"]);
}

#[test]
fn read_file_schema() {
    let t = FileReadTool::new();
    assert_eq!(t.name(), "read_file");
    assert!(t.description().starts_with("Read the contents of a file"));
    let s = t.parameters_schema();
    assert_eq!(text(s.get("type")), Some("object".to_string()));
    let props = s.get("properties").unwrap();
    assert_eq!(keys(props), vec!["limit", "offset", "path"]);
    assert_eq!(text(props.get("offset").and_then(|o| o.get("type"))), Some("integer".to_string()));
    assert_eq!(array_texts(s.get("required")), vec!["path"]);
}

#[test]
fn every_schema_requires_declared_parameters() {
    let schemas = vec![
        FileReadTool::new().parameters_schema(),
        FileWriteTool::new().parameters_schema(),
        FileListTool::new().parameters_schema(),
        CreateDirectoryTool::new().parameters_schema(),
        FileSearchTool::new().parameters_schema(),
        GrepContentTool::new().parameters_schema(),
        memory_set_schema(),
        memory_get_schema(),
    ];
    for s in &schemas {
        let props = keys(s.get("properties").unwrap());
        for r in array_texts(s.get("required")) {
            assert!(props.contains(&r), "{} is required but not declared", r);
        }
    }
    assert_eq!(array_texts(schemas[1].get("required")), vec!["path", "content"]);
    assert_eq!(array_texts(schemas[5].get("required")), vec!["pattern", "path"]);
}

#[test]
fn memory_tools_describe_themselves() {
    assert_eq!(memory_set_name(), "memory_set");
    assert_eq!(memory_get_name(), "memory_get");
    assert!(memory_set_description().contains("key-value pair"));
    assert!(memory_get_description().contains("'not found'"));
    let s = memory_set_schema();
    let value = s.get("properties").and_then(|p| p.get("value")).unwrap();
    assert!(value.get("type").is_none());
    assert_eq!(array_texts(s.get("required")), vec!["key", "value"]);
}
