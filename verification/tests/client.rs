use agent_forge::client::{
    convert_chunk, create_client, is_blank, parse_sse_bytes, tool_definition_to_ollama,
    user_message, Choice, ClientChoice, Delta, StreamChunk, ToolCallChunk, ToolFunctionChunk,
};
use agent_forge::config::{
    default_context_messages, default_model, default_provider_name, default_summarize,
    default_url, path_join, Config, ProviderConfig,
};
use agent_forge::error::AgentForgeError;
use agent_forge::event::{Role, ToolCallId};
use agent_forge::json::Json;
use agent_forge::summarizer::{finish_summary, format_messages, summary_request, summary_system_prompt};

fn s(x: &str) -> Json {
    Json::String(x.to_string())
}

fn text_of(j: Option<&Json>) -> Option<String> {
    j.and_then(|v| v.as_str()).map(|t| t.to_string())
}

#[test]
fn defaults() {
    assert_eq!(default_provider_name(), "ollama");
    assert_eq!(default_model(), "llama3.2");
    assert_eq!(default_url(), "http://localhost:11434");
    assert_eq!(default_context_messages(), 3);
    assert!(default_summarize());
    let c = Config::default();
    assert_eq!(c.provider.name, "ollama");
    assert_eq!(c.context_messages, 3);
    assert!(c.summarize);
    assert!(c.workdir.is_none());
}

#[test]
fn cli_values_override_the_file() {
    let c = Config::default().merge_cli_overrides(
        Some("openrouter".to_string()),
        Some("m".to_string()),
        None,
        Some(0.5f32.to_bits()),
        Some("key".to_string()),
        None,
        Some("work".to_string()),
        Some(7),
        true,
        true,
        Some(100),
    );
    assert_eq!(c.provider.name, "openrouter");
    assert_eq!(c.provider.model, "m");
    assert_eq!(c.provider.url, "http://localhost:11434");
    assert_eq!(c.provider.temperature_bits.map(f32::from_bits), Some(0.5));
    assert_eq!(c.provider.api_key.as_deref(), Some("key"));
    assert_eq!(c.context_messages, 7);
    assert!(!c.summarize);
    assert!(c.provider.think);
    assert_eq!(c.provider.max_tokens, Some(100));
    assert_eq!(c.resolved_workdir("/home/u").as_deref(), Some("/home/u/work"));
    let unchanged = Config::default().merge_cli_overrides(None, None, None, None, None, None, None, None, false, false, None);
    assert!(unchanged.summarize);
    assert!(!unchanged.provider.think);
}

#[test]
fn path_joining() {
    assert_eq!(path_join("/a", "b"), "/a/b");
    assert_eq!(path_join("/a/", "b"), "/a/b");
    assert_eq!(path_join("/a", "/b"), "/b");
    assert_eq!(path_join("", "b"), "b");
}

#[test]
fn provider_choice() {
    let mut p = ProviderConfig::default();
    assert_eq!(
        create_client(&p).unwrap(),
        ClientChoice::Ollama { base_url: "http://localhost:11434".to_string() }
    );
    p.name = "openrouter".to_string();
    match create_client(&p) {
        Err(AgentForgeError::Config(m)) => assert_eq!(m, "OpenRouter provider requires an 'api_key'"),
        _ => panic!("expected a configuration error"),
    }
    p.api_key = Some("k".to_string());
    assert!(matches!(create_client(&p), Ok(ClientChoice::OpenRouter { .. })));
    p.name = "other".to_string();
    let e = create_client(&p).unwrap_err();
    assert_eq!(e.display(), "Configuration error: Unknown provider: 'other'. Available providers: ollama, openrouter");
}

#[test]
fn messages_and_tool_definitions() {
    let u = user_message("hi");
    assert_eq!(text_of(u.get("role")), Some("user".to_string()));
    assert_eq!(text_of(u.get("content")), Some("hi".to_string()));
    let d = tool_definition_to_ollama("read_file", "Reads", Json::Bool(true));
    assert_eq!(text_of(d.get("type")), Some("function".to_string()));
    let f = d.get("function").unwrap();
    assert_eq!(text_of(f.get("name")), Some("read_file".to_string()));
    assert_eq!(text_of(f.get("description")), Some("Reads".to_string()));
    assert!(matches!(f.get("parameters"), Some(Json::Bool(true))));
}

#[test]
fn sse_lines() {
    let bytes = b"data: {\"a\":1}\n\n: keep-alive\ndata: [DONE]\n  {\"b\":2}  \nnoise\n";
    assert_eq!(parse_sse_bytes(bytes), vec!["{\"a\":1}".to_string(), "{\"b\":2}".to_string()]);
    assert!(is_blank("  \r\n"));
    assert!(!is_blank(" x "));
}

#[test]
fn openrouter_chunks_read_as_ollama_chunks() {
    let chunk = StreamChunk {
        choices: vec![Choice {
            delta: Delta {
                content: Some("Hi".to_string()),
                reasoning_content: Some("r".to_string()),
                tool_calls: Some(vec![ToolCallChunk {
                    index: Some(0),
                    function: ToolFunctionChunk { name: None, arguments: None, arguments_json: None },
                }]),
            },
            finish_reason: Some("tool_calls".to_string()),
        }],
    };
    let c = convert_chunk(chunk).unwrap();
    assert_eq!(c.done, Some(true));
    let m = c.message.unwrap();
    assert_eq!(m.role, "assistant");
    assert_eq!(m.content, "Hi");
    assert_eq!(m.thinking.as_deref(), Some("r"));
    let calls = m.tool_calls.unwrap();
    assert_eq!(calls[0].function.name, "");
    assert_eq!(calls[0].function.arguments_json, "{}");
    assert!(convert_chunk(StreamChunk { choices: vec![] }).is_none());
    let plain = StreamChunk {
        choices: vec![Choice {
            delta: Delta { content: None, reasoning_content: None, tool_calls: None },
            finish_reason: Some("length".to_string()),
        }],
    };
    let p = convert_chunk(plain).unwrap();
    assert_eq!(p.done, Some(false));
    assert!(p.message.unwrap().tool_calls.is_none());
}

#[test]
fn summary_requests() {
    let mut with_calls = Json::empty_object();
    with_calls.insert("role".to_string(), s("assistant"));
    with_calls.insert("content".to_string(), s(""));
    let messages = vec![user_message("hi"), with_calls, agent_forge::client::system_message("x")];
    let listing = format_messages(&messages, &vec![None, Some("[{}]".to_string()), None]);
    assert_eq!(listing, "user: hi\nassistant: [tool call: [{}]]\n");
    let first = summary_request(&messages, &vec![None, None, None], &None);
    assert_eq!(
        first,
        "Summarize the following conversation concisely. Include key facts, decisions, and important context.\n\n---\n\nConversation messages:\nuser: hi\n"
    );
    let update = summary_request(&vec![], &vec![], &Some("old {}".to_string()));
    assert!(update.starts_with("Here is the previous summary of the conversation:\n\nold {}\n\nNow update it"));
    assert_eq!(finish_summary("  done \n"), "done");
    assert!(summary_system_prompt().starts_with("You are a conversation summarizer."));
}

#[test]
fn tool_call_ids() {
    let id = ToolCallId::random();
    assert_eq!(id.as_str().len(), 13);
    assert!(id.as_str().starts_with("call_"));
    assert!(Role::Assistant != Role::Tool);
}
