use agent_forge::agent_prompt::AgentPrompt;

#[test]
fn test_parse_structured_prompt() {
    let content = r#"## Role
You are a helpful assistant.

## Context
You specialize in coding.
"#;
    let prompt = AgentPrompt::from_str(content).unwrap();
    assert_eq!(
        prompt.get_section("Role"),
        Some("You are a helpful assistant.")
    );
    assert_eq!(
        prompt.get_section("Context"),
        Some("You specialize in coding.")
    );
}

#[test]
fn test_fallback_raw_prompt() {
    let content = "Just a plain system prompt without headers.";
    let prompt = AgentPrompt::from_str(content).unwrap();
    assert_eq!(
        prompt.to_system_prompt(),
        "Just a plain system prompt without headers."
    );
}

#[test]
fn sections_render_in_header_order() {
    let content = "## Role\nHelper\n\n## Context\nCoding\n";
    let prompt = AgentPrompt::from_str(content).unwrap();
    assert_eq!(
        prompt.to_system_prompt(),
        "## Context\nCoding\n\n## Role\nHelper"
    );
}

#[test]
fn repeated_header_keeps_last_content() {
    let content = "## A\nfirst\n## A\nsecond\n";
    let prompt = AgentPrompt::from_str(content).unwrap();
    assert_eq!(prompt.get_section("A"), Some("second"));
    assert_eq!(prompt.to_system_prompt(), "## A\nsecond");
}

#[test]
fn text_before_first_header_joins_first_section() {
    let content = "Intro\n## Role\nBody\n";
    let prompt = AgentPrompt::from_str(content).unwrap();
    assert_eq!(prompt.get_section("Role"), Some("Intro\nBody"));
}

#[test]
fn headers_are_trimmed_and_crlf_lines_read() {
    let content = "##   Role  \r\nLine one\r\nLine two\r\n";
    let prompt = AgentPrompt::from_str(content).unwrap();
    assert_eq!(prompt.get_section("Role"), Some("Line one\nLine two"));
    assert_eq!(prompt.get_section("Missing"), None);
}

#[test]
fn raw_prompt_is_trimmed_whitespace_included() {
    let content = "\u{3000}  plain text \n\t";
    let prompt = AgentPrompt::from_str(content).unwrap();
    assert_eq!(prompt.to_system_prompt(), "plain text");
    assert_eq!(prompt.get_section("plain text"), None);
}

#[test]
fn empty_prompt_is_empty() {
    let prompt = AgentPrompt::from_str("").unwrap();
    assert_eq!(prompt.to_system_prompt(), "");
}

#[test]
fn header_without_space_is_text() {
    let prompt = AgentPrompt::from_str("##Role\ntext").unwrap();
    assert_eq!(prompt.to_system_prompt(), "##Role\ntext");
    assert_eq!(prompt.get_section("Role"), None);
}

#[test]
fn rendered_prompt_parses_back() {
    let content = "## Role\nYou help.\n\n## Steps\nRead first.\n  Then write.\n\n## Empty\n";
    let prompt = AgentPrompt::from_str(content).unwrap();
    let rendered = prompt.to_system_prompt();
    let again = AgentPrompt::from_str(&rendered).unwrap();
    for name in ["Role", "Steps", "Empty", "Missing"] {
        assert_eq!(again.get_section(name), prompt.get_section(name));
    }
    assert_eq!(again.get_section("Steps"), Some("Read first.\n  Then write."));
    assert_eq!(again.get_section("Empty"), Some(""));
    assert_eq!(again.to_system_prompt(), rendered);
}
