use agent_forge::error::AgentForgeError;
use agent_forge::json::{Json, JsonNumber};
use agent_forge::memory::{memory_get, memory_set, not_found_report};
use agent_forge::tools::dir_create::{create_failed, created_report, exists_report, not_a_directory, CreateDirectoryTool};
use agent_forge::tools::file_list::{entry_line, listing, EntryKind, FileListTool};
use agent_forge::tools::file_read::{
    binary_file_notice, file_type_label, parse_read_args, render_file_lines, FileReadTool,
};
use agent_forge::tools::file_search::{
    compile_grep_pattern, grep_summary, grep_text, parse_grep_args, parse_search_args,
    matches_inside, search_pattern, search_summary, FileSearchTool, GrepContentTool,
};
use agent_forge::tools::file_write::{parse_write_args, write_summary, FileWriteTool};
use agent_forge::tools::registry::{tool_slot, ToolNames};
use agent_forge::tools::{
    create_step, resolve_path, resolve_path_allow_create, resolve_path_with, CreateStep, DiskAnswer,
    DiskQuestion,
};

fn s(x: &str) -> Json {
    Json::String(x.to_string())
}

fn obj(fields: Vec<(&str, Json)>) -> Json {
    let mut o = Json::empty_object();
    for (k, v) in fields {
        o.insert(k.to_string(), v);
    }
    o
}

fn detail(e: AgentForgeError) -> String {
    match e {
        AgentForgeError::ToolExecution(m) => format!("tool: {}", m),
        AgentForgeError::InvalidRequest(m) => format!("invalid: {}", m),
        other => format!("other: {:?}", other),
    }
}

#[test]
fn resolve_decision_follows_canonical_forms() {
    let ok = resolve_path_with("/w", "a", Ok("/w".to_string()), Ok("/w/a".to_string()));
    assert_eq!(ok.unwrap(), "/w/a");
    let out = resolve_path_with("/w", "../x", Ok("/w".to_string()), Ok("/x".to_string()));
    assert_eq!(detail(out.unwrap_err()), "tool: Path '../x' is outside the working directory");
    let missing = resolve_path_with("/w", "b", Ok("/w".to_string()), Err("gone".to_string()));
    assert_eq!(detail(missing.unwrap_err()), "tool: Path 'b' does not exist: gone");
    let bad = resolve_path_with("/w", "b", Err("no dir".to_string()), Ok("/w/b".to_string()));
    assert_eq!(detail(bad.unwrap_err()), "tool: Invalid workdir '/w': no dir");
    let prefix_only = resolve_path_with("/w", "x", Ok("/w".to_string()), Ok("/wx".to_string()));
    assert!(prefix_only.is_err());
}

#[test]
fn resolve_path_on_the_root() {
    assert_eq!(resolve_path("/", "etc").unwrap(), "/etc");
    assert!(resolve_path("/", "no_such_entry_here_42").is_err());
    let outside = resolve_path("/etc", "/");
    assert_eq!(detail(outside.unwrap_err()), "tool: Path '/' is outside the working directory");
}

#[test]
fn resolve_for_creation() {
    assert_eq!(
        resolve_path_allow_create("/", "no_such_dir_42/new.txt").unwrap(),
        "/no_such_dir_42/new.txt"
    );
    assert_eq!(resolve_path_allow_create("/", "etc").unwrap(), "/etc");
    let outside = resolve_path_allow_create("/etc", "/no_such_dir_42/x");
    assert!(outside.is_err());
}

#[test]
fn tools_without_workdir_use_the_path() {
    assert_eq!(FileReadTool::new().resolve("x/y").unwrap(), "x/y");
    assert_eq!(FileWriteTool::new().resolve("x/y").unwrap(), "x/y");
    assert_eq!(FileListTool::new().resolve("x").unwrap(), "x");
    assert_eq!(FileSearchTool::new().resolve(".").unwrap(), ".");
    assert_eq!(GrepContentTool::new().resolve("a").unwrap(), "a");
    assert_eq!(CreateDirectoryTool::new().resolve("d").unwrap(), "d");
    assert!(FileReadTool::new().with_workdir("/".to_string()).resolve("etc").is_ok());
    assert!(CreateDirectoryTool::new().with_workdir("/".to_string()).resolve("no_such_42").is_ok());
    assert_eq!(FileReadTool::new().name(), "read_file");
    assert_eq!(GrepContentTool::new().name(), "grep_content");
}

#[test]
fn read_arguments() {
    let a = obj(vec![
        ("path", s("f.txt")),
        ("offset", Json::Number(JsonNumber::PosInt(0))),
        ("limit", Json::Number(JsonNumber::PosInt(5))),
    ]);
    let r = parse_read_args(&a).unwrap();
    assert_eq!(r.path, "f.txt");
    assert_eq!(r.offset, 1);
    assert_eq!(r.limit, Some(5));
    let b = obj(vec![("path", s("g")), ("offset", Json::Number(JsonNumber::NegInt(-3)))]);
    assert_eq!(parse_read_args(&b).unwrap().offset, 1);
    let e = parse_read_args(&obj(vec![("path", Json::Bool(true))])).unwrap_err();
    assert_eq!(detail(e), "invalid: path must be a string");
}

#[test]
fn file_report_ranges() {
    let text = "a\nb\nc\nd\n";
    assert_eq!(render_file_lines("f", text, 1, None), "[file: f, 4 lines]\na\nb\nc\nd");
    assert_eq!(
        render_file_lines("f", text, 2, Some(2)),
        "[file: f, lines 2-3 of 4, more below]\nb\nc"
    );
    assert_eq!(render_file_lines("f", text, 3, Some(10)), "[file: f, lines 3-4 of 4]\nc\nd");
    assert_eq!(
        render_file_lines("f", text, 9, None),
        "[file: f, lines 9-9 of 4]\n(offset is past end of file)"
    );
    assert_eq!(render_file_lines("f", "", 1, None), "[file: f, 0 lines (empty)]\n");
    assert_eq!(
        render_file_lines("f", text, 1, Some(u64::MAX)),
        "[file: f, 4 lines]\na\nb\nc\nd"
    );
}

#[test]
fn binary_labels() {
    assert_eq!(file_type_label("Report.PDF"), "PDF");
    assert_eq!(file_type_label("x.jpeg"), "JPEG");
    assert_eq!(file_type_label("lib.DLL"), "binary executable");
    assert_eq!(file_type_label("f.woff2"), "font");
    assert_eq!(file_type_label("data.bin"), "binary");
    assert_eq!(
        binary_file_notice("img.PNG", "2.0KB"),
        "[file: img.PNG \u{2014} PNG file, cannot display as text. Size: 2.0KB]"
    );
}

#[test]
fn search_arguments_and_answers() {
    let a = obj(vec![("pattern", s("*.rs"))]);
    let r = parse_search_args(&a).unwrap();
    assert_eq!(r.pattern, "*.rs");
    assert_eq!(r.base, ".");
    assert_eq!(search_pattern("/w", "**/*.md"), "/w/**/*.md");
    assert_eq!(search_pattern("/w", "/abs/*.md"), "/abs/*.md");
    assert_eq!(search_summary(&vec![]), "No files found matching the pattern.");
    assert_eq!(search_summary(&vec!["a".to_string(), "b".to_string()]), "a\nb");
    let e = parse_search_args(&Json::empty_object()).unwrap_err();
    assert_eq!(detail(e), "invalid: pattern must be a string");
}

#[test]
fn grep_matches_lines_ignoring_case_by_default() {
    let a = obj(vec![("pattern", s("hello")), ("path", s("src"))]);
    let r = parse_grep_args(&a).unwrap();
    assert!(!r.case_sensitive);
    let p = compile_grep_pattern(&r.pattern, r.case_sensitive).unwrap();
    let mut hits = Vec::new();
    grep_text("f.txt", "Hello world\nnothing\nsay hello\n", &p, &mut hits);
    assert_eq!(hits, vec!["f.txt:1: Hello world".to_string(), "f.txt:3: say hello".to_string()]);
    let strict = compile_grep_pattern("hello", true).unwrap();
    let mut few = Vec::new();
    grep_text("f.txt", "Hello world\nsay hello", &strict, &mut few);
    assert_eq!(few, vec!["f.txt:2: say hello".to_string()]);
    assert_eq!(grep_summary(&vec![]), "No matches found.");
    assert!(compile_grep_pattern("(", true).is_err());
    let e = parse_grep_args(&obj(vec![("pattern", s("x"))])).unwrap_err();
    assert_eq!(detail(e), "invalid: path must be a string");
}

#[test]
fn write_arguments_and_report() {
    let a = obj(vec![("path", s("out.txt")), ("content", s("h\u{e9}")), ("append", Json::Bool(true))]);
    let r = parse_write_args(&a).unwrap();
    assert!(r.append);
    assert_eq!(write_summary(&r.path, &r.content, r.append), "Appended 3 bytes to out.txt");
    assert_eq!(write_summary("o", "abc", false), "Successfully wrote 3 bytes to o");
    let e = parse_write_args(&obj(vec![("path", s("x"))])).unwrap_err();
    assert_eq!(detail(e), "invalid: content must be a string");
}

#[test]
fn directory_reports() {
    assert_eq!(exists_report("d"), "Directory already exists: d");
    assert_eq!(created_report("d"), "Created directory: d");
    assert_eq!(detail(not_a_directory("d")), "tool: Path 'd' exists but is not a directory");
    assert_eq!(detail(create_failed("d", "denied")), "tool: Failed to create directory 'd': denied");
}

#[test]
fn listing_lines() {
    let lines = vec![
        entry_line(EntryKind::Directory, "src"),
        entry_line(EntryKind::File, "a.rs"),
        entry_line(EntryKind::Other, "sock"),
    ];
    assert_eq!(listing(&lines), "[DIR] src\n[FILE] a.rs\n[UNKNOWN] sock");
    assert_eq!(listing(&vec![]), "");
}

#[test]
fn memory_round_trip() {
    let mut state = Json::empty_object();
    let r = memory_set(&mut state, obj(vec![("key", s("color")), ("value", s("blue"))])).unwrap();
    assert_eq!(r, "Stored 'color' in memory");
    let found = memory_get(&state, &obj(vec![("key", s("color"))])).unwrap();
    assert_eq!(found.and_then(|v| v.as_str()), Some("blue"));
    let missing = memory_get(&state, &obj(vec![("key", s("size"))])).unwrap();
    assert!(missing.is_none());
    assert_eq!(not_found_report("size"), "Key 'size' not found in memory");
    memory_set(&mut state, obj(vec![("key", s("n"))])).unwrap();
    assert!(matches!(memory_get(&state, &obj(vec![("key", s("n"))])).unwrap(), Some(Json::Null)));
    let mut scalar = Json::Bool(false);
    memory_set(&mut scalar, obj(vec![("key", s("k")), ("value", Json::Bool(true))])).unwrap();
    assert_eq!(memory_get(&scalar, &obj(vec![("key", s("k"))])).unwrap().and_then(|v| v.as_bool()), Some(true));
    let e = memory_set(&mut state, obj(vec![("value", s("x"))])).unwrap_err();
    assert_eq!(detail(e), "invalid: key must be a string");
}

#[test]
fn tool_names_keep_one_slot_per_name() {
    let mut names = ToolNames::new();
    assert_eq!(names.register("read_file"), 0);
    assert_eq!(names.register("write_file"), 1);
    assert_eq!(names.register("read_file"), 0);
    assert_eq!(names.len(), 2);
    assert_eq!(names.slot("write_file"), Some(1));
    assert_eq!(names.slot("grep_content"), None);
    assert_eq!(names.name(1), "write_file");
    let copy = names.duplicate();
    assert_eq!(copy.slot("read_file"), Some(0));
    assert_eq!(copy.len(), 2);
}

#[test]
fn unknown_tool_is_not_found() {
    let mut names = ToolNames::new();
    names.register("list_directory");
    assert!(matches!(tool_slot(&names, "list_directory"), Ok(0)));
    match tool_slot(&names, "delete_file") {
        Err(AgentForgeError::ToolNotFound(n)) => assert_eq!(n, "delete_file"),
        other => panic!("unexpected: {:?}", other),
    }
}

fn ask(base: &str, path: &str, answers: &Vec<DiskAnswer>) -> String {
    match create_step(base, path, answers) {
        CreateStep::Ask(DiskQuestion::CanonicalForm(p)) => format!("canonical {}", p),
        CreateStep::Ask(DiskQuestion::Exists(p)) => format!("exists {}", p),
        CreateStep::Done(r) => format!("done {:?}", r.map_err(|e| e.display())),
    }
}

#[test]
fn create_step_walks_up_to_an_existing_ancestor() {
    let mut answers: Vec<DiskAnswer> = Vec::new();
    assert_eq!(ask("/w", "a/b/c.txt", &answers), "canonical /w");
    answers.push(DiskAnswer::CanonicalForm(Ok("/w".to_string())));
    assert_eq!(ask("/w", "a/b/c.txt", &answers), "exists /w/a/b/c.txt");
    answers.push(DiskAnswer::Exists(false));
    assert_eq!(ask("/w", "a/b/c.txt", &answers), "exists /w/a/b");
    answers.push(DiskAnswer::Exists(false));
    assert_eq!(ask("/w", "a/b/c.txt", &answers), "exists /w/a");
    answers.push(DiskAnswer::Exists(false));
    assert_eq!(ask("/w", "a/b/c.txt", &answers), "exists /w");
    answers.push(DiskAnswer::Exists(true));
    assert_eq!(ask("/w", "a/b/c.txt", &answers), "canonical /w");
    answers.push(DiskAnswer::CanonicalForm(Ok("/w".to_string())));
    assert_eq!(ask("/w", "a/b/c.txt", &answers), "done Ok(\"/w/a/b/c.txt\")");
}

#[test]
fn create_step_checks_an_existing_path_itself() {
    let answers = vec![
        DiskAnswer::CanonicalForm(Ok("/w".to_string())),
        DiskAnswer::Exists(true),
    ];
    assert_eq!(ask("/w", "link", &answers), "canonical /w/link");
    let mut answers = answers;
    answers.push(DiskAnswer::CanonicalForm(Ok("/etc/passwd".to_string())));
    assert_eq!(
        ask("/w", "link", &answers),
        "done Err(\"Tool execution failed: Path 'link' is outside the working directory\")"
    );
}

#[test]
fn create_step_refuses_climbing_past_a_missing_parent() {
    let answers = vec![
        DiskAnswer::CanonicalForm(Ok("/w".to_string())),
        DiskAnswer::Exists(false),
        DiskAnswer::Exists(false),
    ];
    assert_eq!(
        ask("/w", "new/../../x", &answers),
        "done Err(\"Tool execution failed: Path 'new/../../x' is outside the working directory\")"
    );
}

#[test]
fn matches_outside_the_workdir_are_dropped() {
    let matches = vec![
        ("/w/a.txt".to_string(), Some("/w/a.txt".to_string())),
        ("/w/link/b.txt".to_string(), Some("/etc/b.txt".to_string())),
        ("/w/broken".to_string(), None),
        ("/w/c.txt".to_string(), Some("/wx/c.txt".to_string())),
        ("/w/d/e.txt".to_string(), Some("/w/d/e.txt".to_string())),
    ];
    assert_eq!(
        matches_inside("/w", &matches),
        vec!["/w/a.txt".to_string(), "/w/d/e.txt".to_string()]
    );
    assert!(matches_inside("/w", &Vec::new()).is_empty());
}

#[test]
fn unconfined_tools_keep_every_match() {
    let m = vec!["/etc/passwd".to_string(), "a".to_string()];
    assert_eq!(FileSearchTool::new().confine(m.clone()), m);
    assert_eq!(GrepContentTool::new().confine(m.clone()), m);
}
