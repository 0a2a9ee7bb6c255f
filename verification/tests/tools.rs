use jarvis::tools::command::{command_report, is_batch_shim, looks_path_like, plan_run_command, timeout_message};
use jarvis::tools::definitions::{builtin_tools, read_only_tools};
use jarvis::tools::executor::{
    ReadOnlyRequest, ReadOnlyToolExecutor, ToolArgs, WriteExecRequest, WriteExecToolExecutor, MAX_WRITE_BYTES,
};
use jarvis::tools::output::{cap_output, MAX_TOOL_OUTPUT};

fn args_with_command(c: &str) -> ToolArgs {
    ToolArgs { command: Some(c.to_string()), ..Default::default() }
}

#[test]
fn write_exec_tool_names_includes_both_sets() {
    let names = WriteExecToolExecutor::tool_names();
    assert!(names.contains(&"read_file"));
    assert!(names.contains(&"write_file"));
    assert!(names.contains(&"run_command"));
}

#[test]
fn read_only_executor_names_and_refusals() {
    let names = ReadOnlyToolExecutor::tool_names();
    assert_eq!(names, vec!["read_file", "search_files", "search_content", "list_directory"]);
    let exec = ReadOnlyToolExecutor::new("/srv/work".to_string());
    let res = exec.plan("run_command", &args_with_command("ls"));
    assert!(res.unwrap_err().contains("read-only"));
    let res = exec.plan("write_file", &ToolArgs { path: Some("x".into()), content: Some("y".into()), ..Default::default() });
    assert!(res.is_err());
}

#[test]
fn read_only_plan_requires_arguments() {
    let exec = ReadOnlyToolExecutor::new("/srv/work".to_string());
    assert!(exec.plan("read_file", &ToolArgs::default()).is_err());
    match exec.plan("read_file", &ToolArgs { path: Some("a.txt".into()), ..Default::default() }) {
        Ok(ReadOnlyRequest::ReadFile { path }) => assert_eq!(path, "a.txt"),
        other => panic!("unexpected {other:?}"),
    }
}

#[test]
fn resolve_and_relativize_against_root() {
    let exec = ReadOnlyToolExecutor::new("/srv/work".to_string());
    assert_eq!(exec.resolve("a/b.txt"), "/srv/work/a/b.txt");
    assert_eq!(exec.resolve("/etc/hosts"), "/etc/hosts");
    assert_eq!(exec.relativize("/srv/work/a/b.txt"), "a/b.txt");
}

#[test]
fn write_file_oversize_is_refused_by_plan() {
    let exec = WriteExecToolExecutor::new("/srv/work".to_string());
    let big = "x".repeat(MAX_WRITE_BYTES + 1);
    let res = exec.plan("write_file", &ToolArgs { path: Some("big.txt".into()), content: Some(big), ..Default::default() });
    assert!(res.unwrap_err().contains("limit"));
    let ok = exec.plan("write_file", &ToolArgs { path: Some("o.txt".into()), content: Some("hello".into()), ..Default::default() });
    assert!(matches!(ok, Ok(WriteExecRequest::WriteFile { .. })));
}

#[test]
fn unknown_tool_is_refused_by_plan() {
    let exec = WriteExecToolExecutor::new("/srv/work".to_string());
    assert!(exec.plan("nope", &ToolArgs::default()).unwrap_err().contains("Unknown tool"));
}

#[test]
fn run_command_tokens_are_literal() {
    // A `;` stays inside its token: `status;` is no allowed git subcommand.
    assert!(plan_run_command("git status; rm -rf .").unwrap_err().contains("not allowed"));
    assert!(plan_run_command("   ").is_err());
    for cmd in ["/bin/ls", "../ls", "./ls", "sub/ls"] {
        assert!(plan_run_command(cmd).is_err(), "path-qualified argv0 '{cmd}' must be rejected");
    }
    assert!(plan_run_command("curl http://evil").unwrap_err().contains("not allowed"));
    assert_eq!(plan_run_command("ls -la 'a b'").unwrap(), vec!["ls", "-la", "a b"]);
    assert!(plan_run_command("echo 'unterminated").unwrap_err().contains("cannot parse"));
    assert_eq!(plan_run_command("echo \"open").unwrap_err(), "run_command: cannot parse command: missing closing quote");
}

#[test]
fn path_like_tokens_and_shims() {
    assert!(looks_path_like("../x"));
    assert!(looks_path_like("~"));
    assert!(looks_path_like("/etc"));
    assert!(looks_path_like("a/b"));
    assert!(!looks_path_like("-la"));
    assert!(is_batch_shim("C:/bin/npm.CMD"));
    assert!(is_batch_shim("x.bat"));
    assert!(!is_batch_shim("/usr/bin/node"));
}

#[test]
fn command_reports() {
    assert_eq!(command_report(Some(0), "ok"), "exit code: 0\nok");
    assert_eq!(command_report(None, ""), "exit code: signal\n");
    assert_eq!(timeout_message("sleep", 30), "run_command: 'sleep' timed out after 30s and was killed");
}

#[test]
fn output_truncation() {
    let big = "x".repeat(MAX_TOOL_OUTPUT + 5000);
    let out = cap_output(&big);
    assert!(out.len() <= MAX_TOOL_OUTPUT + 100, "output should be capped");
    assert!(out.contains("truncated"), "should note truncation");
    assert_eq!(cap_output("short"), "short");
}

#[test]
fn output_cap_counts_characters() {
    let wide = "é".repeat(7000);
    assert_eq!(cap_output(&wide), wide);
    let exact = "é".repeat(MAX_TOOL_OUTPUT);
    assert_eq!(cap_output(&exact), exact);
    let over = "é".repeat(MAX_TOOL_OUTPUT + 1);
    let out = cap_output(&over);
    assert!(out.starts_with(&"é".repeat(MAX_TOOL_OUTPUT)));
    assert!(out.contains("truncated"));
}

#[test]
fn builtin_and_read_only_tool_sets() {
    let all: Vec<&str> = builtin_tools().iter().map(|t| t.name).collect();
    assert_eq!(all, vec!["run_command", "read_file", "write_file", "search_files", "search_content", "list_directory"]);
    let ro: Vec<&str> = read_only_tools().iter().map(|t| t.name).collect();
    assert_eq!(ro, vec!["read_file", "search_files", "search_content", "list_directory"]);
    let rc = &builtin_tools()[0];
    assert_eq!(rc.params.iter().filter(|p| p.required).count(), 1);
}

#[test]
fn run_command_takes_only_the_command() {
    let rc = &builtin_tools()[0];
    assert_eq!(rc.name, "run_command");
    let names: Vec<&str> = rc.params.iter().map(|p| p.name).collect();
    assert_eq!(names, vec!["command"]);
    assert!(rc.params[0].required);
}

use jarvis::tools::report::{
    format_listing, invalid_pattern_message, io_error_message, lex_le_exec, listing_entry, listing_text,
    not_directory_message, read_directory_message, sort_names, SearchLog,
};

#[test]
fn names_sort_like_strings() {
    let names: Vec<String> = vec!["sub/", "b.txt", "a.txt", "B.txt", "a", "é", "a.txt"]
        .into_iter()
        .map(String::from)
        .collect();
    let mut expected = names.clone();
    expected.sort();
    assert_eq!(sort_names(names), expected);
}

#[test]
fn lex_order_prefix_first() {
    assert!(lex_le_exec("a", "ab"));
    assert!(!lex_le_exec("ab", "a"));
    assert!(lex_le_exec("", ""));
    assert!(lex_le_exec("Z", "a"));
}

#[test]
fn listing_marks_directories_and_sorts() {
    let entries = vec![listing_entry("sub", true), listing_entry("a.txt", false)];
    assert_eq!(format_listing(entries), "a.txt\nsub/");
}

#[test]
fn empty_listing_is_noted() {
    assert_eq!(format_listing(Vec::new()), "(empty directory)");
    assert_eq!(listing_text(&Vec::new()), "(empty directory)");
}

#[test]
fn search_log_reports() {
    let mut log = SearchLog::new();
    assert_eq!(log.files_report("*.rs"), "No files matched pattern '*.rs'.");
    assert_eq!(log.content_report("fn"), "No matches for pattern 'fn'.");
    log.record_file("one.rs");
    log.record_file("two.rs");
    assert_eq!(log.files_report("*.rs"), "one.rs\ntwo.rs\n");
    assert!(!log.is_full());

    let mut content = SearchLog::new();
    content.record_line("code.rs", 1, "fn target() {}");
    assert_eq!(content.content_report("fn"), "code.rs:2: fn target() {}\n");
}

#[test]
fn search_log_fills_past_cap() {
    let mut log = SearchLog::new();
    let line = "x".repeat(1000);
    let mut pushes = 0;
    while !log.is_full() {
        log.record_file(&line);
        pushes += 1;
    }
    assert_eq!(pushes, 12);
    assert!(log.files_report("*").contains("[output truncated"));
}

#[test]
fn filesystem_error_messages() {
    assert_eq!(
        io_error_message("read_file", "read", "a.txt", "No such file"),
        "read_file: cannot read 'a.txt': No such file"
    );
    assert_eq!(read_directory_message("src"), "read_file: 'src' is a directory");
    assert_eq!(not_directory_message("a.txt"), "list_directory: 'a.txt' is not a directory");
    assert_eq!(
        invalid_pattern_message("search_content", "regex", "unclosed group"),
        "search_content: invalid regex: unclosed group"
    );
}

#[test]
fn search_messages_name_the_pattern() {
    assert_eq!(jarvis::tools::executor::no_files_message("*.md"), "No files matched pattern '*.md'.");
    assert_eq!(jarvis::tools::executor::no_matches_message("x+"), "No matches for pattern 'x+'.");
}
