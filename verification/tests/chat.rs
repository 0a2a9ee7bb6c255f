//! A chat session's history through a turn with a tool round.

use jarvis::ai::messages::{ContentBlock, Message};
use jarvis::ai::stream::RawToolCall;
use jarvis::ai::Role;
use jarvis::chat::{pending_call, Session, DEFAULT_MAX_TOOL_ROUNDS};
use jarvis::session::{ApprovalDecision, RoundAction, ToolOutcome, ToolRound};
use jarvis::tools::executor::ToolArgs;
use jarvis::tools::definitions::{builtin_tools, read_only_tools};

fn raw(id: &str, name: &str) -> RawToolCall {
    RawToolCall { id: id.into(), name: name.into(), arguments: r#"{"path":"a.txt"}"#.into() }
}

#[test]
fn new_session_is_empty_with_default_cap() {
    let s = Session::new("anthropic");
    assert_eq!(s.message_count(), 0);
    assert_eq!(s.max_tool_rounds(), DEFAULT_MAX_TOOL_ROUNDS);
    assert_eq!(s.provider(), "anthropic");
    assert!(s.tools().is_empty());
    assert_eq!(Session::default().provider(), "default");
}

#[test]
fn system_prompt_is_sent_first() {
    let mut s = Session::new("p").with_system_prompt("be terse").with_max_tool_rounds(3);
    s.push_user("hi");
    let sent = s.build_messages();
    assert_eq!(sent.len(), 2);
    assert_eq!(sent[0].role, Role::System);
    assert_eq!(sent[0].content, "be terse");
    assert_eq!(sent[1].role, Role::User);
    assert_eq!(sent[1].content, "hi");
    assert_eq!(s.max_tool_rounds(), 3);
    assert_eq!(Session::new("p").build_messages().len(), 0);
}

#[test]
fn reply_and_clear() {
    let mut s = Session::new("p");
    s.push_user("hi");
    s.push_reply("hello");
    assert_eq!(s.message_count(), 2);
    assert_eq!(s.messages()[1].role, Role::Assistant);
    s.clear();
    assert_eq!(s.message_count(), 0);
}

#[test]
fn tool_round_is_recorded_as_use_then_result_turns() {
    let calls = vec![raw("t1", "read_file"), raw("t2", "write_file")];
    let pending = calls.iter().map(|c| pending_call(c, ToolArgs { path: Some("a.txt".into()), ..Default::default() })).collect();
    let mut round = ToolRound::new(pending);
    assert!(matches!(round.next_action(), RoundAction::Execute { index: 0 }));
    assert!(matches!(round.on_outcome(ToolOutcome::ok("contents".into())), RoundAction::RequestApproval(_)));
    assert!(matches!(round.on_decision(ApprovalDecision::Deny), RoundAction::Finished));

    let mut s = Session::new("p");
    s.push_user("read a.txt");
    s.record_tool_round("let me check", &calls, round.results());
    let m: &Vec<Message> = s.messages();
    assert_eq!(m.len(), 3);
    assert_eq!(m[1].role, Role::Assistant);
    assert!(matches!(&m[1].blocks[0], ContentBlock::Text { text } if text == "let me check"));
    assert_eq!(m[2].role, Role::User);
    for i in 0..2 {
        let use_id = match &m[1].blocks[i + 1] {
            ContentBlock::ToolUse { id, .. } => id.clone(),
            other => panic!("expected a tool use, got {other:?}"),
        };
        match &m[2].blocks[i] {
            ContentBlock::ToolResult { tool_use_id, .. } => assert_eq!(tool_use_id, &use_id),
            other => panic!("expected a tool result, got {other:?}"),
        }
    }
    assert!(matches!(&m[2].blocks[1], ContentBlock::ToolResult { is_error: true, .. }));
}

#[test]
fn tool_round_without_text_has_only_tool_uses() {
    let calls = vec![raw("t1", "read_file")];
    let mut s = Session::new("p");
    s.record_tool_round("", &calls, &Vec::new());
    assert_eq!(s.messages()[0].blocks.len(), 1);
    assert!(matches!(&s.messages()[0].blocks[0], ContentBlock::ToolUse { .. }));
    assert!(s.messages()[1].blocks.is_empty());
}

// ---- A whole turn, driven as the host drives it -------------------------------

use jarvis::session::{after_response, resolve_approval, ApprovalRequest, ApprovalWait, TurnStep};

/// Runs one user message against scripted model replies; returns the final
/// text and the names of the tools that ran.
fn run_turn(
    session: &mut Session,
    mut replies: Vec<(String, Vec<RawToolCall>)>,
    approve: &dyn Fn(&ApprovalRequest) -> ApprovalWait,
) -> (String, Vec<String>, usize) {
    let mut ran = Vec::new();
    let mut asked = 0;
    session.push_user("go");
    let mut rounds = 0;
    replies.reverse();
    loop {
        let (content, calls) = replies.pop().expect("script ran out");
        let (step, next) = after_response(rounds, session.max_tool_rounds(), calls.len(), true);
        rounds = next;
        if step != TurnStep::RunTools {
            session.push_reply(&content);
            return (content, ran, asked);
        }
        let pending = calls.iter().map(|c| pending_call(c, ToolArgs::default())).collect();
        let mut round = ToolRound::new(pending);
        let mut action = round.next_action();
        loop {
            action = match action {
                RoundAction::Finished => break,
                RoundAction::RequestApproval(req) => {
                    asked += 1;
                    round.on_decision(resolve_approval(approve(&req)))
                }
                RoundAction::Execute { index } => {
                    ran.push(calls[index].name.clone());
                    round.on_outcome(ToolOutcome::ok("ok".to_string()))
                }
            };
        }
        session.record_tool_round(&content, &calls, round.results());
    }
}

fn result_for(session: &Session, id: &str) -> Option<(String, bool)> {
    session.messages().iter().flat_map(|m| m.blocks.iter()).find_map(|b| match b {
        ContentBlock::ToolResult { tool_use_id, content, is_error } if tool_use_id == id => {
            Some((content.clone(), *is_error))
        }
        _ => None,
    })
}

fn script(name: &str) -> Vec<(String, Vec<RawToolCall>)> {
    vec![(String::new(), vec![raw("call-1", name)]), ("done".to_string(), vec![])]
}

#[test]
fn denied_mutating_tool_executes_nothing_and_errors() {
    let mut s = Session::new("test");
    let (out, ran, _) = run_turn(&mut s, script("write_file"), &|_| ApprovalWait::Answered(ApprovalDecision::Deny));
    assert_eq!(out, "done");
    assert!(ran.is_empty(), "denied tool must not execute; ran: {ran:?}");
    let (content, is_error) = result_for(&s, "call-1").expect("missing tool_result");
    assert!(is_error, "denied tool_result must be is_error");
    assert!(content.contains("denied"), "deny message should say it was denied; got: {content}");
}

#[test]
fn approved_mutating_tool_executes() {
    let mut s = Session::new("test");
    let (_, ran, _) = run_turn(&mut s, script("write_file"), &|_| ApprovalWait::Answered(ApprovalDecision::Approve));
    assert_eq!(ran, vec!["write_file".to_string()]);
    let (_c, is_error) = result_for(&s, "call-1").unwrap();
    assert!(!is_error, "approved tool_result must not be an error");
}

#[test]
fn read_only_tool_bypasses_approval() {
    let mut s = Session::new("test");
    let (_, ran, asked) = run_turn(&mut s, script("read_file"), &|_| ApprovalWait::Answered(ApprovalDecision::Deny));
    assert_eq!(asked, 0, "read-only tool must not consult the approval gate");
    assert_eq!(ran, vec!["read_file".to_string()]);
    let (_c, is_error) = result_for(&s, "call-1").unwrap();
    assert!(!is_error);
}

#[test]
fn approval_timeout_fails_closed_to_deny() {
    let mut s = Session::new("test");
    let (_, ran, asked) = run_turn(&mut s, script("run_command"), &|_| ApprovalWait::TimedOut);
    assert_eq!(asked, 1);
    assert!(ran.is_empty(), "timed-out approval must not execute");
    assert!(result_for(&s, "call-1").unwrap().1);
}

#[test]
fn missing_gate_fails_closed() {
    let mut s = Session::new("test");
    let (_, ran, _) = run_turn(&mut s, script("write_file"), &|_| ApprovalWait::NoGate);
    assert!(ran.is_empty(), "no gate must mean no execution");
    assert!(result_for(&s, "call-1").unwrap().1);
}

#[test]
fn round_cap_returns_partial_text() {
    let mut s = Session::new("test").with_max_tool_rounds(1);
    let replies = vec![
        ("first".to_string(), vec![raw("a", "read_file")]),
        ("second".to_string(), vec![raw("b", "read_file")]),
    ];
    let (out, ran, _) = run_turn(&mut s, replies, &|_| ApprovalWait::NoGate);
    assert_eq!(out, "second");
    assert_eq!(ran, vec!["read_file".to_string()]);
}

#[test]
fn with_tools_offers_exactly_those_tools() {
    let s = Session::new("p").with_tools(read_only_tools());
    let names: Vec<&str> = s.tools().iter().map(|t| t.name).collect();
    assert_eq!(names, vec!["read_file", "search_files", "search_content", "list_directory"]);
    let s = s.with_tools(builtin_tools()).with_system_prompt("x");
    let names: Vec<&str> = s.tools().iter().map(|t| t.name).collect();
    assert_eq!(names, vec!["run_command", "read_file", "write_file", "search_files", "search_content", "list_directory"]);
}
