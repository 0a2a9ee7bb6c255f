use jarvis::session::{
    after_response, approval_summary, resolve_approval, summarize, tool_requires_approval, ApprovalDecision,
    ApprovalWait, PendingCall, RoundAction, ToolOutcome, ToolRound, TurnStep,
};
use jarvis::tools::executor::ToolArgs;

fn call(id: &str, name: &str) -> PendingCall {
    PendingCall {
        id: id.to_string(),
        name: name.to_string(),
        args: ToolArgs { path: Some("x.txt".into()), content: Some("hi".into()), ..Default::default() },
    }
}

#[test]
fn outcomes_and_decisions() {
    let ok = ToolOutcome::ok("done".to_string());
    assert!(!ok.is_error);
    assert!(ToolOutcome::error("bad".to_string()).is_error);
    assert!(ApprovalDecision::Approve.is_approved());
    assert!(!ApprovalDecision::Deny.is_approved());
}

#[test]
fn approval_fails_closed() {
    assert_eq!(resolve_approval(ApprovalWait::Answered(ApprovalDecision::Approve)), ApprovalDecision::Approve);
    assert_eq!(resolve_approval(ApprovalWait::TimedOut), ApprovalDecision::Deny);
    assert_eq!(resolve_approval(ApprovalWait::Dropped), ApprovalDecision::Deny);
    assert_eq!(resolve_approval(ApprovalWait::NoGate), ApprovalDecision::Deny);
}

#[test]
fn only_mutating_tools_need_approval() {
    assert!(tool_requires_approval("write_file"));
    assert!(tool_requires_approval("run_command"));
    assert!(!tool_requires_approval("read_file"));
    assert!(!tool_requires_approval("list_directory"));
}

#[test]
fn approval_summary_shows_full_request() {
    let args = ToolArgs { command: Some("ls -la".into()), ..Default::default() };
    assert!(approval_summary("run_command", &args).contains("ls -la"));
}

#[test]
fn approval_summary_exact_texts() {
    let run = ToolArgs { command: Some("ls -la".into()), ..Default::default() };
    assert_eq!(approval_summary("run_command", &run), "run_command (in workspace root): `ls -la`");
    let write = ToolArgs { path: Some("a.txt".into()), content: Some("héllo".into()), ..Default::default() };
    assert_eq!(approval_summary("write_file", &write), "write_file: a.txt (6 bytes)\n--- content ---\nhéllo");
    let other = ToolArgs { json: "{\n  \"target\": \"x\"\n}".into(), ..Default::default() };
    assert_eq!(approval_summary("delete_file", &other), "delete_file: {\n  \"target\": \"x\"\n}");
}

#[test]
fn summaries() {
    assert_eq!(summarize(""), "(no output)");
    assert_eq!(summarize("  one  \ntwo\nthree"), "one (+2 more lines)");
}

#[test]
fn chat_loop_decisions() {
    assert_eq!(after_response(0, 5, 0, true), (TurnStep::Reply, 0));
    assert_eq!(after_response(0, 5, 2, false), (TurnStep::Reply, 0));
    assert_eq!(after_response(1, 5, 2, true), (TurnStep::RunTools, 2));
    assert_eq!(after_response(5, 5, 1, true), (TurnStep::RoundLimit, 6));
}

#[test]
fn denied_mutating_call_never_runs() {
    let mut round = ToolRound::new(vec![call("t1", "write_file")]);
    match round.next_action() {
        RoundAction::RequestApproval(req) => {
            assert_eq!(req.id, "t1");
            assert_eq!(req.tool, "write_file");
        }
        other => panic!("expected an approval request, got {other:?}"),
    }
    assert!(matches!(round.on_decision(ApprovalDecision::Deny), RoundAction::Finished));
    let r = &round.results()[0];
    assert!(!r.executed);
    assert!(r.is_error);
    assert!(r.content.contains("NOT executed"));
}

#[test]
fn approved_mutating_call_runs() {
    let mut round = ToolRound::new(vec![call("t1", "write_file")]);
    round.next_action();
    assert!(matches!(round.on_decision(ApprovalDecision::Approve), RoundAction::Execute { index: 0 }));
    assert!(matches!(round.on_outcome(ToolOutcome::ok("wrote 2 bytes".to_string())), RoundAction::Finished));
    let r = &round.results()[0];
    assert!(r.executed);
    assert_eq!(r.decision, Some(ApprovalDecision::Approve));
}

#[test]
fn read_only_call_skips_the_gate() {
    let mut round = ToolRound::new(vec![call("t1", "read_file"), call("t2", "run_command")]);
    assert!(matches!(round.next_action(), RoundAction::Execute { index: 0 }));
    assert!(matches!(round.on_outcome(ToolOutcome::ok("x".to_string())), RoundAction::RequestApproval(_)));
    assert!(matches!(round.on_decision(ApprovalDecision::Deny), RoundAction::Finished));
    assert_eq!(round.results().len(), 2);
    assert!(round.results()[0].executed && round.results()[0].decision.is_none());
    assert!(!round.results()[1].executed);
}

#[test]
fn approval_is_required_for_exactly_the_mutating_tools() {
    assert_eq!(jarvis::session::approval_required_tools(), vec!["write_file", "run_command"]);
    assert!(tool_requires_approval("write_file"));
    assert!(!tool_requires_approval("read_file"));
}

#[test]
fn round_cap_k_asks_the_model_k_plus_one_times() {
    for k in 0u32..5 {
        let mut rounds = 0u32;
        let mut asked = 0u32;
        let mut tool_rounds = 0u32;
        loop {
            asked += 1;
            let (step, next) = after_response(rounds, k, 2, true);
            rounds = next;
            if step == TurnStep::RunTools {
                tool_rounds += 1;
                continue;
            }
            assert_eq!(step, TurnStep::RoundLimit);
            break;
        }
        assert_eq!(asked, k + 1);
        assert_eq!(tool_rounds, k);
    }
}
