use jarvis::assistant::{
    configured_or, provider_label, system_prompt_for, tool_posture, unconfigured_error, AiProvider, GatePolicy,
    SYSTEM_PROMPT, SYSTEM_PROMPT_READ_WRITE,
};
use jarvis::session::tool_requires_approval;

#[test]
fn provider_labels() {
    assert_eq!(provider_label(AiProvider::Anthropic), "anthropic");
    assert_eq!(provider_label(AiProvider::OpenAi), "openai");
    assert_eq!(provider_label(AiProvider::MiniMax), "minimax");
    assert_eq!(provider_label(AiProvider::Gemini), "gemini");
}

#[test]
fn unconfigured_provider_error_names_it() {
    assert_eq!(
        unconfigured_error(AiProvider::Gemini, "Set GEMINI_API_KEY"),
        "Gemini API not configured: Set GEMINI_API_KEY"
    );
}

#[test]
fn system_prompt_follows_write_exec() {
    assert_eq!(system_prompt_for(false), SYSTEM_PROMPT);
    assert_eq!(system_prompt_for(true), SYSTEM_PROMPT_READ_WRITE);
    assert!(SYSTEM_PROMPT.contains("READ-ONLY"));
}

#[test]
fn configured_value_wins_when_set() {
    assert_eq!(configured_or("gpt-x", "default"), "gpt-x");
    assert_eq!(configured_or("", "default"), "default");
}

#[test]
fn read_only_posture_has_no_gate_and_no_mutating_tool() {
    let p = tool_posture(false, true);
    assert!(!p.write_exec);
    assert_eq!(p.gate, GatePolicy::NoGate);
    let names: Vec<&str> = p.tools.iter().map(|t| t.name).collect();
    assert_eq!(names, vec!["read_file", "search_files", "search_content", "list_directory"]);
    assert!(names.iter().all(|n| !tool_requires_approval(n)));
}

#[test]
fn write_exec_posture_gate_follows_approval_setting() {
    let prompt = tool_posture(true, true);
    assert!(prompt.write_exec);
    assert_eq!(prompt.gate, GatePolicy::Prompt);
    assert!(prompt.tools.iter().any(|t| t.name == "run_command"));
    assert_eq!(tool_posture(true, false).gate, GatePolicy::AutoApprove);
}

use jarvis::assistant::{switch_needs_client, switch_outcome, SwitchNotice};

#[test]
fn provider_switch_skips_same_and_keeps_old_on_failure() {
    assert!(!switch_needs_client(AiProvider::OpenAi, AiProvider::OpenAi));
    assert!(switch_needs_client(AiProvider::OpenAi, AiProvider::Gemini));
    let (p, notes) = switch_outcome(AiProvider::OpenAi, AiProvider::Gemini, Ok("gemini-2.0".into()));
    assert_eq!(p, AiProvider::Gemini);
    assert_eq!(notes, vec![SwitchNotice::Initialized("gemini-2.0".into()), SwitchNotice::ProviderChanged("gemini".into())]);
    let (p, notes) = switch_outcome(AiProvider::OpenAi, AiProvider::Gemini, Err("no key".into()));
    assert_eq!(p, AiProvider::OpenAi);
    assert_eq!(notes, vec![SwitchNotice::Error("no key".into())]);
}
