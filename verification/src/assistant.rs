//! The assistant's configuration decisions: which provider, which model and
//! endpoint, which system prompt, and which tools and approval policy a
//! session gets.

use vstd::prelude::*;
use crate::text::{concat3, owned};
use crate::session::requires_approval;
use crate::tools::definitions::{builtin_tools, builtin_tool_views, read_only_tools, spec_view, ToolSpec};
use crate::tools::executor::{is_read_only_tool, read_only_tool_names};

verus! {

/// The AI providers the assistant can talk to.
#[derive(Clone, Copy, Debug, PartialEq, Eq, Structural)]
pub enum AiProvider {
    Anthropic,
    OpenAi,
    MiniMax,
    Gemini,
}

/// The lowercase label a provider is shown under.
pub open spec fn label_of(p: AiProvider) -> Seq<char> {
    match p {
        AiProvider::Anthropic => "anthropic"@,
        AiProvider::OpenAi => "openai"@,
        AiProvider::MiniMax => "minimax"@,
        AiProvider::Gemini => "gemini"@,
    }
}

/// The lowercase label a provider is shown under.
pub fn provider_label(provider: AiProvider) -> (r: &'static str)
    ensures
        r@ == label_of(provider),
{
    match provider {
        AiProvider::Anthropic => "anthropic",
        AiProvider::OpenAi => "openai",
        AiProvider::MiniMax => "minimax",
        AiProvider::Gemini => "gemini",
    }
}

/// The provider's display name in error messages.
pub open spec fn title_of(p: AiProvider) -> Seq<char> {
    match p {
        AiProvider::Anthropic => "Anthropic"@,
        AiProvider::OpenAi => "OpenAI"@,
        AiProvider::MiniMax => "MiniMax"@,
        AiProvider::Gemini => "Gemini"@,
    }
}

/// The provider's display name in error messages.
pub fn provider_title(provider: AiProvider) -> (r: &'static str)
    ensures
        r@ == title_of(provider),
{
    match provider {
        AiProvider::Anthropic => "Anthropic",
        AiProvider::OpenAi => "OpenAI",
        AiProvider::MiniMax => "MiniMax",
        AiProvider::Gemini => "Gemini",
    }
}

/// What the assistant tells its panel after a provider switch.
#[derive(Clone, Debug, PartialEq, Eq)]
pub enum SwitchNotice {
    /// A client is ready for this model.
    Initialized(String),
    /// The provider in use changed; carries its label.
    ProviderChanged(String),
    /// The switch failed; the previous provider stays in use.
    Error(String),
}

/// Whether a switch request calls for a new client: not when it names the
/// provider already in use.
pub fn switch_needs_client(current: AiProvider, requested: AiProvider) -> (r: bool)
    ensures
        r == (requested != current),
{
    requested != current
}

/// The outcome of switching from `current` to `requested`, given the result
/// of building its client (its model name, or why it failed). On success
/// the requested provider is in use and the panel learns its model and
/// label; on failure the previous provider (and its client) stays in use and
/// the panel learns why.
pub fn switch_outcome(current: AiProvider, requested: AiProvider, built: Result<String, String>) -> (r: (
    AiProvider,
    Vec<SwitchNotice>,
))
    ensures
        match built {
            Ok(model) => {
                &&& r.0 == requested
                &&& r.1@.len() == 2
                &&& r.1@[0] == SwitchNotice::Initialized(model)
                &&& r.1@[1] matches SwitchNotice::ProviderChanged(l) && l@ == label_of(requested)
            },
            Err(e) => r.0 == current && r.1@ == seq![SwitchNotice::Error(e)],
        },
{
    match built {
        Ok(model) => (
            requested,
            vec![SwitchNotice::Initialized(model), SwitchNotice::ProviderChanged(owned(provider_label(requested)))],
        ),
        Err(e) => (current, vec![SwitchNotice::Error(e)]),
    }
}

/// The error shown when a provider's client cannot be built.
pub fn unconfigured_error(provider: AiProvider, detail: &str) -> (r: String)
    ensures
        r@ == title_of(provider) + " API not configured: "@ + detail@,
{
    concat3(provider_title(provider), " API not configured: ", detail)
}

/// The error shown when no provider has a client.
pub const NO_PROVIDER_MESSAGE: &'static str =
    "No AI provider configured. Set the provider's API key environment variable and try again.";

/// The system prompt of the read-only assistant.
pub const SYSTEM_PROMPT: &'static str = "You are Jarvis, an AI assistant embedded in a terminal emulator. You have READ-ONLY access to the project workspace via tools: read_file, search_files, search_content, and list_directory. Use them to ground your answers in the actual files. You CANNOT run commands or modify files. Be concise and helpful. Use plain text, not markdown.";

/// The system prompt when write and exec tools are enabled: they exist, and
/// each call needs explicit human approval.
pub const SYSTEM_PROMPT_READ_WRITE: &'static str = "You are Jarvis, an AI assistant embedded in a terminal emulator. You have read access to the project workspace via read_file, search_files, search_content, and list_directory. You ALSO have write_file and run_command, which modify files / run programs in the workspace sandbox. Every write_file and run_command call requires EXPLICIT human approval before it executes; if the user denies it, the tool does not run and you must continue without it. Prefer read-only tools to understand the project before proposing changes. Be concise and helpful. Use plain text, not markdown.";

/// The system prompt for the session's tool posture.
pub fn system_prompt_for(allow_write_exec: bool) -> (r: &'static str)
    ensures
        r@ == (if allow_write_exec { SYSTEM_PROMPT_READ_WRITE@ } else { SYSTEM_PROMPT@ }),
{
    if allow_write_exec {
        SYSTEM_PROMPT_READ_WRITE
    } else {
        SYSTEM_PROMPT
    }
}

/// A configured value when it is set (non-empty), else the default.
pub fn configured_or(configured: &str, default: &str) -> (r: String)
    ensures
        r@ == (if configured@.len() > 0 { configured@ } else { default@ }),
{
    if configured.is_empty() {
        owned(default)
    } else {
        owned(configured)
    }
}

/// How mutating tool calls are approved.
#[derive(Clone, Copy, Debug, PartialEq, Eq, Structural)]
pub enum GatePolicy {
    /// No gate: no mutating tool is offered.
    NoGate,
    /// Each mutating call waits for the human.
    Prompt,
    /// The user opted out of prompts: mutating calls are approved at once.
    AutoApprove,
}

/// The tools a session offers and how their calls are approved.
#[derive(Clone, Debug)]
pub struct ToolPosture {
    /// Whether the full read/write/exec executor runs the calls.
    pub write_exec: bool,
    /// The tools offered to the model, in lock-step with the executor.
    pub tools: Vec<ToolSpec>,
    pub gate: GatePolicy,
}

/// The session's tools and approval policy: read-only tools and no gate by
/// default; with write/exec enabled, the full tool set behind a prompt, or
/// auto-approved when prompts are switched off.
pub fn tool_posture(allow_write_exec: bool, require_approval: bool) -> (r: ToolPosture)
    ensures
        r.write_exec == allow_write_exec,
        allow_write_exec ==> r.tools@.map_values(|t: ToolSpec| spec_view(t)) == builtin_tool_views(),
        !allow_write_exec ==> r.tools@.map_values(|t: ToolSpec| t.name@) == read_only_tool_names(),
        r.gate == (if !allow_write_exec {
            GatePolicy::NoGate
        } else if require_approval {
            GatePolicy::Prompt
        } else {
            GatePolicy::AutoApprove
        }),
{
    if allow_write_exec {
        let gate = if require_approval { GatePolicy::Prompt } else { GatePolicy::AutoApprove };
        ToolPosture { write_exec: true, tools: builtin_tools(), gate }
    } else {
        ToolPosture { write_exec: false, tools: read_only_tools(), gate: GatePolicy::NoGate }
    }
}

/// Without write/exec, no offered tool needs approval (so no gate is needed),
/// and every offered tool is one the read-only executor serves.
pub proof fn law_read_only_posture_offers_no_gated_tool(names: Seq<Seq<char>>, i: int)
    requires
        names == read_only_tool_names(),
        0 <= i < names.len(),
    ensures
        is_read_only_tool(names[i]),
        !requires_approval(names[i]),
{
    reveal_strlit("write_file");
    reveal_strlit("run_command");
    reveal_strlit("read_file");
    reveal_strlit("search_files");
    reveal_strlit("search_content");
    reveal_strlit("list_directory");
    assert("write_file"@.len() == 10 && "run_command"@.len() == 11);
    assert("read_file"@.len() == 9 && "search_files"@.len() == 12);
    assert("search_content"@.len() == 14 && "list_directory"@.len() == 14);
}

} // verus!
