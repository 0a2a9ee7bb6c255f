//! Session bookkeeping: tool outcomes, the human-approval gate for mutating
//! tools, and the decisions of the tool-call loop.

use vstd::prelude::*;
use crate::text::{chars_of, concat2, concat3, concat4, owned, str_eq, u64_to_decimal, decimal, string_from_chars, push_char};
use crate::tools::sandbox::{is_white_space, is_white_space_exec, skip_white};
use crate::tools::executor::ToolArgs;

verus! {

/// The outcome of executing a single tool call.
#[derive(Clone, Debug)]
pub struct ToolOutcome {
    /// The tool's output (or error text when `is_error` is set).
    pub content: String,
    /// Whether the tool failed (surfaced to the model as `is_error`).
    pub is_error: bool,
}

impl ToolOutcome {
    /// A successful outcome carrying `content`.
    pub fn ok(content: String) -> (r: Self)
        ensures
            r.content@ == content@,
            !r.is_error,
    {
        ToolOutcome { content, is_error: false }
    }

    /// A failed outcome carrying the error text.
    pub fn error(content: String) -> (r: Self)
        ensures
            r.content@ == content@,
            r.is_error,
    {
        ToolOutcome { content, is_error: true }
    }
}

/// The human's decision on a mutating tool call. `Deny` is what every
/// failure to obtain an explicit approval resolves to.
#[derive(Clone, Copy, Debug, PartialEq, Eq, Structural)]
pub enum ApprovalDecision {
    Approve,
    Deny,
}

impl ApprovalDecision {
    /// Whether this decision permits execution.
    pub fn is_approved(self) -> (r: bool)
        ensures
            r == (self == ApprovalDecision::Approve),
    {
        match self {
            ApprovalDecision::Approve => true,
            ApprovalDecision::Deny => false,
        }
    }
}

/// How waiting for a human decision ended.
#[derive(Clone, Copy, Debug, PartialEq, Eq, Structural)]
pub enum ApprovalWait {
    /// The human answered in time.
    Answered(ApprovalDecision),
    /// The decision channel was dropped without an answer.
    Dropped,
    /// The wait timed out.
    TimedOut,
    /// No approval gate is installed.
    NoGate,
}

/// The decision an approval wait resolves to: the human's answer when one
/// arrived, otherwise `Deny` (fail closed).
pub fn resolve_approval(wait: ApprovalWait) -> (r: ApprovalDecision)
    ensures
        r == (match wait {
            ApprovalWait::Answered(d) => d,
            _ => ApprovalDecision::Deny,
        }),
        r == ApprovalDecision::Approve ==> wait == ApprovalWait::Answered(ApprovalDecision::Approve),
{
    match wait {
        ApprovalWait::Answered(d) => d,
        _ => ApprovalDecision::Deny,
    }
}

/// A request for human approval of one mutating tool call.
#[derive(Clone, Debug)]
pub struct ApprovalRequest {
    /// The originating tool-call id.
    pub id: String,
    /// The tool the model wants to run.
    pub tool: String,
    /// Exactly what will happen, in full.
    pub summary: String,
}

/// Default wall-clock limit for a pending approval, in seconds.
pub const APPROVAL_TIMEOUT_SECS: u64 = 120;

/// Tools that must pass the approval gate before they run.
pub open spec fn requires_approval(name: Seq<char>) -> bool {
    name == "write_file"@ || name == "run_command"@
}

/// Whether a tool of this name requires human approval before it may run.
pub fn tool_requires_approval(name: &str) -> (r: bool)
    ensures
        r == requires_approval(name@),
{
    str_eq(name, "write_file") || str_eq(name, "run_command")
}

/// The approval-required tool names.
pub fn approval_required_tools() -> (r: Vec<&'static str>)
    ensures
        r@.len() == 2,
        r@[0]@ == "write_file"@,
        r@[1]@ == "run_command"@,
{
    vec!["write_file", "run_command"]
}

/// The approval summary shown for a call: the full command, the full content,
/// or for any other tool all of its arguments; never cut.
pub open spec fn approval_summary_spec(tool: Seq<char>, args: ToolArgs) -> Seq<char> {
    if tool == "run_command"@ {
        "run_command (in workspace root): `"@
            + (match args.command { Some(c) => c@, None => "<missing command>"@ }) + "`"@
    } else if tool != "write_file"@ {
        tool + ": "@ + args.json@
    } else {
        let content = match args.content { Some(c) => c@, None => seq![] };
        "write_file: "@ + (match args.path { Some(p) => p@, None => "<missing path>"@ })
            + " ("@ + decimal(crate::text::utf8_len(content)) + " bytes)\n--- content ---\n"@ + content
    }
}

/// The human-readable summary of exactly what a call asking for approval
/// will do.
pub fn approval_summary(tool: &str, args: &ToolArgs) -> (r: String)
    ensures
        r@ == approval_summary_spec(tool@, *args),
{
    if str_eq(tool, "run_command") {
        let cmd: &str = match &args.command {
            Some(c) => c.as_str(),
            None => "<missing command>",
        };
        concat3("run_command (in workspace root): `", cmd, "`")
    } else if !str_eq(tool, "write_file") {
        concat3(tool, ": ", args.json.as_str())
    } else {
        let path: &str = match &args.path {
            Some(p) => p.as_str(),
            None => "<missing path>",
        };
        let content: &str = match &args.content {
            Some(c) => c.as_str(),
            None => "",
        };
        proof {
            if args.content is None {
                reveal_strlit("");
                assert(content@ =~= Seq::<char>::empty());
            }
        }
        let n = u64_to_decimal(content.as_bytes().len() as u64);
        let mut r = concat4("write_file: ", path, " (", n.as_str());
        r.append(" bytes)\n--- content ---\n");
        r.append(content);
        r
    }
}

/// What a human approves is what runs, in full: the summary of a
/// `write_file` call ends with the whole content to be written (never cut),
/// that of a `run_command` call ends with the whole command followed by a
/// backquote, and that of any other tool ends with all of its arguments.
pub proof fn law_approval_shows_everything(tool: Seq<char>, args: ToolArgs)
    ensures
        ({
            let s = approval_summary_spec("write_file"@, args);
            let c = match args.content { Some(c) => c@, None => Seq::<char>::empty() };
            &&& c.len() <= s.len()
            &&& s.subrange(s.len() - c.len(), s.len() as int) == c
        }),
        args.command matches Some(c) ==> ({
            let s = approval_summary_spec("run_command"@, args);
            &&& c@.len() + 1 <= s.len()
            &&& s.subrange(s.len() - c@.len() - 1, s.len() - 1) == c@
            &&& s.last() == '`'
        }),
        tool != "write_file"@ && tool != "run_command"@ ==> ({
            let s = approval_summary_spec(tool, args);
            &&& args.json@.len() <= s.len()
            &&& s.subrange(s.len() - args.json@.len(), s.len() as int) == args.json@
        }),
{
    reveal_strlit("write_file");
    reveal_strlit("run_command");
    reveal_strlit("`");
    assert("write_file"@.len() != "run_command"@.len());
    let s = approval_summary_spec("write_file"@, args);
    let c = match args.content { Some(c) => c@, None => Seq::<char>::empty() };
    let head = "write_file: "@ + (match args.path { Some(p) => p@, None => "<missing path>"@ }) + " ("@
        + decimal(crate::text::utf8_len(c)) + " bytes)\n--- content ---\n"@;
    assert(s == head + c);
    assert((head + c).subrange(head.len() as int, (head + c).len() as int) =~= c);
    if args.command is Some {
        let cc = args.command->0@;
        let h2 = "run_command (in workspace root): `"@;
        let s2 = approval_summary_spec("run_command"@, args);
        assert(s2 == h2 + cc + "`"@);
        assert((h2 + cc + "`"@).subrange(h2.len() as int, (h2.len() + cc.len()) as int) =~= cc);
    }
    if tool != "write_file"@ && tool != "run_command"@ {
        let h3 = tool + ": "@;
        assert(approval_summary_spec(tool, args) == h3 + args.json@);
        assert((h3 + args.json@).subrange(h3.len() as int, (h3 + args.json@).len() as int) =~= args.json@);
    }
}

/// Newlines in `s`.
pub open spec fn count_newlines(s: Seq<char>) -> nat
    decreases s.len(),
{
    if s.len() == 0 {
        0
    } else {
        count_newlines(s.drop_last()) + (if s.last() == '\n' { 1nat } else { 0nat })
    }
}

/// Number of lines `str::lines` yields.
pub open spec fn line_count(s: Seq<char>) -> nat {
    count_newlines(s) + (if s.len() > 0 && s.last() != '\n' { 1nat } else { 0nat })
}

/// The text of `s` before its first newline.
pub open spec fn before_newline(s: Seq<char>) -> Seq<char>
    decreases s.len(),
{
    if s.len() == 0 || s[0] == '\n' {
        seq![]
    } else {
        seq![s[0]] + before_newline(s.drop_first())
    }
}

/// The first line `str::lines` yields (empty for empty input): the text
/// before the first newline, less one `\r` that precedes it.
pub open spec fn first_line(s: Seq<char>) -> Seq<char> {
    if s.contains('\n') {
        let l = before_newline(s);
        if l.len() > 0 && l.last() == '\r' { l.drop_last() } else { l }
    } else {
        s
    }
}

proof fn lemma_before_newline(s: Seq<char>, i: int)
    requires
        0 <= i <= s.len(),
        forall|j: int| 0 <= j < i ==> s[j] != '\n',
        i == s.len() || s[i] == '\n',
    ensures
        before_newline(s) == s.take(i),
    decreases s.len(),
{
    if s.len() == 0 || s[0] == '\n' {
        assert(s.take(i) =~= Seq::<char>::empty());
    } else {
        lemma_before_newline(s.drop_first(), i - 1);
        assert(seq![s[0]] + s.drop_first().take(i - 1) =~= s.take(i));
    }
}

pub proof fn lemma_trim_end(s: Seq<char>, k: int)
    requires
        0 <= k <= s.len(),
        forall|j: int| k <= j < s.len() ==> is_white_space(s[j]),
        k == 0 || !is_white_space(s[k - 1]),
    ensures
        trim_white_end(s) == s.take(k),
    decreases s.len(),
{
    if s.len() > 0 && is_white_space(s.last()) {
        assert(k < s.len());
        lemma_trim_end(s.drop_last(), k);
        assert(s.drop_last().take(k) =~= s.take(k));
    } else {
        assert(k == s.len());
        assert(s.take(k) =~= s);
    }
}

/// `s` without trailing white space.
pub open spec fn trim_white_end(s: Seq<char>) -> Seq<char>
    decreases s.len(),
{
    if s.len() > 0 && is_white_space(s.last()) {
        trim_white_end(s.drop_last())
    } else {
        s
    }
}

/// `str::trim`.
pub open spec fn trim_white(s: Seq<char>) -> Seq<char> {
    trim_white_end(skip_white(s))
}

/// `str::trim`.
pub fn trim_owned(s: &str) -> (r: String)
    ensures
        r@ == trim_white(s@),
{
    let cs = chars_of(s);
    let n = cs.len();
    let mut a: usize = 0;
    while a < n && is_white_space_exec(cs[a])
        invariant
            cs@ == s@,
            n == cs@.len(),
            0 <= a <= n,
            forall|j: int| 0 <= j < a ==> is_white_space(cs@[j]),
        decreases n - a,
    {
        a += 1;
    }
    proof {
        crate::tools::sandbox::lemma_skip_white(s@, a as int);
    }
    let mut b = n;
    while b > a && is_white_space_exec(cs[b - 1])
        invariant
            cs@ == s@,
            n == cs@.len(),
            a <= b <= n,
            forall|j: int| b <= j < n ==> is_white_space(cs@[j]),
        decreases b,
    {
        b -= 1;
    }
    proof {
        let sk = s@.skip(a as int);
        assert forall|j: int| b - a <= j < sk.len() implies is_white_space(sk[j]) by {
            assert(sk[j] == cs@[a + j]);
        }
        lemma_trim_end(sk, b - a);
        assert(trim_white(s@) =~= cs@.subrange(a as int, b as int));
    }
    string_from_chars(&cs, a, b)
}

/// A one-line display summary of a tool result: the trimmed first line cut
/// to 120 characters, a count of further lines, or `(no output)`.
pub open spec fn summary_spec(content: Seq<char>) -> Seq<char> {
    let t = trim_white(first_line(content));
    let head = if t.len() <= 120 { t } else { t.take(120) };
    let n = line_count(content);
    let s = if n > 1 { head + " (+"@ + decimal((n - 1) as nat) + " more lines)"@ } else { head };
    if s.len() == 0 { "(no output)"@ } else { s }
}


fn first_line_trimmed(content: &str) -> (r: String)
    ensures
        r@ == trim_white(first_line(content@)),
{
    let cs = chars_of(content);
    let n = cs.len();
    let mut i: usize = 0;
    while i < n && cs[i] != '\n'
        invariant
            cs@ == content@,
            n == cs@.len(),
            0 <= i <= n,
            forall|j: int| 0 <= j < i ==> cs@[j] != '\n',
        decreases n - i,
    {
        i += 1;
    }
    let has_nl = i < n;
    proof {
        lemma_before_newline(content@, i as int);
        if has_nl {
            assert(content@.contains('\n')) by { assert(content@[i as int] == '\n'); }
        } else {
            assert(!content@.contains('\n'));
            assert(content@.take(i as int) =~= content@);
        }
    }
    let mut end = i;
    if has_nl && end > 0 && cs[end - 1] == '\r' {
        end -= 1;
    }
    let ghost line = first_line(content@);
    assert(line =~= cs@.subrange(0, end as int));
    let mut a: usize = 0;
    while a < end && is_white_space_exec(cs[a])
        invariant
            cs@ == content@,
            end <= n == cs@.len(),
            0 <= a <= end,
            forall|j: int| 0 <= j < a ==> is_white_space(cs@[j]),
        decreases end - a,
    {
        a += 1;
    }
    proof {
        crate::tools::sandbox::lemma_skip_white(line, a as int);
    }
    let mut b = end;
    while b > a && is_white_space_exec(cs[b - 1])
        invariant
            cs@ == content@,
            end <= n == cs@.len(),
            a <= b <= end,
            forall|j: int| b <= j < end ==> is_white_space(cs@[j]),
        decreases b,
    {
        b -= 1;
    }
    proof {
        let sk = line.skip(a as int);
        assert forall|j: int| b - a <= j < sk.len() implies is_white_space(sk[j]) by {
            assert(sk[j] == cs@[a + j]);
        }
        lemma_trim_end(sk, b - a);
        assert(trim_white(line) =~= cs@.subrange(a as int, b as int));
    }
    string_from_chars(&cs, a, b)
}

fn count_lines(content: &str) -> (r: u64)
    ensures
        r == line_count(content@),
{
    let cs = chars_of(content);
    let n = cs.len();
    let mut nl: u64 = 0;
    let mut k: usize = 0;
    assert(content@.take(0) =~= Seq::<char>::empty());
    while k < n
        invariant
            cs@ == content@,
            n == cs@.len(),
            0 <= k <= n,
            nl == count_newlines(content@.take(k as int)),
            nl + (if k > 0 && cs@[k - 1] != '\n' { 1int } else { 0int }) <= k,
        decreases n - k,
    {
        assert(content@.take(k + 1).drop_last() =~= content@.take(k as int));
        if cs[k] == '\n' {
            nl += 1;
        }
        k += 1;
    }
    assert(content@.take(n as int) =~= content@);
    if n > 0 && cs[n - 1] != '\n' { nl + 1 } else { nl }
}

/// A short single-line summary of a tool result for inline display.
pub fn summarize(content: &str) -> (r: String)
    ensures
        r@ == summary_spec(content@),
{
    let t = first_line_trimmed(content);
    let tc = chars_of(t.as_str());
    let h = if tc.len() <= 120 { tc.len() } else { 120 };
    let mut s = string_from_chars(&tc, 0, h);
    assert(s@ =~= (if t@.len() <= 120 { t@ } else { t@.take(120) }));
    let lines = count_lines(content);
    if lines > 1 {
        let d = u64_to_decimal(lines - 1);
        s.append(" (+");
        s.append(d.as_str());
        s.append(" more lines)");
    }
    if s.as_str().is_empty() {
        return owned("(no output)");
    }
    s
}


/// What the chat loop does after a model response.
#[derive(Clone, Copy, Debug, PartialEq, Eq, Structural)]
pub enum TurnStep {
    /// Record the response text as the assistant turn and return it.
    Reply,
    /// Run the requested tools and ask the model again.
    RunTools,
    /// The tool-round cap was exceeded: record and return the text as is.
    RoundLimit,
}

/// The chat loop's step after a response, and the round count after it.
pub open spec fn turn_step(rounds: nat, max_rounds: nat, tool_calls: nat, has_executor: bool) -> (TurnStep, nat) {
    if tool_calls == 0 || !has_executor {
        (TurnStep::Reply, rounds)
    } else if rounds + 1 > max_rounds {
        (TurnStep::RoundLimit, rounds + 1)
    } else {
        (TurnStep::RunTools, rounds + 1)
    }
}

/// The step taken on response `n` (counting from 0) of a turn in which
/// every response asks for tools and an executor is installed; once a step
/// other than `RunTools` is taken the turn is over and the step stays.
pub open spec fn step_on_response(n: nat, max_rounds: nat) -> (TurnStep, nat)
    decreases n,
{
    if n == 0 {
        turn_step(0, max_rounds, 1, true)
    } else {
        let prev = step_on_response((n - 1) as nat, max_rounds);
        if prev.0 == TurnStep::RunTools {
            turn_step(prev.1, max_rounds, 1, true)
        } else {
            prev
        }
    }
}

/// Under a round cap of `k`, a turn whose responses all ask for tools runs a
/// tool round after each of the first `k` responses and ends at the round
/// limit on response `k + 1`: the model is asked exactly `k + 1` times and
/// exactly `k` tool rounds run.
pub proof fn law_round_cap_bounds_the_turn(k: nat, n: nat)
    requires
        n <= k,
    ensures
        step_on_response(n, k) == (if n < k { (TurnStep::RunTools, n + 1) } else { (TurnStep::RoundLimit, k + 1) }),
    decreases n,
{
    if n > 0 {
        law_round_cap_bounds_the_turn(k, (n - 1) as nat);
    }
}

/// The chat loop's decision after a response, given the rounds run so far.
/// Returns the step and the round count after it. Tools run only when the
/// response requested some and an executor is installed; the round cap is
/// checked after counting the new round.
pub fn after_response(rounds: u32, max_rounds: u32, tool_calls: usize, has_executor: bool)
    -> (r: (TurnStep, u32))
    requires
        rounds <= max_rounds,
        max_rounds < u32::MAX,
    ensures
        tool_calls == 0 || !has_executor ==> r == (TurnStep::Reply, rounds),
        tool_calls > 0 && has_executor && rounds + 1 > max_rounds ==> r == (TurnStep::RoundLimit, (rounds + 1) as u32),
        tool_calls > 0 && has_executor && rounds + 1 <= max_rounds ==> r == (TurnStep::RunTools, (rounds + 1) as u32),
        r.0 == turn_step(rounds as nat, max_rounds as nat, tool_calls as nat, has_executor).0,
        r.1 == turn_step(rounds as nat, max_rounds as nat, tool_calls as nat, has_executor).1,
{
    if tool_calls == 0 || !has_executor {
        return (TurnStep::Reply, rounds);
    }
    let next = rounds + 1;
    if next > max_rounds {
        (TurnStep::RoundLimit, next)
    } else {
        (TurnStep::RunTools, next)
    }
}

/// One tool call requested by the model.
#[derive(Clone, Debug)]
pub struct PendingCall {
    pub id: String,
    pub name: String,
    pub args: ToolArgs,
}

/// The settled result of one call in a tool round.
#[derive(Clone, Debug)]
pub struct RoundResult {
    /// The call id the result answers.
    pub tool_use_id: String,
    pub name: String,
    /// What the model is sent.
    pub content: String,
    pub is_error: bool,
    /// The one-line display summary surfaced to the UI.
    pub summary: String,
    /// The human decision, for approval-required tools.
    pub decision: Option<ApprovalDecision>,
    /// Whether the executor ran the call.
    pub executed: bool,
}

/// What the caller must do next in a tool round.
#[derive(Clone, Debug)]
pub enum RoundAction {
    /// Ask the human, then report the decision with `ToolRound::on_decision`.
    RequestApproval(ApprovalRequest),
    /// Run call `index` on the executor, then report with `ToolRound::on_outcome`.
    Execute { index: usize },
    /// Every call has a result.
    Finished,
}

#[derive(Clone, Copy, Debug, PartialEq, Eq, Structural)]
pub enum RoundPhase {
    Ready,
    AwaitingApproval(usize),
    /// Call `index` is being executed; `decision` is the approval it
    /// received (`None` for calls that need none).
    Executing(usize, Option<ApprovalDecision>),
}

/// The message a denied call is answered with.
pub open spec fn denial_msg(name: Seq<char>) -> Seq<char> {
    "User denied this tool call. The '"@ + name
        + "' tool was NOT executed. Do not retry it; continue without it or ask the user how to proceed."@
}

/// The tool calls of one model response, worked through in order: each call
/// that needs approval waits for a human decision and runs only on `Approve`;
/// the others run directly.
pub struct ToolRound {
    calls: Vec<PendingCall>,
    results: Vec<RoundResult>,
    phase: RoundPhase,
}

impl ToolRound {
    pub closed spec fn calls_view(&self) -> Seq<PendingCall> {
        self.calls@
    }

    pub closed spec fn results_view(&self) -> Seq<RoundResult> {
        self.results@
    }

    pub closed spec fn phase_view(&self) -> RoundPhase {
        self.phase
    }

    /// Result `i` answers call `i` as the approval rule demands.
    pub open spec fn result_matches(call: PendingCall, res: RoundResult) -> bool {
        &&& res.tool_use_id@ == call.id@
        &&& res.name@ == call.name@
        &&& if requires_approval(call.name@) {
            &&& res.decision is Some
            &&& res.executed <==> res.decision == Some(ApprovalDecision::Approve)
            &&& !res.executed ==> res.is_error && res.content@ == denial_msg(call.name@)
                && res.summary@ == "denied by user"@
        } else {
            res.decision is None && res.executed
        }
    }

    /// The round's invariant.
    pub open spec fn wf(&self) -> bool {
        &&& self.results_view().len() <= self.calls_view().len()
        &&& forall|i: int| 0 <= i < self.results_view().len()
            ==> #[trigger] Self::result_matches(self.calls_view()[i], self.results_view()[i])
        &&& match self.phase_view() {
            RoundPhase::Ready => true,
            RoundPhase::AwaitingApproval(i) => i == self.results_view().len()
                && i < self.calls_view().len() && requires_approval(self.calls_view()[i as int].name@),
            RoundPhase::Executing(i, d) => i == self.results_view().len() && i < self.calls_view().len()
                && (if requires_approval(self.calls_view()[i as int].name@) {
                    d == Some(ApprovalDecision::Approve)
                } else {
                    d is None
                }),
        }
    }

    /// A round over `calls`, nothing settled yet.
    pub fn new(calls: Vec<PendingCall>) -> (r: Self)
        ensures
            r.wf(),
            r.calls_view() == calls@,
            r.results_view().len() == 0,
            r.phase_view() == RoundPhase::Ready,
    {
        ToolRound { calls, results: Vec::new(), phase: RoundPhase::Ready }
    }

    /// The calls of this round.
    pub fn calls(&self) -> (r: &Vec<PendingCall>)
        ensures
            r@ == self.calls_view(),
    {
        &self.calls
    }

    /// The results settled so far, in call order.
    pub fn results(&self) -> (r: &Vec<RoundResult>)
        ensures
            r@ == self.results_view(),
    {
        &self.results
    }

    /// Move to the next unsettled call: ask for approval when its tool needs
    /// it, otherwise have it executed; `Finished` when every call is settled.
    pub fn next_action(&mut self) -> (r: RoundAction)
        requires
            old(self).wf(),
            old(self).phase_view() == RoundPhase::Ready,
        ensures
            final(self).wf(),
            final(self).calls_view() == old(self).calls_view(),
            final(self).results_view() == old(self).results_view(),
            ({
                let n = old(self).results_view().len();
                let calls = old(self).calls_view();
                if n == calls.len() {
                    r is Finished && final(self).phase_view() == RoundPhase::Ready
                } else if requires_approval(calls[n as int].name@) {
                    &&& final(self).phase_view() == RoundPhase::AwaitingApproval(n as usize)
                    &&& r matches RoundAction::RequestApproval(req)
                    &&& req.id@ == calls[n as int].id@
                    &&& req.tool@ == calls[n as int].name@
                    &&& req.summary@ == approval_summary_spec(calls[n as int].name@, calls[n as int].args)
                } else {
                    &&& final(self).phase_view() == RoundPhase::Executing(n as usize, None)
                    &&& r == RoundAction::Execute { index: n as usize }
                }
            }),
    {
        let n = self.results.len();
        if n == self.calls.len() {
            return RoundAction::Finished;
        }
        let needs = tool_requires_approval(self.calls[n].name.as_str());
        if needs {
            let call = &self.calls[n];
            let summary = approval_summary(call.name.as_str(), &call.args);
            let req = ApprovalRequest { id: call.id.clone(), tool: call.name.clone(), summary };
            self.phase = RoundPhase::AwaitingApproval(n);
            RoundAction::RequestApproval(req)
        } else {
            self.phase = RoundPhase::Executing(n, None);
            RoundAction::Execute { index: n }
        }
    }

    /// Record the human decision for the call awaiting approval. On
    /// `Approve` the call is to be executed; on `Deny` it is settled with an
    /// error result (nothing runs) and the round moves on.
    pub fn on_decision(&mut self, decision: ApprovalDecision) -> (r: RoundAction)
        requires
            old(self).wf(),
            old(self).phase_view() is AwaitingApproval,
        ensures
            final(self).wf(),
            final(self).calls_view() == old(self).calls_view(),
            ({
                let i = old(self).phase_view()->AwaitingApproval_0;
                if decision == ApprovalDecision::Approve {
                    &&& final(self).results_view() == old(self).results_view()
                    &&& final(self).phase_view() == RoundPhase::Executing(i, Some(ApprovalDecision::Approve))
                    &&& r == RoundAction::Execute { index: i }
                } else {
                    &&& final(self).results_view().len() == old(self).results_view().len() + 1
                    &&& final(self).results_view().take(i as int) == old(self).results_view()
                    &&& !final(self).results_view()[i as int].executed
                    &&& (r matches RoundAction::Execute { index } ==> index > i
                        && !requires_approval(final(self).calls_view()[index as int].name@))
                }
            }),
    {
        let i = match self.phase {
            RoundPhase::AwaitingApproval(i) => i,
            _ => { return RoundAction::Finished; },
        };
        if decision.is_approved() {
            self.phase = RoundPhase::Executing(i, Some(ApprovalDecision::Approve));
            return RoundAction::Execute { index: i };
        }
        let call = &self.calls[i];
        let content = concat3("User denied this tool call. The '", call.name.as_str(),
            "' tool was NOT executed. Do not retry it; continue without it or ask the user how to proceed.");
        let res = RoundResult {
            tool_use_id: call.id.clone(),
            name: call.name.clone(),
            content,
            is_error: true,
            summary: owned("denied by user"),
            decision: Some(ApprovalDecision::Deny),
            executed: false,
        };
        let ghost before = self.results@;
        self.results.push(res);
        self.phase = RoundPhase::Ready;
        assert(self.results@.take(i as int) =~= before);
        assert(Self::result_matches(self.calls@[i as int], self.results@[i as int]));
        assert forall|j: int| 0 <= j < self.results@.len()
            implies #[trigger] Self::result_matches(self.calls@[j], self.results@[j]) by {
            if j < i {
                assert(self.results@[j] == before[j]);
            }
        }
        self.next_action()
    }

    /// Record the executor's outcome for the call being executed, then move
    /// on.
    pub fn on_outcome(&mut self, outcome: ToolOutcome) -> (r: RoundAction)
        requires
            old(self).wf(),
            old(self).phase_view() is Executing,
        ensures
            final(self).wf(),
            final(self).calls_view() == old(self).calls_view(),
            ({
                let i = old(self).phase_view()->Executing_0;
                &&& final(self).results_view().len() == old(self).results_view().len() + 1
                &&& final(self).results_view().take(i as int) == old(self).results_view()
                &&& final(self).results_view()[i as int].content@ == outcome.content@
                &&& final(self).results_view()[i as int].is_error == outcome.is_error
                &&& final(self).results_view()[i as int].summary@ == summary_spec(outcome.content@)
                &&& final(self).results_view()[i as int].executed
            }),
    {
        let (i, decision) = match self.phase {
            RoundPhase::Executing(i, d) => (i, d),
            _ => { return RoundAction::Finished; },
        };
        let call = &self.calls[i];
        let summary = summarize(outcome.content.as_str());
        let res = RoundResult {
            tool_use_id: call.id.clone(),
            name: call.name.clone(),
            content: outcome.content,
            is_error: outcome.is_error,
            summary,
            decision,
            executed: true,
        };
        let ghost before = self.results@;
        self.results.push(res);
        self.phase = RoundPhase::Ready;
        assert(self.results@.take(i as int) =~= before);
        assert forall|j: int| 0 <= j < self.results@.len()
            implies #[trigger] Self::result_matches(self.calls@[j], self.results@[j]) by {
            if j < i {
                assert(self.results@[j] == before[j]);
            }
        }
        self.next_action()
    }
}

/// The approval gate: in every state a tool round can reach, a call whose
/// tool needs approval has run only if the human approved it; a denied (or
/// unanswered, timed-out, gate-less: all resolve to `Deny`) call did not run
/// and is answered with the denial message.
pub proof fn law_unapproved_calls_never_run(round: ToolRound, i: int)
    requires
        round.wf(),
        0 <= i < round.results_view().len(),
        requires_approval(round.calls_view()[i].name@),
    ensures
        round.results_view()[i].executed ==> round.results_view()[i].decision == Some(ApprovalDecision::Approve),
        round.results_view()[i].decision != Some(ApprovalDecision::Approve) ==> {
            &&& !round.results_view()[i].executed
            &&& round.results_view()[i].is_error
            &&& round.results_view()[i].content@ == denial_msg(round.calls_view()[i].name@)
        },
{
    assert(ToolRound::result_matches(round.calls_view()[i], round.results_view()[i]));
}

/// Read-only tools need no approval: their calls run without a decision.
pub proof fn law_read_only_calls_bypass_approval(round: ToolRound, i: int)
    requires
        round.wf(),
        0 <= i < round.results_view().len(),
        !requires_approval(round.calls_view()[i].name@),
    ensures
        round.results_view()[i].executed,
        round.results_view()[i].decision is None,
{
    assert(ToolRound::result_matches(round.calls_view()[i], round.results_view()[i]));
}

/// Every tool that writes or executes needs approval, and no read-only tool
/// does.
pub proof fn law_write_exec_tools_gated(name: Seq<char>)
    ensures
        crate::tools::executor::is_write_exec_tool(name) ==> requires_approval(name),
        crate::tools::executor::is_read_only_tool(name) ==> !requires_approval(name),
{
    reveal_strlit("write_file");
    reveal_strlit("run_command");
    reveal_strlit("read_file");
    reveal_strlit("search_files");
    reveal_strlit("search_content");
    reveal_strlit("list_directory");
    assert("write_file"@.len() == 10 && "run_command"@.len() == 11);
    assert("read_file"@.len() == 9 && "search_files"@.len() == 12);
    assert("search_content"@.len() == 14 && "list_directory"@.len() == 14);
}

/// Exactly the two tools that change the system wait for a human: `write_file`
/// and `run_command` need approval, and the four read-only tools do not.
pub proof fn law_mutating_tools_need_approval()
    ensures
        requires_approval("write_file"@),
        requires_approval("run_command"@),
        !requires_approval("read_file"@),
        !requires_approval("search_files"@),
        !requires_approval("search_content"@),
        !requires_approval("list_directory"@),
{
    law_write_exec_tools_gated("read_file"@);
    law_write_exec_tools_gated("search_files"@);
    law_write_exec_tools_gated("search_content"@);
    law_write_exec_tools_gated("list_directory"@);
}

} // verus!
