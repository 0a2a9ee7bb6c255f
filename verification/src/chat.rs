//! A chat session's state: its history, system prompt, tools and round cap,
//! and how each step of the tool loop extends the history. Talking to the
//! model, asking the human and running the tools happen outside; the loop's
//! decisions are `session::after_response` and `session::ToolRound`.

use vstd::prelude::*;
use std::sync::Arc;
use std::sync::atomic::AtomicBool;
use crate::text::owned;
use crate::ai::Role;
use crate::ai::messages::{ContentBlock, Message, copy_blocks};
use crate::ai::stream::RawToolCall;
use crate::session::{PendingCall, RoundResult, ToolRound};
use crate::tools::executor::ToolArgs;
use crate::tools::definitions::{spec_view, ToolSpec};

verus! {

/// A content block as plain values.
pub enum BlockView {
    Text(Seq<char>),
    ToolUse(Seq<char>, Seq<char>, Seq<char>),
    ToolResult(Seq<char>, Seq<char>, bool),
}

pub open spec fn block_view(b: ContentBlock) -> BlockView {
    match b {
        ContentBlock::Text { text } => BlockView::Text(text@),
        ContentBlock::ToolUse { id, name, input } => BlockView::ToolUse(id@, name@, input@),
        ContentBlock::ToolResult { tool_use_id, content, is_error } => BlockView::ToolResult(tool_use_id@, content@, is_error),
    }
}

/// A message as plain values: role, text, blocks.
pub open spec fn msg_view(m: Message) -> (Role, Seq<char>, Seq<BlockView>) {
    (m.role, m.content@, m.blocks@.map_values(|b: ContentBlock| block_view(b)))
}

pub open spec fn msg_views(ms: Seq<Message>) -> Seq<(Role, Seq<char>, Seq<BlockView>)> {
    ms.map_values(|m: Message| msg_view(m))
}

/// A copy of a message.
pub fn copy_message(m: &Message) -> (r: Message)
    ensures
        msg_view(r) == msg_view(*m),
{
    let blocks = copy_blocks(&m.blocks);
    let r = Message { role: m.role, content: m.content.clone(), blocks };
    assert(r.blocks@.map_values(|b: ContentBlock| block_view(b)) =~= m.blocks@.map_values(|b: ContentBlock| block_view(b)));
    r
}

/// The assistant turn of a tool round: its text (when not empty), then each
/// requested call as a tool use, in order.
pub open spec fn tool_use_blocks(content: Seq<char>, calls: Seq<RawToolCall>) -> Seq<BlockView> {
    (if content.len() > 0 { seq![BlockView::Text(content)] } else { Seq::empty() })
        + calls.map_values(|c: RawToolCall| BlockView::ToolUse(c.id@, c.name@, c.arguments@))
}

/// The user turn of a tool round: each settled result, in order.
pub open spec fn tool_result_blocks(results: Seq<RoundResult>) -> Seq<BlockView> {
    results.map_values(|r: RoundResult| BlockView::ToolResult(r.tool_use_id@, r.content@, r.is_error))
}

/// A conversation with a model: the history, the system prompt sent before
/// it, the tools offered, and the cap on tool rounds per user message.
pub struct Session {
    messages: Vec<Message>,
    system_prompt: Option<String>,
    tools: Vec<ToolSpec>,
    max_tool_rounds: u32,
    provider: String,
    busy: Arc<AtomicBool>,
}

/// The tool-round cap of a new session.
pub const DEFAULT_MAX_TOOL_ROUNDS: u32 = 10;

impl Session {
    pub closed spec fn history(&self) -> Seq<(Role, Seq<char>, Seq<BlockView>)> {
        msg_views(self.messages@)
    }

    pub closed spec fn system(&self) -> Option<Seq<char>> {
        match self.system_prompt {
            Some(s) => Some(s@),
            None => None,
        }
    }

    /// The tools offered to the model, in order.
    pub closed spec fn tool_list(&self) -> Seq<ToolSpec> {
        self.tools@
    }

    /// The offered tools as plain values (name, description, parameters).
    pub open spec fn tools_view(&self) -> Seq<(Seq<char>, Seq<char>, Seq<(Seq<char>, Seq<char>, bool)>)> {
        self.tool_list().map_values(|t: ToolSpec| spec_view(t))
    }

    pub closed spec fn round_cap(&self) -> u32 {
        self.max_tool_rounds
    }

    pub closed spec fn provider_name(&self) -> Seq<char> {
        self.provider@
    }

    /// The session's own busy flag.
    pub closed spec fn busy_of(&self) -> Arc<AtomicBool> {
        self.busy
    }

    /// An empty session for `provider`: no history, no system prompt, no
    /// tools, the default round cap.
    pub fn new(provider: &str) -> (r: Self)
        ensures
            r.history() == Seq::<(Role, Seq<char>, Seq<BlockView>)>::empty(),
            r.system() is None,
            r.tool_list() == Seq::<ToolSpec>::empty(),
            r.round_cap() == DEFAULT_MAX_TOOL_ROUNDS,
            r.provider_name() == provider@,
    {
        let r = Session {
            messages: Vec::new(),
            system_prompt: None,
            tools: Vec::new(),
            max_tool_rounds: DEFAULT_MAX_TOOL_ROUNDS,
            provider: owned(provider),
            busy: Arc::new(AtomicBool::new(false)),
        };
        assert(msg_views(r.messages@) =~= Seq::<(Role, Seq<char>, Seq<BlockView>)>::empty());
        r
    }

    /// The same session with a system prompt.
    pub fn with_system_prompt(self, prompt: &str) -> (r: Self)
        ensures
            r.system() == Some(prompt@),
            r.history() == self.history(),
            r.tool_list() == self.tool_list(),
            r.round_cap() == self.round_cap(),
    {
        Session { system_prompt: Some(owned(prompt)), ..self }
    }

    /// The same session offering `tools`.
    pub fn with_tools(self, tools: Vec<ToolSpec>) -> (r: Self)
        ensures
            r.tool_list() == tools@,
            r.tools_view() == tools@.map_values(|t: ToolSpec| spec_view(t)),
            r.history() == self.history(),
            r.system() == self.system(),
            r.round_cap() == self.round_cap(),
    {
        Session { tools, ..self }
    }

    /// The same session with a different tool-round cap.
    pub fn with_max_tool_rounds(self, max: u32) -> (r: Self)
        ensures
            r.round_cap() == max,
            r.history() == self.history(),
            r.system() == self.system(),
            r.tool_list() == self.tool_list(),
    {
        Session { max_tool_rounds: max, ..self }
    }

    /// The tools offered to the model.
    pub fn tools(&self) -> (r: &Vec<ToolSpec>)
        ensures
            r@ == self.tool_list(),
            r@.map_values(|t: ToolSpec| spec_view(t)) == self.tools_view(),
    {
        &self.tools
    }

    /// The tool-round cap.
    pub fn max_tool_rounds(&self) -> (r: u32)
        ensures
            r == self.round_cap(),
    {
        self.max_tool_rounds
    }

    /// The provider name usage is recorded under.
    pub fn provider(&self) -> (r: &str)
        ensures
            r@ == self.provider_name(),
    {
        self.provider.as_str()
    }

    /// The flag that is set while a request is in progress.
    pub fn busy_flag(&self) -> (r: &Arc<AtomicBool>)
        ensures
            *r == self.busy_of(),
    {
        &self.busy
    }

    /// The full conversation history.
    pub fn messages(&self) -> (r: &Vec<Message>)
        ensures
            msg_views(r@) == self.history(),
    {
        &self.messages
    }

    /// The number of messages in the history.
    pub fn message_count(&self) -> (r: usize)
        ensures
            r == self.history().len(),
    {
        self.messages.len()
    }

    /// Forgets the history.
    pub fn clear(&mut self)
        ensures
            final(self).history() == Seq::<(Role, Seq<char>, Seq<BlockView>)>::empty(),
            final(self).system() == old(self).system(),
            final(self).tool_list() == old(self).tool_list(),
            final(self).round_cap() == old(self).round_cap(),
    {
        self.messages = Vec::new();
        assert(msg_views(self.messages@) =~= Seq::<(Role, Seq<char>, Seq<BlockView>)>::empty());
    }

    /// What is sent to the model: the system prompt as a system message
    /// (when set), then the history.
    pub fn build_messages(&self) -> (r: Vec<Message>)
        ensures
            msg_views(r@) == (match self.system() {
                Some(s) => seq![(Role::System, s, Seq::<BlockView>::empty())],
                None => Seq::empty(),
            }) + self.history(),
    {
        let mut out: Vec<Message> = Vec::new();
        match &self.system_prompt {
            Some(s) => {
                let m = Message::text(Role::System, s.as_str());
                out.push(m);
                assert(m.blocks@.map_values(|b: ContentBlock| block_view(b)) =~= Seq::<BlockView>::empty());
            },
            None => {},
        }
        let ghost head = msg_views(out@);
        let mut i: usize = 0;
        while i < self.messages.len()
            invariant
                0 <= i <= self.messages@.len(),
                msg_views(out@) == head + msg_views(self.messages@).take(i as int),
            decreases self.messages@.len() - i,
        {
            let ghost before = out@;
            let c = copy_message(&self.messages[i]);
            out.push(c);
            assert(msg_views(out@) =~= msg_views(before).push(msg_view(self.messages@[i as int])));
            assert(msg_views(self.messages@).take(i + 1) =~= msg_views(self.messages@).take(i as int).push(
                msg_view(self.messages@[i as int])));
            i += 1;
        }
        assert(msg_views(self.messages@).take(self.messages@.len() as int) =~= msg_views(self.messages@));
        assert(msg_views(out@) =~= (match self.system() {
            Some(s) => seq![(Role::System, s, Seq::<BlockView>::empty())],
            None => Seq::empty(),
        }) + self.history());
        out
    }

    /// Records the user's message.
    pub fn push_user(&mut self, text: &str)
        ensures
            final(self).history() == old(self).history().push((Role::User, text@, Seq::<BlockView>::empty())),
            final(self).system() == old(self).system(),
            final(self).round_cap() == old(self).round_cap(),
            final(self).tool_list() == old(self).tool_list(),
    {
        self.push_text(Role::User, text);
    }

    /// Records the model's final text for this user message.
    pub fn push_reply(&mut self, text: &str)
        ensures
            final(self).history() == old(self).history().push((Role::Assistant, text@, Seq::<BlockView>::empty())),
            final(self).system() == old(self).system(),
            final(self).round_cap() == old(self).round_cap(),
            final(self).tool_list() == old(self).tool_list(),
    {
        self.push_text(Role::Assistant, text);
    }

    fn push_text(&mut self, role: Role, text: &str)
        ensures
            final(self).history() == old(self).history().push((role, text@, Seq::<BlockView>::empty())),
            final(self).system() == old(self).system(),
            final(self).round_cap() == old(self).round_cap(),
            final(self).tool_list() == old(self).tool_list(),
    {
        let m = Message::text(role, text);
        let ghost before = self.messages@;
        self.messages.push(m);
        assert(m.blocks@.map_values(|b: ContentBlock| block_view(b)) =~= Seq::<BlockView>::empty());
        assert(msg_views(self.messages@) =~= msg_views(before).push(msg_view(m)));
    }

    /// Records a finished tool round: the assistant turn with the response's
    /// text and its calls as tool uses, then the user turn with every
    /// result, each keyed by its call's id.
    pub fn record_tool_round(&mut self, content: &str, calls: &Vec<RawToolCall>, results: &Vec<RoundResult>)
        ensures
            final(self).history() == old(self).history()
                + seq![
                    (Role::Assistant, Seq::<char>::empty(), tool_use_blocks(content@, calls@)),
                    (Role::User, Seq::<char>::empty(), tool_result_blocks(results@)),
                ],
            final(self).system() == old(self).system(),
            final(self).round_cap() == old(self).round_cap(),
            final(self).tool_list() == old(self).tool_list(),
    {
        let mut uses: Vec<ContentBlock> = Vec::new();
        if !content.is_empty() {
            uses.push(ContentBlock::Text { text: owned(content) });
        }
        let ghost head = uses@.map_values(|b: ContentBlock| block_view(b));
        assert(head =~= (if content@.len() > 0 { seq![BlockView::Text(content@)] } else { Seq::<BlockView>::empty() }));
        let mut i: usize = 0;
        while i < calls.len()
            invariant
                0 <= i <= calls@.len(),
                uses@.map_values(|b: ContentBlock| block_view(b)) == head + calls@.take(i as int).map_values(
                    |c: RawToolCall| BlockView::ToolUse(c.id@, c.name@, c.arguments@)),
            decreases calls@.len() - i,
        {
            let ghost before = uses@;
            let c = &calls[i];
            uses.push(ContentBlock::ToolUse { id: c.id.clone(), name: c.name.clone(), input: c.arguments.clone() });
            assert(uses@.map_values(|b: ContentBlock| block_view(b)) =~= before.map_values(|b: ContentBlock| block_view(b)).push(
                BlockView::ToolUse(c.id@, c.name@, c.arguments@)));
            assert(calls@.take(i + 1).map_values(|c: RawToolCall| BlockView::ToolUse(c.id@, c.name@, c.arguments@))
                =~= calls@.take(i as int).map_values(|c: RawToolCall| BlockView::ToolUse(c.id@, c.name@, c.arguments@)).push(
                BlockView::ToolUse(c.id@, c.name@, c.arguments@)));
            i += 1;
        }
        assert(calls@.take(calls@.len() as int) =~= calls@);
        let mut outs: Vec<ContentBlock> = Vec::new();
        let mut k: usize = 0;
        while k < results.len()
            invariant
                0 <= k <= results@.len(),
                outs@.map_values(|b: ContentBlock| block_view(b)) == tool_result_blocks(results@.take(k as int)),
            decreases results@.len() - k,
        {
            let ghost before = outs@;
            let r = &results[k];
            outs.push(ContentBlock::ToolResult {
                tool_use_id: r.tool_use_id.clone(),
                content: r.content.clone(),
                is_error: r.is_error,
            });
            assert(outs@.map_values(|b: ContentBlock| block_view(b)) =~= before.map_values(|b: ContentBlock| block_view(b)).push(
                BlockView::ToolResult(r.tool_use_id@, r.content@, r.is_error)));
            assert(tool_result_blocks(results@.take(k + 1)) =~= tool_result_blocks(results@.take(k as int)).push(
                BlockView::ToolResult(r.tool_use_id@, r.content@, r.is_error)));
            k += 1;
        }
        assert(results@.take(results@.len() as int) =~= results@);
        let ghost use_views = uses@.map_values(|b: ContentBlock| block_view(b));
        let ghost out_views = outs@.map_values(|b: ContentBlock| block_view(b));
        let a = Message::blocks(Role::Assistant, uses);
        let u = Message::blocks(Role::User, outs);
        assert(a.content@ =~= Seq::<char>::empty());
        assert(u.content@ =~= Seq::<char>::empty());
        assert(use_views =~= tool_use_blocks(content@, calls@));
        assert(msg_view(a) == (Role::Assistant, Seq::<char>::empty(), tool_use_blocks(content@, calls@)));
        assert(msg_view(u) == (Role::User, Seq::<char>::empty(), tool_result_blocks(results@)));
        let ghost before = self.messages@;
        self.messages.push(a);
        self.messages.push(u);
        assert(msg_views(self.messages@) =~= msg_views(before).push(msg_view(a)).push(msg_view(u)));
    }
}

impl Default for Session {
    fn default() -> (r: Self)
        ensures
            r.history() == Seq::<(Role, Seq<char>, Seq<BlockView>)>::empty(),
            r.system() is None,
            r.round_cap() == DEFAULT_MAX_TOOL_ROUNDS,
            r.provider_name() == "default"@,
    {
        proof { reveal_strlit("default"); }
        Session::new("default")
    }
}

/// The call a tool round works on for a requested call, with its arguments
/// as read from the call's JSON.
pub fn pending_call(call: &RawToolCall, args: ToolArgs) -> (r: PendingCall)
    ensures
        r.id@ == call.id@,
        r.name@ == call.name@,
        r.args == args,
{
    PendingCall { id: call.id.clone(), name: call.name.clone(), args }
}

/// In a recorded tool round every result answers the call at its position:
/// when the round worked on the response's calls (same ids, same order) and
/// settled all of them, the `i`-th tool-result block carries the id of the
/// `i`-th tool-use block.
pub proof fn law_results_answer_calls(
    content: Seq<char>,
    calls: Seq<RawToolCall>,
    pending: Seq<PendingCall>,
    results: Seq<RoundResult>,
)
    requires
        pending.len() == calls.len(),
        forall|i: int| 0 <= i < calls.len() ==> (#[trigger] pending[i]).id@ == calls[i].id@,
        results.len() == pending.len(),
        forall|i: int| 0 <= i < results.len() ==> ToolRound::result_matches(pending[i], #[trigger] results[i]),
    ensures
        forall|i: int| 0 <= i < calls.len() ==> {
            let off: int = if content.len() > 0 { 1 } else { 0 };
            &&& tool_use_blocks(content, calls)[i + off] matches BlockView::ToolUse(use_id, _, _)
            &&& #[trigger] tool_result_blocks(results)[i] matches BlockView::ToolResult(result_id, _, _)
            &&& use_id == result_id
        },
{
    assert forall|i: int| 0 <= i < calls.len() implies {
        let off: int = if content.len() > 0 { 1 } else { 0 };
        &&& tool_use_blocks(content, calls)[i + off] matches BlockView::ToolUse(use_id, _, _)
        &&& #[trigger] tool_result_blocks(results)[i] matches BlockView::ToolResult(result_id, _, _)
        &&& use_id == result_id
    } by {
        assert(ToolRound::result_matches(pending[i], results[i]));
        assert(pending[i].id@ == calls[i].id@);
    }
}

} // verus!
