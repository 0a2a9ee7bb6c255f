//! The conversation model shared by all providers, and how each provider's
//! request lays a conversation out: which turns it sends, under which roles,
//! and where the system prompt and tool traffic go. Tool inputs travel as
//! their JSON text.

use vstd::prelude::*;
use crate::text::owned;
use super::{Role, TokenUsage};
use super::stream::{AssembledResponse, PartialCall, RawToolCall, calls_view, count_or};

verus! {

/// A structured content block within a message.
#[derive(Clone, Debug)]
pub enum ContentBlock {
    /// Plain text.
    Text { text: String },
    /// A tool invocation requested by the assistant; `input` is its JSON text.
    ToolUse { id: String, name: String, input: String },
    /// The result of running a tool, sent back as a user turn.
    ToolResult { tool_use_id: String, content: String, is_error: bool },
}

/// A conversation message: plain text (`content`), or, when `blocks` is not
/// empty, structured content blocks.
#[derive(Clone, Debug)]
pub struct Message {
    pub role: Role,
    pub content: String,
    pub blocks: Vec<ContentBlock>,
}

impl Message {
    /// A plain-text message.
    pub fn text(role: Role, content: &str) -> (r: Self)
        ensures
            r.role == role,
            r.content@ == content@,
            r.blocks@.len() == 0,
    {
        Message { role, content: owned(content), blocks: Vec::new() }
    }

    /// A message carrying structured content blocks.
    pub fn blocks(role: Role, blocks: Vec<ContentBlock>) -> (r: Self)
        ensures
            r.role == role,
            r.content@.len() == 0,
            r.blocks@ == blocks@,
    {
        Message { role, content: String::new(), blocks }
    }
}

/// A copy of a block.
pub fn copy_block(b: &ContentBlock) -> (r: ContentBlock)
    ensures
        r == *b,
{
    match b {
        ContentBlock::Text { text } => ContentBlock::Text { text: text.clone() },
        ContentBlock::ToolUse { id, name, input } => ContentBlock::ToolUse {
            id: id.clone(),
            name: name.clone(),
            input: input.clone(),
        },
        ContentBlock::ToolResult { tool_use_id, content, is_error } => ContentBlock::ToolResult {
            tool_use_id: tool_use_id.clone(),
            content: content.clone(),
            is_error: *is_error,
        },
    }
}

/// A copy of a list of blocks.
pub fn copy_blocks(bs: &Vec<ContentBlock>) -> (r: Vec<ContentBlock>)
    ensures
        r@ == bs@,
{
    let mut out: Vec<ContentBlock> = Vec::new();
    let mut i: usize = 0;
    while i < bs.len()
        invariant
            0 <= i <= bs@.len(),
            out@ == bs@.take(i as int),
        decreases bs@.len() - i,
    {
        out.push(copy_block(&bs[i]));
        assert(out@ =~= bs@.take(i + 1));
        i += 1;
    }
    assert(bs@.take(bs@.len() as int) =~= bs@);
    out
}

/// The messages that are turns of the conversation: all but system messages,
/// in order.
pub open spec fn conversation(ms: Seq<Message>) -> Seq<Message>
    decreases ms.len(),
{
    if ms.len() == 0 {
        Seq::empty()
    } else {
        let prev = conversation(ms.drop_last());
        if ms.last().role == Role::System { prev } else { prev.push(ms.last()) }
    }
}

/// The content of the first system message, if any.
pub open spec fn first_system(ms: Seq<Message>) -> Option<Seq<char>>
    decreases ms.len(),
{
    if ms.len() == 0 {
        None
    } else if ms[0].role == Role::System {
        Some(ms[0].content@)
    } else {
        first_system(ms.drop_first())
    }
}

/// The system prompt of a request: the configured one, else the content of
/// the first system message.
pub open spec fn system_text_spec(configured: Option<Seq<char>>, ms: Seq<Message>) -> Option<Seq<char>> {
    match configured {
        Some(s) => Some(s),
        None => first_system(ms),
    }
}

pub open spec fn opt_str_view(o: Option<&str>) -> Option<Seq<char>> {
    match o {
        Some(s) => Some(s@),
        None => None,
    }
}

pub open spec fn opt_string_view(o: Option<String>) -> Option<Seq<char>> {
    match o {
        Some(s) => Some(s@),
        None => None,
    }
}

/// The system prompt for a request (see [`system_text_spec`]).
pub fn system_text(configured: Option<&str>, messages: &Vec<Message>) -> (r: Option<String>)
    ensures
        opt_string_view(r) == system_text_spec(opt_str_view(configured), messages@),
{
    match configured {
        Some(s) => return Some(owned(s)),
        None => {},
    }
    let mut i: usize = 0;
    assert(messages@.skip(0) =~= messages@);
    while i < messages.len()
        invariant
            configured is None,
            0 <= i <= messages@.len(),
            first_system(messages@) == first_system(messages@.skip(i as int)),
        decreases messages@.len() - i,
    {
        assert(messages@.skip(i as int)[0] == messages@[i as int]);
        if messages[i].role == Role::System {
            assert(first_system(messages@.skip(i as int)) == Some(messages@[i as int].content@));
            let c = messages[i].content.clone();
            assert(c@ == messages@[i as int].content@);
            return Some(c);
        }
        assert(messages@.skip(i as int).drop_first() =~= messages@.skip(i + 1));
        i += 1;
    }
    None
}

// ---------------------------------------------------------------------------
// Anthropic
// ---------------------------------------------------------------------------

/// What an Anthropic turn carries: plain text, or content blocks.
#[derive(Clone, Debug)]
pub enum AnthropicContent {
    Text(String),
    Blocks(Vec<ContentBlock>),
}

/// One turn of an Anthropic request.
#[derive(Clone, Debug)]
pub struct AnthropicMessage {
    pub role: &'static str,
    pub content: AnthropicContent,
}

/// User and tool messages are user turns; assistant messages are assistant
/// turns.
pub open spec fn anthropic_role(r: Role) -> Seq<char> {
    if r == Role::Assistant { "assistant"@ } else { "user"@ }
}

/// The turn a (non-system) message becomes: its role, and its text when it
/// has no blocks, else its blocks as they are.
pub open spec fn anthropic_turn(m: Message, t: AnthropicMessage) -> bool {
    &&& t.role@ == anthropic_role(m.role)
    &&& match t.content {
        AnthropicContent::Text(s) => m.blocks@.len() == 0 && s@ == m.content@,
        AnthropicContent::Blocks(bs) => m.blocks@.len() > 0 && bs@ == m.blocks@,
    }
}

/// The turns of an Anthropic request: one per conversation message, in
/// order (system messages go to the separate system prompt).
pub fn anthropic_messages(messages: &Vec<Message>) -> (r: Vec<AnthropicMessage>)
    ensures
        r@.len() == conversation(messages@).len(),
        forall|i: int| 0 <= i < r@.len() ==> anthropic_turn(#[trigger] conversation(messages@)[i], r@[i]),
{
    let mut out: Vec<AnthropicMessage> = Vec::new();
    let mut i: usize = 0;
    while i < messages.len()
        invariant
            0 <= i <= messages@.len(),
            out@.len() == conversation(messages@.take(i as int)).len(),
            forall|k: int| 0 <= k < out@.len() ==> anthropic_turn(#[trigger] conversation(messages@.take(i as int))[k], out@[k]),
        decreases messages@.len() - i,
    {
        let m = &messages[i];
        assert(messages@.take(i + 1).drop_last() =~= messages@.take(i as int));
        if m.role != Role::System {
            let role: &'static str = if m.role == Role::Assistant {
                proof { reveal_strlit("assistant"); }
                "assistant"
            } else {
                proof { reveal_strlit("user"); }
                "user"
            };
            let content = if m.blocks.len() == 0 {
                AnthropicContent::Text(m.content.clone())
            } else {
                AnthropicContent::Blocks(copy_blocks(&m.blocks))
            };
            out.push(AnthropicMessage { role, content });
        }
        i += 1;
    }
    assert(messages@.take(messages@.len() as int) =~= messages@);
    out
}

/// The text of the first text block, or empty.
pub open spec fn first_text(bs: Seq<ContentBlock>) -> Seq<char>
    decreases bs.len(),
{
    if bs.len() == 0 {
        Seq::empty()
    } else {
        match bs[0] {
            ContentBlock::Text { text } => text@,
            _ => first_text(bs.drop_first()),
        }
    }
}

/// The tool uses among the blocks, in order, as `(id, name, input)`.
pub open spec fn tool_uses(bs: Seq<ContentBlock>) -> Seq<PartialCall>
    decreases bs.len(),
{
    if bs.len() == 0 {
        Seq::empty()
    } else {
        let prev = tool_uses(bs.drop_last());
        match bs.last() {
            ContentBlock::ToolUse { id, name, input } => prev.push((id@, name@, input@)),
            _ => prev,
        }
    }
}

/// Assembles a non-streamed Anthropic reply from its content blocks: the
/// text of the first text block (empty when there is none), every tool use
/// as a call, and the usage counts (0 when absent).
pub fn assemble_anthropic_reply(
    blocks: &Vec<ContentBlock>,
    input_tokens: Option<u64>,
    output_tokens: Option<u64>,
) -> (r: AssembledResponse)
    ensures
        r.content@ == first_text(blocks@),
        calls_view(r.tool_calls@) == tool_uses(blocks@),
        r.usage.input_tokens == count_or(input_tokens, 0),
        r.usage.output_tokens == count_or(output_tokens, 0),
{
    let mut content: Option<String> = None;
    let mut calls: Vec<RawToolCall> = Vec::new();
    let mut i: usize = 0;
    assert(calls_view(calls@) =~= tool_uses(blocks@.take(0)));
    assert(blocks@.skip(0) =~= blocks@);
    while i < blocks.len()
        invariant
            0 <= i <= blocks@.len(),
            calls_view(calls@) == tool_uses(blocks@.take(i as int)),
            content matches Some(c) ==> c@ == first_text(blocks@),
            content is None ==> first_text(blocks@) == first_text(blocks@.skip(i as int)),
        decreases blocks@.len() - i,
    {
        assert(blocks@.take(i + 1).drop_last() =~= blocks@.take(i as int));
        assert(blocks@.skip(i as int)[0] == blocks@[i as int]);
        assert(blocks@.skip(i as int).drop_first() =~= blocks@.skip(i + 1));
        match &blocks[i] {
            ContentBlock::Text { text } => {
                if content.is_none() {
                    content = Some(text.clone());
                }
            },
            ContentBlock::ToolUse { id, name, input } => {
                let ghost before = calls@;
                calls.push(RawToolCall { id: id.clone(), name: name.clone(), arguments: input.clone() });
                assert(calls_view(calls@) =~= calls_view(before).push((id@, name@, input@)));
            },
            ContentBlock::ToolResult { .. } => {},
        }
        i += 1;
    }
    assert(blocks@.take(blocks@.len() as int) =~= blocks@);
    let text = match content {
        Some(c) => c,
        None => {
            assert(blocks@.skip(blocks@.len() as int) =~= Seq::<ContentBlock>::empty());
            String::new()
        },
    };
    let usage = TokenUsage {
        input_tokens: match input_tokens {
            Some(v) => v,
            None => 0,
        },
        output_tokens: match output_tokens {
            Some(v) => v,
            None => 0,
        },
    };
    AssembledResponse { content: text, tool_calls: calls, usage }
}

// ---------------------------------------------------------------------------
// OpenAI-compatible chat completions
// ---------------------------------------------------------------------------

/// One message of an OpenAI request.
#[derive(Clone, Debug)]
pub enum OpenAiMessage {
    /// A `{role, content}` message.
    Plain { role: &'static str, content: String },
    /// An assistant message with `tool_calls` (content `null` when `None`).
    ToolCalls { content: Option<String>, calls: Vec<RawToolCall> },
    /// A `{role: "tool", tool_call_id, content}` message.
    ToolResult { tool_call_id: String, content: String },
}

/// An OpenAI message as plain values.
pub enum OpenAiTurn {
    Plain(Seq<char>, Seq<char>),
    ToolCalls(Option<Seq<char>>, Seq<PartialCall>),
    ToolResult(Seq<char>, Seq<char>),
}

pub open spec fn openai_turn_view(m: OpenAiMessage) -> OpenAiTurn {
    match m {
        OpenAiMessage::Plain { role, content } => OpenAiTurn::Plain(role@, content@),
        OpenAiMessage::ToolCalls { content, calls } => OpenAiTurn::ToolCalls(opt_string_view(content), calls_view(calls@)),
        OpenAiMessage::ToolResult { tool_call_id, content } => OpenAiTurn::ToolResult(tool_call_id@, content@),
    }
}

pub open spec fn openai_turn_views(v: Seq<OpenAiMessage>) -> Seq<OpenAiTurn> {
    v.map_values(|m: OpenAiMessage| openai_turn_view(m))
}

/// The texts of the text blocks, in order.
pub open spec fn text_parts(bs: Seq<ContentBlock>) -> Seq<Seq<char>>
    decreases bs.len(),
{
    if bs.len() == 0 {
        Seq::empty()
    } else {
        let prev = text_parts(bs.drop_last());
        match bs.last() {
            ContentBlock::Text { text } => prev.push(text@),
            _ => prev,
        }
    }
}

/// The texts joined with nothing between them.
pub open spec fn concat_all(ss: Seq<Seq<char>>) -> Seq<char>
    decreases ss.len(),
{
    if ss.len() == 0 { Seq::empty() } else { concat_all(ss.drop_last()) + ss.last() }
}

/// Each tool result as its own `tool` message, in order.
pub open spec fn result_turns(bs: Seq<ContentBlock>) -> Seq<OpenAiTurn>
    decreases bs.len(),
{
    if bs.len() == 0 {
        Seq::empty()
    } else {
        let prev = result_turns(bs.drop_last());
        match bs.last() {
            ContentBlock::ToolResult { tool_use_id, content, .. } => prev.push(OpenAiTurn::ToolResult(tool_use_id@, content@)),
            _ => prev,
        }
    }
}

/// The OpenAI messages one user, assistant or tool message becomes. Plain
/// text keeps its role (assistant, else user). With blocks: when there are
/// tool uses, one assistant message carrying them as calls and the joined
/// text (absent when there is no text block); else, when there is text, one
/// message of the joined text; then one `tool` message per tool result.
pub open spec fn openai_turns_of(m: Message) -> Seq<OpenAiTurn> {
    if m.blocks@.len() == 0 {
        seq![OpenAiTurn::Plain(anthropic_role(m.role), m.content@)]
    } else {
        let texts = text_parts(m.blocks@);
        let calls = tool_uses(m.blocks@);
        let head = if calls.len() > 0 {
            seq![OpenAiTurn::ToolCalls(if texts.len() == 0 { None } else { Some(concat_all(texts)) }, calls)]
        } else if texts.len() > 0 {
            seq![OpenAiTurn::Plain(anthropic_role(m.role), concat_all(texts))]
        } else {
            Seq::empty()
        };
        head + result_turns(m.blocks@)
    }
}

/// The messages of an OpenAI request: the configured system prompt first,
/// if any; system messages only when none is configured; every other
/// message as [`openai_turns_of`] lays it out.
pub open spec fn openai_turns(configured: Option<Seq<char>>, ms: Seq<Message>) -> Seq<OpenAiTurn>
    decreases ms.len(),
{
    if ms.len() == 0 {
        match configured {
            Some(s) => seq![OpenAiTurn::Plain("system"@, s)],
            None => Seq::empty(),
        }
    } else {
        let prev = openai_turns(configured, ms.drop_last());
        let m = ms.last();
        if m.role == Role::System {
            if configured is None { prev.push(OpenAiTurn::Plain("system"@, m.content@)) } else { prev }
        } else {
            prev + openai_turns_of(m)
        }
    }
}

fn plain_role(role: Role) -> (r: &'static str)
    ensures
        r@ == anthropic_role(role),
{
    if role == Role::Assistant {
        proof { reveal_strlit("assistant"); }
        "assistant"
    } else {
        proof { reveal_strlit("user"); }
        "user"
    }
}

/// The OpenAI messages of one message (see [`openai_turns_of`]).
pub fn openai_message_turns(m: &Message) -> (r: Vec<OpenAiMessage>)
    ensures
        openai_turn_views(r@) == openai_turns_of(*m),
{
    if m.blocks.len() == 0 {
        let v = vec![OpenAiMessage::Plain { role: plain_role(m.role), content: m.content.clone() }];
        assert(openai_turn_views(v@) =~= openai_turns_of(*m));
        return v;
    }
    let bs = &m.blocks;
    let mut text_count: usize = 0;
    let mut joined = String::new();
    let mut calls: Vec<RawToolCall> = Vec::new();
    let mut results: Vec<OpenAiMessage> = Vec::new();
    let mut i: usize = 0;
    assert(calls_view(calls@) =~= Seq::<PartialCall>::empty());
    assert(openai_turn_views(results@) =~= Seq::<OpenAiTurn>::empty());
    while i < bs.len()
        invariant
            bs@ == m.blocks@,
            0 <= i <= bs@.len(),
            text_count == text_parts(bs@.take(i as int)).len(),
            text_count <= i,
            joined@ == concat_all(text_parts(bs@.take(i as int))),
            calls_view(calls@) == tool_uses(bs@.take(i as int)),
            openai_turn_views(results@) == result_turns(bs@.take(i as int)),
        decreases bs@.len() - i,
    {
        assert(bs@.take(i + 1).drop_last() =~= bs@.take(i as int));
        assert(bs@.take(i + 1).last() == bs@[i as int]);
        match &bs[i] {
            ContentBlock::Text { text } => {
                joined.append(text.as_str());
                text_count = text_count + 1;
                assert(text_parts(bs@.take(i + 1)).drop_last() =~= text_parts(bs@.take(i as int)));
            },
            ContentBlock::ToolUse { id, name, input } => {
                let ghost before = calls@;
                calls.push(RawToolCall { id: id.clone(), name: name.clone(), arguments: input.clone() });
                assert(calls_view(calls@) =~= calls_view(before).push((id@, name@, input@)));
            },
            ContentBlock::ToolResult { tool_use_id, content, .. } => {
                let ghost before = results@;
                results.push(OpenAiMessage::ToolResult { tool_call_id: tool_use_id.clone(), content: content.clone() });
                assert(openai_turn_views(results@) =~= openai_turn_views(before).push(
                    OpenAiTurn::ToolResult(tool_use_id@, content@)));
            },
        }
        i += 1;
    }
    assert(bs@.take(bs@.len() as int) =~= bs@);
    let mut out: Vec<OpenAiMessage> = Vec::new();
    if calls.len() > 0 {
        let content = if text_count == 0 { None } else { Some(joined) };
        out.push(OpenAiMessage::ToolCalls { content, calls });
    } else if text_count > 0 {
        out.push(OpenAiMessage::Plain { role: plain_role(m.role), content: joined });
    }
    let ghost head = out@;
    let ghost tail = results@;
    out.append(&mut results);
    assert(openai_turn_views(out@) =~= openai_turn_views(head) + openai_turn_views(tail));
    assert(openai_turn_views(out@) =~= openai_turns_of(*m));
    out
}

/// The messages of an OpenAI request (see [`openai_turns`]).
pub fn openai_messages(configured: Option<&str>, messages: &Vec<Message>) -> (r: Vec<OpenAiMessage>)
    ensures
        openai_turn_views(r@) == openai_turns(opt_str_view(configured), messages@),
{
    let mut out: Vec<OpenAiMessage> = Vec::new();
    match configured {
        Some(s) => {
            proof { reveal_strlit("system"); }
            out.push(OpenAiMessage::Plain { role: "system", content: owned(s) });
        },
        None => {},
    }
    let mut i: usize = 0;
    assert(messages@.take(0) =~= Seq::<Message>::empty());
    assert(openai_turn_views(out@) =~= openai_turns(opt_str_view(configured), messages@.take(0)));
    while i < messages.len()
        invariant
            0 <= i <= messages@.len(),
            openai_turn_views(out@) == openai_turns(opt_str_view(configured), messages@.take(i as int)),
        decreases messages@.len() - i,
    {
        let m = &messages[i];
        assert(messages@.take(i + 1).drop_last() =~= messages@.take(i as int));
        assert(messages@.take(i + 1).last() == messages@[i as int]);
        let ghost before = out@;
        if m.role == Role::System {
            if configured.is_none() {
                proof { reveal_strlit("system"); }
                out.push(OpenAiMessage::Plain { role: "system", content: m.content.clone() });
                assert(openai_turn_views(out@) =~= openai_turn_views(before).push(
                    OpenAiTurn::Plain("system"@, m.content@)));
            }
        } else {
            let mut turns = openai_message_turns(m);
            let ghost added = turns@;
            out.append(&mut turns);
            assert(openai_turn_views(out@) =~= openai_turn_views(before) + openai_turn_views(added));
        }
        i += 1;
    }
    assert(messages@.take(messages@.len() as int) =~= messages@);
    out
}

// ---------------------------------------------------------------------------
// Gemini
// ---------------------------------------------------------------------------

/// One part of a Gemini request turn.
#[derive(Clone, Debug)]
pub enum GeminiOutPart {
    /// `{text}`.
    Text(String),
    /// `{functionCall: {name, args}}`, `args` being JSON text.
    FunctionCall { name: String, args: String },
    /// `{functionResponse: {name, response: {content}}}`.
    FunctionResponse { name: String, content: String },
}

/// One `contents[]` turn of a Gemini request.
#[derive(Clone, Debug)]
pub struct GeminiContent {
    pub role: &'static str,
    pub parts: Vec<GeminiOutPart>,
}

/// A Gemini request part as plain values.
pub enum GeminiPartView {
    Text(Seq<char>),
    Call(Seq<char>, Seq<char>),
    Response(Seq<char>, Seq<char>),
}

pub open spec fn gemini_part_view(p: GeminiOutPart) -> GeminiPartView {
    match p {
        GeminiOutPart::Text(t) => GeminiPartView::Text(t@),
        GeminiOutPart::FunctionCall { name, args } => GeminiPartView::Call(name@, args@),
        GeminiOutPart::FunctionResponse { name, content } => GeminiPartView::Response(name@, content@),
    }
}

pub open spec fn gemini_part_views(ps: Seq<GeminiOutPart>) -> Seq<GeminiPartView> {
    ps.map_values(|p: GeminiOutPart| gemini_part_view(p))
}

pub open spec fn gemini_content_views(cs: Seq<GeminiContent>) -> Seq<(Seq<char>, Seq<GeminiPartView>)> {
    cs.map_values(|c: GeminiContent| (c.role@, gemini_part_views(c.parts@)))
}

pub open spec fn pair_views(v: Seq<(String, String)>) -> Seq<(Seq<char>, Seq<char>)> {
    v.map_values(|p: (String, String)| (p.0@, p.1@))
}

/// The function name last recorded for a tool-use id.
pub open spec fn name_for(pairs: Seq<(Seq<char>, Seq<char>)>, id: Seq<char>) -> Option<Seq<char>>
    decreases pairs.len(),
{
    if pairs.len() == 0 {
        None
    } else if pairs.last().0 == id {
        Some(pairs.last().1)
    } else {
        name_for(pairs.drop_last(), id)
    }
}

/// The parts blocks become, in order, given the `(id, name)` pairs of the
/// tool uses seen so far, and those pairs afterwards: text as text; a tool
/// use as a function call (its id recorded with its name); a tool result
/// as a function response named by its tool use's function (by the id
/// itself when no such tool use was seen).
pub open spec fn gemini_parts_of(pairs: Seq<(Seq<char>, Seq<char>)>, bs: Seq<ContentBlock>)
    -> (Seq<GeminiPartView>, Seq<(Seq<char>, Seq<char>)>)
    decreases bs.len(),
{
    if bs.len() == 0 {
        (Seq::empty(), pairs)
    } else {
        let prev = gemini_parts_of(pairs, bs.drop_last());
        match bs.last() {
            ContentBlock::Text { text } => (prev.0.push(GeminiPartView::Text(text@)), prev.1),
            ContentBlock::ToolUse { id, name, input } =>
                (prev.0.push(GeminiPartView::Call(name@, input@)), prev.1.push((id@, name@))),
            ContentBlock::ToolResult { tool_use_id, content, .. } => (
                prev.0.push(GeminiPartView::Response(
                    match name_for(prev.1, tool_use_id@) {
                        Some(n) => n,
                        None => tool_use_id@,
                    },
                    content@,
                )),
                prev.1,
            ),
        }
    }
}

/// Assistant turns are `model` turns; the others are `user` turns.
pub open spec fn gemini_role(r: Role) -> Seq<char> {
    if r == Role::Assistant { "model"@ } else { "user"@ }
}

/// The `contents[]` of a Gemini request (with the tool-use pairs seen):
/// system messages are left out (they go to the system instruction); a
/// plain message is one text part; a message with blocks is the parts they
/// become, when there are any.
pub open spec fn gemini_turns(ms: Seq<Message>)
    -> (Seq<(Seq<char>, Seq<GeminiPartView>)>, Seq<(Seq<char>, Seq<char>)>)
    decreases ms.len(),
{
    if ms.len() == 0 {
        (Seq::empty(), Seq::empty())
    } else {
        let prev = gemini_turns(ms.drop_last());
        let m = ms.last();
        if m.role == Role::System {
            prev
        } else if m.blocks@.len() == 0 {
            (prev.0.push((gemini_role(m.role), seq![GeminiPartView::Text(m.content@)])), prev.1)
        } else {
            let ps = gemini_parts_of(prev.1, m.blocks@);
            (if ps.0.len() > 0 { prev.0.push((gemini_role(m.role), ps.0)) } else { prev.0 }, ps.1)
        }
    }
}

fn lookup_name(pairs: &Vec<(String, String)>, id: &str) -> (r: Option<String>)
    ensures
        opt_string_view(r) == name_for(pair_views(pairs@), id@),
{
    let ghost all = pair_views(pairs@);
    let mut j: usize = pairs.len();
    assert(all.take(j as int) =~= all);
    while j > 0
        invariant
            all == pair_views(pairs@),
            0 <= j <= pairs@.len(),
            name_for(all, id@) == name_for(all.take(j as int), id@),
        decreases j,
    {
        let k = j - 1;
        assert(all.take(j as int).drop_last() =~= all.take(k as int));
        assert(all.take(j as int).last() == (pairs@[k as int].0@, pairs@[k as int].1@));
        if crate::text::str_eq(pairs[k].0.as_str(), id) {
            return Some(pairs[k].1.clone());
        }
        j = k;
    }
    None
}

fn gemini_role_str(role: Role) -> (r: &'static str)
    ensures
        r@ == gemini_role(role),
{
    if role == Role::Assistant {
        proof { reveal_strlit("model"); }
        "model"
    } else {
        proof { reveal_strlit("user"); }
        "user"
    }
}

/// The `contents[]` of a Gemini request (see [`gemini_turns`]).
pub fn gemini_contents(messages: &Vec<Message>) -> (r: Vec<GeminiContent>)
    ensures
        gemini_content_views(r@) == gemini_turns(messages@).0,
{
    let mut out: Vec<GeminiContent> = Vec::new();
    let mut pairs: Vec<(String, String)> = Vec::new();
    let mut i: usize = 0;
    assert(messages@.take(0) =~= Seq::<Message>::empty());
    assert(gemini_content_views(out@) =~= Seq::<(Seq<char>, Seq<GeminiPartView>)>::empty());
    assert(pair_views(pairs@) =~= Seq::<(Seq<char>, Seq<char>)>::empty());
    while i < messages.len()
        invariant
            0 <= i <= messages@.len(),
            gemini_content_views(out@) == gemini_turns(messages@.take(i as int)).0,
            pair_views(pairs@) == gemini_turns(messages@.take(i as int)).1,
        decreases messages@.len() - i,
    {
        let m = &messages[i];
        assert(messages@.take(i + 1).drop_last() =~= messages@.take(i as int));
        assert(messages@.take(i + 1).last() == messages@[i as int]);
        let ghost before = out@;
        if m.role == Role::System {
        } else if m.blocks.len() == 0 {
            let parts = vec![GeminiOutPart::Text(m.content.clone())];
            out.push(GeminiContent { role: gemini_role_str(m.role), parts });
            assert(gemini_part_views(parts@) =~= seq![GeminiPartView::Text(m.content@)]);
            assert(gemini_content_views(out@) =~= gemini_content_views(before).push(
                (gemini_role(m.role), seq![GeminiPartView::Text(m.content@)])));
        } else {
            let bs = &m.blocks;
            let ghost start = pair_views(pairs@);
            let mut parts: Vec<GeminiOutPart> = Vec::new();
            let mut b: usize = 0;
            assert(bs@.take(0) =~= Seq::<ContentBlock>::empty());
            assert(gemini_part_views(parts@) =~= Seq::<GeminiPartView>::empty());
            while b < bs.len()
                invariant
                    bs@ == m.blocks@,
                    0 <= b <= bs@.len(),
                    gemini_part_views(parts@) == gemini_parts_of(start, bs@.take(b as int)).0,
                    pair_views(pairs@) == gemini_parts_of(start, bs@.take(b as int)).1,
                decreases bs@.len() - b,
            {
                assert(bs@.take(b + 1).drop_last() =~= bs@.take(b as int));
                assert(bs@.take(b + 1).last() == bs@[b as int]);
                let ghost ps_before = parts@;
                let ghost pairs_before = pairs@;
                match &bs[b] {
                    ContentBlock::Text { text } => {
                        parts.push(GeminiOutPart::Text(text.clone()));
                        assert(gemini_part_views(parts@) =~= gemini_part_views(ps_before).push(GeminiPartView::Text(text@)));
                    },
                    ContentBlock::ToolUse { id, name, input } => {
                        pairs.push((id.clone(), name.clone()));
                        parts.push(GeminiOutPart::FunctionCall { name: name.clone(), args: input.clone() });
                        assert(gemini_part_views(parts@) =~= gemini_part_views(ps_before).push(
                            GeminiPartView::Call(name@, input@)));
                        assert(pair_views(pairs@) =~= pair_views(pairs_before).push((id@, name@)));
                    },
                    ContentBlock::ToolResult { tool_use_id, content, .. } => {
                        let name = match lookup_name(&pairs, tool_use_id.as_str()) {
                            Some(n) => n,
                            None => tool_use_id.clone(),
                        };
                        let ghost nv = name@;
                        parts.push(GeminiOutPart::FunctionResponse { name, content: content.clone() });
                        assert(gemini_part_views(parts@) =~= gemini_part_views(ps_before).push(
                            GeminiPartView::Response(nv, content@)));
                    },
                }
                b += 1;
            }
            assert(bs@.take(bs@.len() as int) =~= bs@);
            if parts.len() > 0 {
                let ghost pv = gemini_part_views(parts@);
                out.push(GeminiContent { role: gemini_role_str(m.role), parts });
                assert(gemini_content_views(out@) =~= gemini_content_views(before).push((gemini_role(m.role), pv)));
            }
        }
        i += 1;
    }
    assert(messages@.take(messages@.len() as int) =~= messages@);
    out
}

/// Messages a model sees as plain speech: no blocks, not a system message.
pub open spec fn plain_history(ms: Seq<Message>) -> bool {
    forall|i: int| 0 <= i < ms.len() ==> (#[trigger] ms[i]).blocks@.len() == 0 && ms[i].role != Role::System
}

/// A plain conversation keeps its speakers and its words in every request
/// layout: each message becomes one turn, in order, with the message's own
/// text, spoken by the assistant (OpenAI, Anthropic: "assistant"; Gemini:
/// "model") exactly when the message is the model's own, and by "user"
/// otherwise. The model's earlier replies are never sent as user turns.
pub proof fn law_plain_history_keeps_speakers(ms: Seq<Message>)
    requires
        plain_history(ms),
    ensures
        openai_turns(None, ms).len() == ms.len(),
        forall|i: int| 0 <= i < ms.len() ==> #[trigger] openai_turns(None, ms)[i] == OpenAiTurn::Plain(
            if ms[i].role == Role::Assistant { "assistant"@ } else { "user"@ },
            ms[i].content@,
        ),
        gemini_turns(ms).0.len() == ms.len(),
        forall|i: int| 0 <= i < ms.len() ==> #[trigger] gemini_turns(ms).0[i] == (
            if ms[i].role == Role::Assistant { "model"@ } else { "user"@ },
            seq![GeminiPartView::Text(ms[i].content@)],
        ),
        "assistant"@ != "user"@,
        "model"@ != "user"@,
    decreases ms.len(),
{
    reveal_strlit("assistant");
    reveal_strlit("user");
    reveal_strlit("model");
    assert("assistant"@[0] != "user"@[0]);
    assert("model"@[0] != "user"@[0]);
    if ms.len() > 0 {
        let prev = ms.drop_last();
        assert forall|i: int| 0 <= i < prev.len() implies (#[trigger] prev[i]).blocks@.len() == 0
            && prev[i].role != Role::System by {
            assert(prev[i] == ms[i]);
        }
        law_plain_history_keeps_speakers(prev);
        let m = ms.last();
        assert(ms[ms.len() - 1] == m);
        let ot = openai_turns(None, ms);
        assert(openai_turns_of(m) =~= seq![OpenAiTurn::Plain(anthropic_role(m.role), m.content@)]);
        assert forall|i: int| 0 <= i < ms.len() implies #[trigger] ot[i] == OpenAiTurn::Plain(
            if ms[i].role == Role::Assistant { "assistant"@ } else { "user"@ },
            ms[i].content@,
        ) by {
            if i < prev.len() {
                assert(ot[i] == openai_turns(None, prev)[i]);
                assert(prev[i] == ms[i]);
            }
        }
        let gt = gemini_turns(ms).0;
        assert forall|i: int| 0 <= i < ms.len() implies #[trigger] gt[i] == (
            if ms[i].role == Role::Assistant { "model"@ } else { "user"@ },
            seq![GeminiPartView::Text(ms[i].content@)],
        ) by {
            if i < prev.len() {
                assert(gt[i] == gemini_turns(prev).0[i]);
                assert(prev[i] == ms[i]);
            }
        }
    }
}

/// An Anthropic turn keeps its message's speaker ("assistant" exactly for
/// the model's own messages, "user" otherwise) and, for a message without
/// blocks, its text.
pub proof fn law_anthropic_turn_keeps_speaker(m: Message, t: AnthropicMessage)
    requires
        anthropic_turn(m, t),
    ensures
        t.role@ == (if m.role == Role::Assistant { "assistant"@ } else { "user"@ }),
        m.blocks@.len() == 0 ==> (t.content matches AnthropicContent::Text(s) && s@ == m.content@),
        m.blocks@.len() > 0 ==> (t.content matches AnthropicContent::Blocks(bs) && bs@ == m.blocks@),
{
}

} // verus!
