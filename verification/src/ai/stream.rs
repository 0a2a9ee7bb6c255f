//! Assembly of streamed model responses: OpenAI tool-call fragments merged by
//! index, Gemini response chunks, and Anthropic server-sent events.

use vstd::prelude::*;
use crate::text::{concat2, decimal, owned, str_eq, u64_to_decimal};
use crate::session::{trim_owned, trim_white};
use super::{AiError, TokenUsage};

verus! {

/// One streamed OpenAI `tool_calls[]` fragment, as plain values.
#[derive(Clone, Debug)]
pub struct ToolCallDelta {
    pub index: Option<u64>,
    pub id: Option<String>,
    pub name: Option<String>,
    pub arguments: Option<String>,
}

/// A tool call assembled from a stream; `arguments` is its raw JSON text.
#[derive(Clone, Debug)]
pub struct RawToolCall {
    pub id: String,
    pub name: String,
    pub arguments: String,
}

/// The `(id, name, arguments)` accumulated for one index.
pub type PartialCall = (Seq<char>, Seq<char>, Seq<char>);

struct Fragment {
    index: u64,
    id: String,
    name: String,
    arguments: String,
}

spec fn frag_view(f: Fragment) -> PartialCall {
    (f.id@, f.name@, f.arguments@)
}

/// The fragment's index (0 when absent).
pub open spec fn delta_index(d: ToolCallDelta) -> u64 {
    match d.index {
        Some(i) => i,
        None => 0,
    }
}

/// `o` when it is a non-empty string, else `prev`.
pub open spec fn nonempty_or(o: Option<String>, prev: Seq<char>) -> Seq<char> {
    match o {
        Some(s) => if s@.len() > 0 {
            s@
        } else {
            prev
        },
        None => prev,
    }
}

/// A fragment merged into what its index holds: a non-empty id or name
/// replaces the earlier one, argument text is appended.
pub open spec fn merge_delta(prev: PartialCall, d: ToolCallDelta) -> PartialCall {
    (
        nonempty_or(d.id, prev.0),
        nonempty_or(d.name, prev.1),
        prev.2 + match d.arguments {
            Some(a) => a@,
            None => Seq::<char>::empty(),
        },
    )
}

pub open spec fn empty_call() -> PartialCall {
    (Seq::<char>::empty(), Seq::<char>::empty(), Seq::<char>::empty())
}

/// `calls` are the named entries of `m` in increasing index order, `ks`
/// being their indices.
pub open spec fn assembled_as(m: Map<u64, PartialCall>, calls: Seq<RawToolCall>, ks: Seq<u64>) -> bool {
    &&& ks.len() == calls.len()
    &&& forall|i: int, j: int| 0 <= i < j < ks.len() ==> ks[i] < ks[j]
    &&& forall|i: int|
        0 <= i < ks.len() ==> {
            &&& #[trigger] m.contains_key(ks[i])
            &&& m[ks[i]].1.len() > 0
            &&& m[ks[i]] == (calls[i].id@, calls[i].name@, calls[i].arguments@)
        }
    &&& forall|k: u64| #[trigger] m.contains_key(k) && m[k].1.len() > 0 ==> ks.contains(k)
}

/// Accumulates streamed OpenAI tool-call fragments by index.
pub struct ToolCallAccumulator {
    entries: Vec<Fragment>,
}

impl View for ToolCallAccumulator {
    type V = Map<u64, PartialCall>;

    closed spec fn view(&self) -> Map<u64, PartialCall> {
        Map::new(
            |k: u64| exists|i: int| 0 <= i < self.entries@.len() && self.entries@[i].index == k,
            |k: u64|
                frag_view(
                    self.entries@[choose|i: int| 0 <= i < self.entries@.len() && self.entries@[i].index == k],
                ),
        )
    }
}

fn pick(o: &Option<String>, prev: &String) -> (r: String)
    ensures
        r@ == nonempty_or(*o, prev@),
{
    match o {
        Some(s) => if s.as_str().is_empty() {
            owned(prev.as_str())
        } else {
            owned(s.as_str())
        },
        None => owned(prev.as_str()),
    }
}

impl Default for ToolCallAccumulator {
    fn default() -> (r: Self)
        ensures
            r.wf(),
            r@ == Map::<u64, PartialCall>::empty(),
    {
        ToolCallAccumulator::new()
    }
}

impl ToolCallAccumulator {
    /// Entries are kept in strictly increasing index order.
    pub closed spec fn wf(&self) -> bool {
        forall|i: int, j: int| 0 <= i < j < self.entries@.len() ==> self.entries@[i].index < self.entries@[j].index
    }

    /// An empty accumulator.
    pub fn new() -> (r: Self)
        ensures
            r.wf(),
            r@ == Map::<u64, PartialCall>::empty(),
    {
        let r = ToolCallAccumulator { entries: Vec::new() };
        assert(r@ =~= Map::<u64, PartialCall>::empty());
        r
    }

    /// Merges one fragment into the call at its index.
    pub fn ingest(&mut self, d: &ToolCallDelta)
        requires
            old(self).wf(),
        ensures
            final(self).wf(),
            final(self)@ == old(self)@.insert(
                delta_index(*d),
                merge_delta(
                    if old(self)@.contains_key(delta_index(*d)) {
                        old(self)@[delta_index(*d)]
                    } else {
                        empty_call()
                    },
                    *d,
                ),
            ),
    {
        let ghost old_entries = self.entries@;
        let ghost old_map = self@;
        let idx: u64 = match d.index {
            Some(i) => i,
            None => 0,
        };
        let n = self.entries.len();
        let mut p: usize = 0;
        while p < n && self.entries[p].index < idx
            invariant
                n == self.entries@.len(),
                0 <= p <= n,
                forall|j: int| 0 <= j < p ==> self.entries@[j].index < idx,
            decreases n - p,
        {
            p += 1;
        }
        let extra: &str = match &d.arguments {
            Some(a) => a.as_str(),
            None => "",
        };
        proof {
            reveal_strlit("");
        }
        if p < n && self.entries[p].index == idx {
            let prev = &self.entries[p];
            let f = Fragment {
                index: idx,
                id: pick(&d.id, &prev.id),
                name: pick(&d.name, &prev.name),
                arguments: concat2(prev.arguments.as_str(), extra),
            };
            proof {
                assert(old_map.contains_key(idx));
                assert(old_entries[p as int].index == idx);
                let c = choose|i: int| 0 <= i < old_entries.len() && old_entries[i].index == idx;
                assert(c == p as int) by {
                    if c < p {
                    } else if c > p {
                    }
                }
            }
            self.entries.set(p, f);
            proof {
                let new_entries = self.entries@;
                let target = old_map.insert(idx, merge_delta(old_map[idx], *d));
                assert forall|k: u64| #[trigger] self@.contains_key(k) == target.contains_key(k) by {
                    if k != idx {
                        if self@.contains_key(k) {
                            let i = choose|i: int| 0 <= i < new_entries.len() && new_entries[i].index == k;
                            assert(old_entries[i].index == k);
                        }
                        if old_map.contains_key(k) {
                            let i = choose|i: int| 0 <= i < old_entries.len() && old_entries[i].index == k;
                            assert(new_entries[i].index == k);
                        }
                    } else {
                        assert(new_entries[p as int].index == idx);
                    }
                }
                assert forall|k: u64| #[trigger] self@.contains_key(k) implies self@[k] == target[k] by {
                    let i = choose|i: int| 0 <= i < new_entries.len() && new_entries[i].index == k;
                    if k == idx {
                        assert(i == p as int) by {
                            if i < p {
                            } else if i > p {
                            }
                        }
                    } else {
                        assert(old_entries[i].index == k);
                        let i2 = choose|i2: int| 0 <= i2 < old_entries.len() && old_entries[i2].index == k;
                        assert(i2 == i) by {
                            if i2 < i {
                            } else if i2 > i {
                            }
                        }
                    }
                }
                assert(self@ =~= target);
            }
        } else {
            let ghost none_id: Option<String> = d.id;
            let f = Fragment {
                index: idx,
                id: pick(&d.id, &String::new()),
                name: pick(&d.name, &String::new()),
                arguments: owned(extra),
            };
            proof {
                assert(!old_map.contains_key(idx)) by {
                    if old_map.contains_key(idx) {
                        let i = choose|i: int| 0 <= i < old_entries.len() && old_entries[i].index == idx;
                        if i < p {
                        } else if p < n {
                            assert(old_entries[p as int].index <= old_entries[i].index);
                        }
                    }
                }
                assert(Seq::<char>::empty() + extra@ =~= extra@);
            }
            self.entries.insert(p, f);
            proof {
                let new_entries = self.entries@;
                assert(new_entries == old_entries.insert(p as int, f));
                let target = old_map.insert(idx, merge_delta(empty_call(), *d));
                assert forall|i: int, j: int| 0 <= i < j < new_entries.len() implies new_entries[i].index
                    < new_entries[j].index by {
                    if j < p {
                    } else if j == p {
                    } else if i < p {
                        assert(new_entries[j] == old_entries[j - 1]);
                        if p < n {
                            assert(old_entries[p as int].index <= old_entries[j - 1].index);
                        }
                    } else if i == p {
                        assert(new_entries[j] == old_entries[j - 1]);
                        assert(old_entries[p as int].index <= old_entries[j - 1].index);
                        assert(old_entries[p as int].index != idx);
                    } else {
                        assert(new_entries[i] == old_entries[i - 1]);
                        assert(new_entries[j] == old_entries[j - 1]);
                    }
                }
                assert forall|k: u64| #[trigger] self@.contains_key(k) == target.contains_key(k) by {
                    if k != idx {
                        if self@.contains_key(k) {
                            let i = choose|i: int| 0 <= i < new_entries.len() && new_entries[i].index == k;
                            if i < p {
                                assert(old_entries[i].index == k);
                            } else {
                                assert(i != p);
                                assert(old_entries[i - 1].index == k);
                            }
                        }
                        if old_map.contains_key(k) {
                            let i = choose|i: int| 0 <= i < old_entries.len() && old_entries[i].index == k;
                            if i < p {
                                assert(new_entries[i].index == k);
                            } else {
                                assert(new_entries[i + 1].index == k);
                            }
                        }
                    } else {
                        assert(new_entries[p as int].index == idx);
                    }
                }
                assert forall|k: u64| #[trigger] self@.contains_key(k) implies self@[k] == target[k] by {
                    let i = choose|i: int| 0 <= i < new_entries.len() && new_entries[i].index == k;
                    if k == idx {
                        assert(i == p as int) by {
                            if i < p {
                            } else if i > p {
                            }
                        }
                    } else {
                        let i2 = choose|i2: int| 0 <= i2 < old_entries.len() && old_entries[i2].index == k;
                        if i < p {
                            assert(old_entries[i].index == k);
                            assert(i2 == i) by {
                                if i2 < i {
                                } else if i2 > i {
                                }
                            }
                        } else {
                            assert(old_entries[i - 1].index == k);
                            assert(i2 == i - 1) by {
                                if i2 < i - 1 {
                                } else if i2 > i - 1 {
                                }
                            }
                        }
                    }
                }
                assert(self@ =~= target);
            }
        }
    }

    /// Whether no fragment has been accumulated.
    pub fn is_empty(&self) -> (r: bool)
        ensures
            r == (self@ == Map::<u64, PartialCall>::empty()),
    {
        let r = self.entries.len() == 0;
        proof {
            if r {
                assert(self@ =~= Map::<u64, PartialCall>::empty());
            } else {
                assert(self@.contains_key(self.entries@[0].index));
                assert(self@ != Map::<u64, PartialCall>::empty());
            }
        }
        r
    }

    /// The assembled calls in increasing index order, leaving out indices
    /// that never received a name.
    pub fn finish(self) -> (r: Vec<RawToolCall>)
        requires
            self.wf(),
        ensures
            exists|ks: Seq<u64>| #[trigger] assembled_as(self@, r@, ks),
    {
        let ghost m = self@;
        let ghost es = self.entries@;
        let mut out: Vec<RawToolCall> = Vec::new();
        let ghost mut ks: Seq<u64> = Seq::empty();
        let ghost mut src: Seq<int> = Seq::empty();
        let n = self.entries.len();
        let mut i: usize = 0;
        while i < n
            invariant
                n == es.len(),
                es == self.entries@,
                m == self@,
                self.wf(),
                0 <= i <= n,
                ks.len() == out@.len(),
                src.len() == ks.len(),
                forall|a: int| 0 <= a < src.len() ==> 0 <= #[trigger] src[a] < i,
                forall|a: int| 0 <= a < src.len() ==> es[src[a]].index == #[trigger] ks[a],
                forall|a: int, b: int| 0 <= a < b < ks.len() ==> ks[a] < ks[b],
                forall|a: int| 0 <= a < ks.len() ==> src[a] < i && (es[src[a]].name@.len() > 0) && frag_view(
                    es[src[a]],
                ) == (out@[a].id@, out@[a].name@, out@[a].arguments@),
                forall|j: int|
                    0 <= j < i && es[j].name@.len() > 0 ==> exists|a: int| 0 <= a < ks.len() && src[a] == j,
                ks.len() > 0 ==> src[ks.len() - 1] < i,
                forall|a: int| 0 <= a < ks.len() ==> ks[a] == es[src[a]].index,
            decreases n - i,
        {
            let e = &self.entries[i];
            let ghost src0 = src;
            if !e.name.as_str().is_empty() {
                proof {
                    if ks.len() > 0 {
                        assert(src[ks.len() - 1] < i);
                    }
                    assert forall|a: int| 0 <= a < ks.len() implies ks[a] < es[i as int].index by {
                        assert(src[a] < i);
                    }
                    ks = ks.push(e.index);
                    src = src.push(i as int);
                }
                out.push(RawToolCall { id: owned(e.id.as_str()), name: owned(e.name.as_str()), arguments: owned(e.arguments.as_str()) });
            }
            proof {
                assert forall|j: int| 0 <= j < i + 1 && es[j].name@.len() > 0 implies exists|a: int|
                    0 <= a < ks.len() && src[a] == j by {
                    if j < i {
                        let a = choose|a: int| 0 <= a < src0.len() && src0[a] == j;
                        assert(src[a] == j);
                    } else {
                        assert(src[src.len() - 1] == j);
                    }
                }
            }
            i += 1;
        }
        proof {
            assert forall|a: int| 0 <= a < ks.len() implies {
                &&& #[trigger] m.contains_key(ks[a])
                &&& m[ks[a]].1.len() > 0
                &&& m[ks[a]] == (out@[a].id@, out@[a].name@, out@[a].arguments@)
            } by {
                let j = src[a];
                assert(es[j].index == ks[a]);
                assert(m.contains_key(ks[a]));
                let c = choose|c: int| 0 <= c < es.len() && es[c].index == ks[a];
                assert(c == j) by {
                    if c < j {
                    } else if c > j {
                    }
                }
            }
            assert forall|k: u64| #[trigger] m.contains_key(k) && m[k].1.len() > 0 implies ks.contains(k) by {
                let c = choose|c: int| 0 <= c < es.len() && es[c].index == k;
                assert(es[c].name@.len() > 0);
                let a = choose|a: int| 0 <= a < ks.len() && src[a] == c;
                assert(ks[a] == k);
            }
            assert(assembled_as(m, out@, ks));
        }
        out
    }
}

/// A response assembled from a provider's reply: text, tool calls (raw JSON
/// arguments) and token usage.
#[derive(Clone, Debug)]
pub struct AssembledResponse {
    pub content: String,
    pub tool_calls: Vec<RawToolCall>,
    pub usage: TokenUsage,
}

/// The `(id, name, arguments)` of a call.
pub open spec fn call_view(c: RawToolCall) -> PartialCall {
    (c.id@, c.name@, c.arguments@)
}

/// `n`, or `keep` when the count is absent.
pub open spec fn count_or(n: Option<u64>, keep: u64) -> u64 {
    match n {
        Some(v) => v,
        None => keep,
    }
}

// ---------------------------------------------------------------------------
// OpenAI-compatible streams
// ---------------------------------------------------------------------------

/// Whether an OpenAI stream event's data is the end-of-stream marker.
pub fn is_done_marker(data: &str) -> (r: bool)
    ensures
        r == (trim_white(data@) == "[DONE]"@),
{
    let t = trim_owned(data);
    str_eq(t.as_str(), "[DONE]")
}

/// One OpenAI stream chunk, as plain values: the usage counts it carries
/// (when its usage object is present), the delta's text, and its tool-call
/// fragments.
#[derive(Clone, Debug)]
pub struct OpenAiChunk {
    pub prompt_tokens: Option<u64>,
    pub completion_tokens: Option<u64>,
    pub content: Option<String>,
    pub tool_calls: Vec<ToolCallDelta>,
}

/// Accumulates an OpenAI-compatible stream: text, tool-call fragments and
/// usage.
pub struct OpenAiStream {
    pub content: String,
    pub tools: ToolCallAccumulator,
    pub usage: TokenUsage,
}

/// The tool-call fragments merged into `m` in order.
pub open spec fn merge_all(m: Map<u64, PartialCall>, ds: Seq<ToolCallDelta>) -> Map<u64, PartialCall>
    decreases ds.len(),
{
    if ds.len() == 0 {
        m
    } else {
        let prev = merge_all(m, ds.drop_last());
        let d = ds.last();
        prev.insert(
            delta_index(d),
            merge_delta(if prev.contains_key(delta_index(d)) { prev[delta_index(d)] } else { empty_call() }, d),
        )
    }
}

/// The text a chunk adds: its non-empty delta text.
pub open spec fn openai_text(c: OpenAiChunk) -> Seq<char> {
    match c.content {
        Some(t) => t@,
        None => Seq::<char>::empty(),
    }
}

impl OpenAiStream {
    pub open spec fn wf(&self) -> bool {
        self.tools.wf()
    }

    /// An empty stream.
    pub fn new() -> (r: Self)
        ensures
            r.wf(),
            r.content@ == Seq::<char>::empty(),
            r.tools@ == Map::<u64, PartialCall>::empty(),
            r.usage == (TokenUsage { input_tokens: 0, output_tokens: 0 }),
    {
        OpenAiStream {
            content: String::new(),
            tools: ToolCallAccumulator::new(),
            usage: TokenUsage { input_tokens: 0, output_tokens: 0 },
        }
    }

    /// Takes one chunk: updates usage, appends its text (returned, to be shown
    /// as it arrives, when non-empty) and merges its tool-call fragments.
    pub fn ingest(&mut self, chunk: &OpenAiChunk) -> (emitted: Option<String>)
        requires
            old(self).wf(),
        ensures
            final(self).wf(),
            final(self).usage.input_tokens == count_or(chunk.prompt_tokens, old(self).usage.input_tokens),
            final(self).usage.output_tokens == count_or(chunk.completion_tokens, old(self).usage.output_tokens),
            final(self).content@ == old(self).content@ + openai_text(*chunk),
            final(self).tools@ == merge_all(old(self).tools@, chunk.tool_calls@),
            match emitted {
                Some(t) => t@ == openai_text(*chunk) && t@.len() > 0,
                None => openai_text(*chunk).len() == 0,
            },
    {
        match chunk.prompt_tokens {
            Some(v) => self.usage.input_tokens = v,
            None => {},
        }
        match chunk.completion_tokens {
            Some(v) => self.usage.output_tokens = v,
            None => {},
        }
        let mut emitted: Option<String> = None;
        match &chunk.content {
            Some(t) => {
                if !t.as_str().is_empty() {
                    self.content.append(t.as_str());
                    emitted = Some(owned(t.as_str()));
                } else {
                    assert(self.content@ + t@ =~= self.content@);
                }
            },
            None => {
                assert(self.content@ + Seq::<char>::empty() =~= self.content@);
            },
        }
        let ghost usage0 = self.usage;
        let ghost content0 = self.content@;
        let n = chunk.tool_calls.len();
        let mut i: usize = 0;
        while i < n
            invariant
                n == chunk.tool_calls@.len(),
                0 <= i <= n,
                self.usage == usage0,
                self.content@ == content0,
                self.tools.wf(),
                self.tools@ == merge_all(old(self).tools@, chunk.tool_calls@.take(i as int)),
            decreases n - i,
        {
            self.tools.ingest(&chunk.tool_calls[i]);
            proof {
                let t = chunk.tool_calls@.take(i + 1);
                assert(t.drop_last() =~= chunk.tool_calls@.take(i as int));
            }
            i += 1;
        }
        assert(chunk.tool_calls@.take(n as int) =~= chunk.tool_calls@);
        emitted
    }
}

/// A non-streamed OpenAI reply's calls: `id`, `name` and the raw arguments
/// text of each `tool_calls[]` entry.
#[derive(Clone, Debug)]
pub struct OpenAiReply {
    pub content: Option<String>,
    pub tool_calls: Vec<RawToolCall>,
    pub prompt_tokens: Option<u64>,
    pub completion_tokens: Option<u64>,
}

/// Assembles a non-streamed OpenAI reply: its text (empty when absent), its
/// calls as given, and the usage counts (0 when absent).
pub fn assemble_openai_reply(reply: OpenAiReply) -> (r: AssembledResponse)
    ensures
        r.content@ == openai_text_of(reply.content),
        r.tool_calls@ == reply.tool_calls@,
        r.usage.input_tokens == count_or(reply.prompt_tokens, 0),
        r.usage.output_tokens == count_or(reply.completion_tokens, 0),
{
    let content = match reply.content {
        Some(t) => t,
        None => String::new(),
    };
    let usage = TokenUsage {
        input_tokens: match reply.prompt_tokens {
            Some(v) => v,
            None => 0,
        },
        output_tokens: match reply.completion_tokens {
            Some(v) => v,
            None => 0,
        },
    };
    AssembledResponse { content, tool_calls: reply.tool_calls, usage }
}

pub open spec fn openai_text_of(o: Option<String>) -> Seq<char> {
    match o {
        Some(t) => t@,
        None => Seq::<char>::empty(),
    }
}

// ---------------------------------------------------------------------------
// Gemini
// ---------------------------------------------------------------------------

/// A `functionCall` part: its name and its raw JSON `args` text, if any.
#[derive(Clone, Debug)]
pub struct GeminiFunctionCall {
    pub name: Option<String>,
    pub args: Option<String>,
}

/// One content part of a Gemini response.
#[derive(Clone, Debug)]
pub struct GeminiPart {
    pub text: Option<String>,
    pub function_call: Option<GeminiFunctionCall>,
}

/// The synthesized id of the `n`-th call of a response.
pub open spec fn call_id(n: nat) -> Seq<char> {
    "call_"@ + decimal(n)
}

/// The call a `functionCall` part becomes at position `n`: id `call_<n>`,
/// its name (empty when absent) and its args (`{}` when absent).
pub open spec fn gemini_call(fc: GeminiFunctionCall, n: nat) -> PartialCall {
    (
        call_id(n),
        match fc.name {
            Some(s) => s@,
            None => Seq::<char>::empty(),
        },
        match fc.args {
            Some(a) => a@,
            None => "{}"@,
        },
    )
}

/// Builds the normalized call for a `functionCall` part at position `index`.
pub fn parse_function_call(fc: &GeminiFunctionCall, index: u64) -> (r: RawToolCall)
    ensures
        call_view(r) == gemini_call(*fc, index as nat),
{
    let n = u64_to_decimal(index);
    RawToolCall {
        id: concat2("call_", n.as_str()),
        name: match &fc.name {
            Some(s) => owned(s.as_str()),
            None => String::new(),
        },
        arguments: match &fc.args {
            Some(a) => owned(a.as_str()),
            None => owned("{}"),
        },
    }
}

/// Text and calls after taking `parts` in order: text parts (when
/// `skip_empty`, only non-empty ones) are appended, each `functionCall` part
/// becomes the next call.
pub open spec fn fold_parts(
    text: Seq<char>,
    calls: Seq<PartialCall>,
    parts: Seq<GeminiPart>,
) -> (Seq<char>, Seq<PartialCall>)
    decreases parts.len(),
{
    if parts.len() == 0 {
        (text, calls)
    } else {
        let prev = fold_parts(text, calls, parts.drop_last());
        let p = parts.last();
        let t = match p.text {
            Some(s) => prev.0 + s@,
            None => prev.0,
        };
        let cs = match p.function_call {
            Some(fc) => prev.1.push(gemini_call(fc, prev.1.len())),
            None => prev.1,
        };
        (t, cs)
    }
}

/// The non-empty texts of `parts`, in order.
pub open spec fn part_texts(parts: Seq<GeminiPart>) -> Seq<Seq<char>>
    decreases parts.len(),
{
    if parts.len() == 0 {
        Seq::empty()
    } else {
        let prev = part_texts(parts.drop_last());
        match parts.last().text {
            Some(s) => if s@.len() > 0 {
                prev.push(s@)
            } else {
                prev
            },
            None => prev,
        }
    }
}

/// One Gemini stream chunk, as plain values: an API error payload (its JSON
/// text), the parts of all its candidates in order, and the usage counts it
/// carries.
#[derive(Clone, Debug)]
pub struct GeminiChunk {
    pub error: Option<String>,
    pub parts: Vec<GeminiPart>,
    pub prompt_tokens: Option<u64>,
    pub candidates_tokens: Option<u64>,
}

/// Accumulates a Gemini stream.
pub struct GeminiStream {
    pub content: String,
    pub tool_calls: Vec<RawToolCall>,
    pub usage: TokenUsage,
}

pub open spec fn calls_view(cs: Seq<RawToolCall>) -> Seq<PartialCall> {
    cs.map_values(|c: RawToolCall| call_view(c))
}

impl GeminiStream {
    /// An empty stream.
    pub fn new() -> (r: Self)
        ensures
            r.content@ == Seq::<char>::empty(),
            r.tool_calls@ == Seq::<RawToolCall>::empty(),
            r.usage == (TokenUsage { input_tokens: 0, output_tokens: 0 }),
    {
        GeminiStream {
            content: String::new(),
            tool_calls: Vec::new(),
            usage: TokenUsage { input_tokens: 0, output_tokens: 0 },
        }
    }

    /// Takes one chunk. An error payload is returned as an API error and
    /// changes nothing; otherwise text and calls are appended, usage updated,
    /// and the chunk's non-empty texts returned in order.
    pub fn ingest(&mut self, chunk: &GeminiChunk) -> (r: Result<Vec<String>, AiError>)
        requires
            old(self).tool_calls@.len() + chunk.parts@.len() <= u64::MAX,
        ensures
            match chunk.error {
                Some(e) => {
                    &&& r matches Err(err) && (err matches AiError::ApiError(m) && m@ == e@)
                    &&& final(self).content@ == old(self).content@
                    &&& final(self).tool_calls@ == old(self).tool_calls@
                    &&& final(self).usage == old(self).usage
                },
                None => {
                    let f = fold_parts(old(self).content@, calls_view(old(self).tool_calls@), chunk.parts@);
                    &&& r matches Ok(texts) && texts@.map_values(|t: String| t@) == part_texts(chunk.parts@)
                    &&& final(self).content@ == f.0
                    &&& calls_view(final(self).tool_calls@) == f.1
                    &&& final(self).usage.input_tokens == count_or(chunk.prompt_tokens, old(self).usage.input_tokens)
                    &&& final(self).usage.output_tokens == count_or(
                        chunk.candidates_tokens,
                        old(self).usage.output_tokens,
                    )
                },
            },
    {
        match &chunk.error {
            Some(e) => return Err(AiError::ApiError(owned(e.as_str()))),
            None => {},
        }
        let mut texts: Vec<String> = Vec::new();
        let n = chunk.parts.len();
        let mut i: usize = 0;
        while i < n
            invariant
                n == chunk.parts@.len(),
                0 <= i <= n,
                old(self).tool_calls@.len() + n <= u64::MAX,
                self.tool_calls@.len() <= old(self).tool_calls@.len() + i,
                self.usage == old(self).usage,
                (self.content@, calls_view(self.tool_calls@)) == fold_parts(
                    old(self).content@,
                    calls_view(old(self).tool_calls@),
                    chunk.parts@.take(i as int),
                ),
                texts@.map_values(|t: String| t@) == part_texts(chunk.parts@.take(i as int)),
            decreases n - i,
        {
            let part = &chunk.parts[i];
            proof {
                let t = chunk.parts@.take(i + 1);
                assert(t.drop_last() =~= chunk.parts@.take(i as int));
                assert(t.last() == *part);
            }
            match &part.text {
                Some(t) => {
                    if !t.as_str().is_empty() {
                        texts.push(owned(t.as_str()));
                    }
                    self.content.append(t.as_str());
                },
                None => {},
            }
            match &part.function_call {
                Some(fc) => {
                    let k = self.tool_calls.len() as u64;
                    let call = parse_function_call(fc, k);
                    let ghost before = self.tool_calls@;
                    self.tool_calls.push(call);
                    assert(calls_view(self.tool_calls@) =~= calls_view(before).push(call_view(call)));
                },
                None => {},
            }
            proof {
                let t = chunk.parts@.take(i + 1);
                assert(texts@.map_values(|t: String| t@) =~= part_texts(t));
            }
            i += 1;
        }
        assert(chunk.parts@.take(n as int) =~= chunk.parts@);
        match chunk.prompt_tokens {
            Some(v) => self.usage.input_tokens = v,
            None => {},
        }
        match chunk.candidates_tokens {
            Some(v) => self.usage.output_tokens = v,
            None => {},
        }
        Ok(texts)
    }
}

/// Assembles a non-streamed Gemini reply from the parts of its candidates:
/// a parse error when the reply has no candidate list or an empty one, else
/// the first candidate's text and calls, with usage counts (0 when absent).
pub fn assemble_gemini_reply(
    candidates: Option<Vec<Vec<GeminiPart>>>,
    prompt_tokens: Option<u64>,
    candidates_tokens: Option<u64>,
) -> (r: Result<AssembledResponse, AiError>)
    requires
        candidates matches Some(cs) ==> (cs@.len() > 0 ==> cs@[0]@.len() <= u64::MAX),
    ensures
        match candidates {
            None => r matches Err(e) && (e matches AiError::ParseError(m) && m@ == "no candidates in response"@),
            Some(cs) => if cs@.len() == 0 {
                r matches Err(e) && (e matches AiError::ParseError(m) && m@ == "empty candidates"@)
            } else {
                let f = fold_parts(Seq::<char>::empty(), Seq::<PartialCall>::empty(), cs@[0]@);
                &&& r matches Ok(resp)
                &&& resp.content@ == f.0
                &&& calls_view(resp.tool_calls@) == f.1
                &&& resp.usage.input_tokens == count_or(prompt_tokens, 0)
                &&& resp.usage.output_tokens == count_or(candidates_tokens, 0)
            },
        },
{
    let cands = match candidates {
        None => return Err(AiError::ParseError(owned("no candidates in response"))),
        Some(cs) => cs,
    };
    if cands.len() == 0 {
        return Err(AiError::ParseError(owned("empty candidates")));
    }
    let chunk = GeminiChunk { error: None, parts: vec_first(cands), prompt_tokens: None, candidates_tokens: None };
    let mut acc = GeminiStream::new();
    assert(calls_view(acc.tool_calls@) =~= Seq::<PartialCall>::empty());
    let _ = acc.ingest(&chunk);
    let usage = TokenUsage {
        input_tokens: match prompt_tokens {
            Some(v) => v,
            None => 0,
        },
        output_tokens: match candidates_tokens {
            Some(v) => v,
            None => 0,
        },
    };
    Ok(AssembledResponse { content: acc.content, tool_calls: acc.tool_calls, usage })
}

fn vec_first(v: Vec<Vec<GeminiPart>>) -> (r: Vec<GeminiPart>)
    requires
        v@.len() > 0,
    ensures
        r@ == v@[0]@,
{
    let mut v = v;
    v.swap_remove(0)
}

/// Calls built from `functionCall` parts are numbered by position: starting
/// from calls so numbered, the `i`-th call has id `call_<i>`.
pub proof fn law_gemini_ids_follow_positions(text: Seq<char>, calls: Seq<PartialCall>, parts: Seq<GeminiPart>)
    requires
        forall|i: int| 0 <= i < calls.len() ==> #[trigger] calls[i].0 == call_id(i as nat),
    ensures
        forall|i: int|
            0 <= i < fold_parts(text, calls, parts).1.len() ==> #[trigger] fold_parts(text, calls, parts).1[i].0
                == call_id(i as nat),
    decreases parts.len(),
{
    if parts.len() > 0 {
        law_gemini_ids_follow_positions(text, calls, parts.drop_last());
        let prev = fold_parts(text, calls, parts.drop_last());
        let f = fold_parts(text, calls, parts);
        assert forall|i: int| 0 <= i < f.1.len() implies #[trigger] f.1[i].0 == call_id(i as nat) by {
            if i < prev.1.len() {
                assert(f.1[i] == prev.1[i]);
                assert(prev.1[i].0 == call_id(i as nat));
            }
        }
    }
}

// ---------------------------------------------------------------------------
// Anthropic
// ---------------------------------------------------------------------------

/// One Anthropic server-sent event, as plain values. `MessageStart` and
/// `MessageDelta` stand for events that carry a usage object (its count, if
/// that is a number); `Other` for everything the stream ignores.
#[derive(Clone, Debug)]
pub enum AnthropicEvent {
    TextDelta(String),
    InputJsonDelta(String),
    ToolUseStart { id: String, name: String },
    BlockStop,
    MessageStart { input_tokens: Option<u64> },
    MessageDelta { output_tokens: Option<u64> },
    Other,
}

/// An Anthropic stream's state as plain values: text so far, finished calls, the
/// tool-use block being built, and usage.
pub struct AnthropicView {
    pub content: Seq<char>,
    pub calls: Seq<PartialCall>,
    pub current: PartialCall,
    pub usage: TokenUsage,
}

/// The state after one event: text deltas append text; a tool-use start opens
/// a block (id, name, empty arguments); JSON deltas append to its arguments;
/// a block stop finishes the open block as a call when it has a name (and
/// then clears it); usage events set the counts (0 when not a number).
pub open spec fn anthropic_step(v: AnthropicView, ev: AnthropicEvent) -> AnthropicView {
    match ev {
        AnthropicEvent::TextDelta(t) => AnthropicView { content: v.content + t@, ..v },
        AnthropicEvent::InputJsonDelta(j) => AnthropicView {
            current: (v.current.0, v.current.1, v.current.2 + j@),
            ..v
        },
        AnthropicEvent::ToolUseStart { id, name } => AnthropicView {
            current: (id@, name@, Seq::<char>::empty()),
            ..v
        },
        AnthropicEvent::BlockStop => if v.current.1.len() > 0 {
            AnthropicView { calls: v.calls.push(v.current), current: empty_call(), ..v }
        } else {
            v
        },
        AnthropicEvent::MessageStart { input_tokens } => AnthropicView {
            usage: TokenUsage { input_tokens: count_or(input_tokens, 0), ..v.usage },
            ..v
        },
        AnthropicEvent::MessageDelta { output_tokens } => AnthropicView {
            usage: TokenUsage { output_tokens: count_or(output_tokens, 0), ..v.usage },
            ..v
        },
        AnthropicEvent::Other => v,
    }
}

/// Accumulates an Anthropic stream.
pub struct AnthropicStream {
    pub content: String,
    pub tool_calls: Vec<RawToolCall>,
    pub current_id: String,
    pub current_name: String,
    pub current_json: String,
    pub usage: TokenUsage,
}

impl AnthropicStream {
    pub open spec fn state(&self) -> AnthropicView {
        AnthropicView {
            content: self.content@,
            calls: calls_view(self.tool_calls@),
            current: (self.current_id@, self.current_name@, self.current_json@),
            usage: self.usage,
        }
    }

    /// An empty stream.
    pub fn new() -> (r: Self)
        ensures
            r.state() == (AnthropicView {
                content: Seq::<char>::empty(),
                calls: Seq::<PartialCall>::empty(),
                current: empty_call(),
                usage: TokenUsage { input_tokens: 0, output_tokens: 0 },
            }),
    {
        let r = AnthropicStream {
            content: String::new(),
            tool_calls: Vec::new(),
            current_id: String::new(),
            current_name: String::new(),
            current_json: String::new(),
            usage: TokenUsage { input_tokens: 0, output_tokens: 0 },
        };
        assert(calls_view(r.tool_calls@) =~= Seq::<PartialCall>::empty());
        r
    }

    /// Takes one event; returns the text to show now (a non-empty text delta).
    pub fn on_event(&mut self, ev: AnthropicEvent) -> (emitted: Option<String>)
        ensures
            final(self).state() == anthropic_step(old(self).state(), ev),
            match ev {
                AnthropicEvent::TextDelta(t) => if t@.len() > 0 {
                    emitted matches Some(e) && e@ == t@
                } else {
                    emitted is None
                },
                _ => emitted is None,
            },
    {
        match ev {
            AnthropicEvent::TextDelta(t) => {
                self.content.append(t.as_str());
                if t.as_str().is_empty() {
                    None
                } else {
                    Some(t)
                }
            },
            AnthropicEvent::InputJsonDelta(j) => {
                self.current_json.append(j.as_str());
                None
            },
            AnthropicEvent::ToolUseStart { id, name } => {
                self.current_id = id;
                self.current_name = name;
                self.current_json = String::new();
                None
            },
            AnthropicEvent::BlockStop => {
                if !self.current_name.as_str().is_empty() {
                    let ghost before = self.tool_calls@;
                    let call = RawToolCall {
                        id: owned(self.current_id.as_str()),
                        name: owned(self.current_name.as_str()),
                        arguments: owned(self.current_json.as_str()),
                    };
                    self.tool_calls.push(call);
                    assert(calls_view(self.tool_calls@) =~= calls_view(before).push(call_view(call)));
                    self.current_id = String::new();
                    self.current_name = String::new();
                    self.current_json = String::new();
                }
                None
            },
            AnthropicEvent::MessageStart { input_tokens } => {
                self.usage.input_tokens = match input_tokens {
                    Some(v) => v,
                    None => 0,
                };
                None
            },
            AnthropicEvent::MessageDelta { output_tokens } => {
                self.usage.output_tokens = match output_tokens {
                    Some(v) => v,
                    None => 0,
                };
                None
            },
            AnthropicEvent::Other => None,
        }
    }
}

/// The state after taking `evs` in order, starting from `v`.
pub open spec fn anthropic_run(v: AnthropicView, evs: Seq<AnthropicEvent>) -> AnthropicView
    decreases evs.len(),
{
    if evs.len() == 0 {
        v
    } else {
        anthropic_step(anthropic_run(v, evs.drop_last()), evs.last())
    }
}

/// The texts of the text deltas among `evs`, joined in order.
pub open spec fn delta_texts(evs: Seq<AnthropicEvent>) -> Seq<char>
    decreases evs.len(),
{
    if evs.len() == 0 {
        Seq::empty()
    } else {
        delta_texts(evs.drop_last()) + match evs.last() {
            AnthropicEvent::TextDelta(t) => t@,
            _ => Seq::<char>::empty(),
        }
    }
}

/// A text delta is appended to the text assembled so far; no other event
/// changes the text.
pub proof fn law_text_deltas_append(v: AnthropicView, ev: AnthropicEvent)
    ensures
        ev matches AnthropicEvent::TextDelta(t) ==> anthropic_step(v, ev).content == v.content + t@,
        !(ev is TextDelta) ==> anthropic_step(v, ev).content == v.content,
{
}

/// The text of an Anthropic stream is every text delta it received, in the
/// order received, after the text it started with.
pub proof fn law_anthropic_text_is_every_delta(v: AnthropicView, evs: Seq<AnthropicEvent>)
    ensures
        anthropic_run(v, evs).content == v.content + delta_texts(evs),
    decreases evs.len(),
{
    if evs.len() == 0 {
        assert(v.content + Seq::<char>::empty() =~= v.content);
    } else {
        law_anthropic_text_is_every_delta(v, evs.drop_last());
        law_text_deltas_append(anthropic_run(v, evs.drop_last()), evs.last());
        match evs.last() {
            AnthropicEvent::TextDelta(t) => {
                assert(v.content + delta_texts(evs.drop_last()) + t@ =~= v.content + (delta_texts(evs.drop_last()) + t@));
            },
            _ => {
                assert(delta_texts(evs.drop_last()) + Seq::<char>::empty() =~= delta_texts(evs.drop_last()));
            },
        }
    }
}

/// An OpenAI chunk adds exactly its delta text (nothing when it has none).
pub proof fn law_openai_chunk_adds_its_text(c: OpenAiChunk)
    ensures
        c.content matches Some(t) ==> openai_text(c) == t@,
        c.content is None ==> openai_text(c).len() == 0,
{
}

/// The text of a Gemini response is the text it started with followed by every
/// non-empty text part, in order; the calls it had are kept, and one call is
/// added per `functionCall` part.
pub proof fn law_gemini_text_is_every_part(text: Seq<char>, calls: Seq<PartialCall>, parts: Seq<GeminiPart>)
    ensures
        fold_parts(text, calls, parts).0 == text + super::messages::concat_all(part_texts(parts)),
        fold_parts(text, calls, parts).1.len() >= calls.len(),
        fold_parts(text, calls, parts).1.take(calls.len() as int) == calls,
    decreases parts.len(),
{
    if parts.len() == 0 {
        assert(text + Seq::<char>::empty() =~= text);
        assert(calls.take(calls.len() as int) =~= calls);
    } else {
        law_gemini_text_is_every_part(text, calls, parts.drop_last());
        let prev = fold_parts(text, calls, parts.drop_last());
        let pt = part_texts(parts.drop_last());
        match parts.last().text {
            Some(s) => {
                if s@.len() > 0 {
                    assert(pt.push(s@).drop_last() =~= pt);
                    assert(text + super::messages::concat_all(pt) + s@ =~= text + (super::messages::concat_all(pt) + s@));
                } else {
                    assert(prev.0 + s@ =~= prev.0);
                }
            },
            None => {},
        }
        match parts.last().function_call {
            Some(fc) => {
                assert(prev.1.push(gemini_call(fc, prev.1.len())).take(calls.len() as int) =~= prev.1.take(calls.len() as int));
            },
            None => {},
        }
    }
}

/// How an Anthropic stream builds its tool calls and usage: a tool-use start
/// opens a call with its id and name and no arguments yet; each JSON delta is
/// appended to the open call's arguments; a block stop adds the open call,
/// when it has a name, after the calls already finished (which stay as they
/// were) and clears it; usage events set the input or output count. Text is
/// untouched by all of these.
pub proof fn law_anthropic_calls_and_usage(v: AnthropicView, ev: AnthropicEvent)
    ensures
        ev matches AnthropicEvent::ToolUseStart { id, name } ==> anthropic_step(v, ev).current == (
            id@,
            name@,
            Seq::<char>::empty(),
        ) && anthropic_step(v, ev).calls == v.calls,
        ev matches AnthropicEvent::InputJsonDelta(j) ==> anthropic_step(v, ev).current.2 == v.current.2 + j@
            && anthropic_step(v, ev).current.0 == v.current.0 && anthropic_step(v, ev).current.1 == v.current.1
            && anthropic_step(v, ev).calls == v.calls,
        ev is BlockStop && v.current.1.len() > 0 ==> anthropic_step(v, ev).calls == v.calls.push(v.current)
            && anthropic_step(v, ev).current.1.len() == 0,
        ev is BlockStop && v.current.1.len() == 0 ==> anthropic_step(v, ev).calls == v.calls,
        ev matches AnthropicEvent::MessageStart { input_tokens: Some(n) } ==> anthropic_step(v, ev).usage.input_tokens == n
            && anthropic_step(v, ev).usage.output_tokens == v.usage.output_tokens,
        ev matches AnthropicEvent::MessageDelta { output_tokens: Some(n) } ==> anthropic_step(v, ev).usage.output_tokens == n
            && anthropic_step(v, ev).usage.input_tokens == v.usage.input_tokens,
        !(ev is TextDelta) ==> anthropic_step(v, ev).content == v.content,
{
}

/// Merging an OpenAI tool-call fragment appends its argument text to what
/// the call had (nothing is lost or reordered) and lets a non-empty id or
/// name replace the earlier one, an empty or absent one keeping it.
pub proof fn law_fragments_merge(prev: PartialCall, d: ToolCallDelta)
    ensures
        d.arguments matches Some(a) ==> merge_delta(prev, d).2 == prev.2 + a@,
        d.arguments is None ==> merge_delta(prev, d).2 == prev.2,
        d.id matches Some(i) ==> merge_delta(prev, d).0 == (if i@.len() > 0 { i@ } else { prev.0 }),
        d.id is None ==> merge_delta(prev, d).0 == prev.0,
        d.name matches Some(n) ==> merge_delta(prev, d).1 == (if n@.len() > 0 { n@ } else { prev.1 }),
        d.name is None ==> merge_delta(prev, d).1 == prev.1,
{
    if d.arguments is None {
        assert(prev.2 + Seq::<char>::empty() =~= prev.2);
    }
}

/// A usage count in an event replaces the one kept so far; an event without
/// one keeps it.
pub proof fn law_usage_counts_replace(n: Option<u64>, keep: u64)
    ensures
        n matches Some(v) ==> count_or(n, keep) == v,
        n is None ==> count_or(n, keep) == keep,
{
}

} // verus!
