//! Provider-independent AI types: roles, token accounting, errors, skill
//! routing, the per-session busy flag, and assembly of streamed responses.

pub mod providers;
pub mod stream;
pub mod messages;
pub mod sse;

use vstd::prelude::*;
use std::sync::Arc;
use std::sync::atomic::{AtomicBool, Ordering};
use crate::text::{chars_of, concat2, concat3, owned, str_eq, string_from_chars};

verus! {

/// The author of a conversation message.
#[derive(Clone, Copy, Debug, PartialEq, Eq, Structural)]
pub enum Role {
    User,
    Assistant,
    System,
    Tool,
}

/// Input and output token counts of one response.
#[derive(Clone, Copy, Debug, PartialEq, Eq, Structural)]
pub struct TokenUsage {
    pub input_tokens: u64,
    pub output_tokens: u64,
}

impl Default for TokenUsage {
    fn default() -> (r: Self)
        ensures
            r.input_tokens == 0 && r.output_tokens == 0,
    {
        TokenUsage { input_tokens: 0, output_tokens: 0 }
    }
}

impl TokenUsage {
    /// Input plus output tokens, saturating at `u64::MAX`.
    pub fn total_tokens(&self) -> (r: u64)
        ensures
            r == (if self.input_tokens + self.output_tokens <= u64::MAX {
                (self.input_tokens + self.output_tokens) as u64
            } else {
                u64::MAX
            }),
    {
        self.input_tokens.saturating_add(self.output_tokens)
    }
}

/// Errors of the AI clients.
#[derive(Clone, Debug)]
pub enum AiError {
    ApiError(String),
    RateLimited,
    NetworkError(String),
    ParseError(String),
    Timeout,
}

/// The display text of an error.
pub open spec fn error_text(e: AiError) -> Seq<char> {
    match e {
        AiError::ApiError(m) => "API error: "@ + m@,
        AiError::RateLimited => "Rate limited"@,
        AiError::NetworkError(m) => "Network error: "@ + m@,
        AiError::ParseError(m) => "Parse error: "@ + m@,
        AiError::Timeout => "Timeout"@,
    }
}

impl AiError {
    /// The error's display text.
    pub fn message(&self) -> (r: String)
        ensures
            r@ == error_text(*self),
    {
        match self {
            AiError::ApiError(m) => concat2("API error: ", m.as_str()),
            AiError::RateLimited => owned("Rate limited"),
            AiError::NetworkError(m) => concat2("Network error: ", m.as_str()),
            AiError::ParseError(m) => concat2("Parse error: ", m.as_str()),
            AiError::Timeout => owned("Timeout"),
        }
    }
}

/// How an HTTP status is handled: success, rate limiting, or failure.
#[derive(Clone, Copy, Debug, PartialEq, Eq, Structural)]
pub enum StatusClass {
    Success,
    RateLimited,
    Failed,
}

/// Classifies an HTTP status code: 429 is rate limiting, 2xx success, any
/// other code a failure.
pub fn classify_status(code: u16) -> (r: StatusClass)
    ensures
        r == (if code == 429 {
            StatusClass::RateLimited
        } else if 200 <= code <= 299 {
            StatusClass::Success
        } else {
            StatusClass::Failed
        }),
{
    if code == 429 {
        StatusClass::RateLimited
    } else if 200 <= code && code <= 299 {
        StatusClass::Success
    } else {
        StatusClass::Failed
    }
}

/// The error for a failed HTTP response: `HTTP <status>: ` and the first 200
/// characters of the body.
pub fn http_failure(status_text: &str, body: &str) -> (r: AiError)
    ensures
        r matches AiError::ApiError(m) && m@ == "HTTP "@ + status_text@ + ": "@ + (if body@.len() <= 200 {
            body@
        } else {
            body@.take(200)
        }),
{
    let cs = chars_of(body);
    let n = if cs.len() <= 200 { cs.len() } else { 200 };
    let head = string_from_chars(&cs, 0, n);
    proof {
        if body@.len() <= 200 {
            assert(cs@.subrange(0, n as int) =~= body@);
        } else {
            assert(cs@.subrange(0, n as int) =~= body@.take(200));
        }
    }
    AiError::ApiError(concat3("HTTP ", status_text, ": ").concat(head.as_str()))
}

/// The error for a session that is already handling a request.
pub open spec fn busy_error_text() -> Seq<char> {
    "Session is busy with another request"@
}

/// A claim on a session's busy flag; `release` clears the flag.
pub struct BusyGuard {
    flag: Arc<AtomicBool>,
}

/// `std::sync::Arc::clone`: another pointer to the same allocation, so the
/// clone denotes the same value.
#[verifier::external_body]
fn arc_clone<T>(a: &Arc<T>) -> (r: Arc<T>)
    ensures
        r == *a,
{
    Arc::clone(a)
}

impl BusyGuard {
    /// The flag this guard holds.
    pub closed spec fn flag_of(&self) -> Arc<AtomicBool> {
        self.flag
    }

    /// The outcome of claiming `flag`, given what the compare-and-swap of the
    /// flag from `false` to `true` returned: a guard on `flag` when it
    /// succeeded, the busy error when the flag was already set.
    pub fn guard_from_exchange(exchanged: Result<bool, bool>, flag: &Arc<AtomicBool>) -> (r: Result<BusyGuard, AiError>)
        ensures
            exchanged is Ok ==> (r matches Ok(g) && g.flag_of() == *flag),
            exchanged is Err ==> (r matches Err(e) && e matches AiError::ApiError(m) && m@ == busy_error_text()),
    {
        match exchanged {
            Ok(_) => Ok(BusyGuard { flag: arc_clone(flag) }),
            Err(_) => Err(AiError::ApiError(owned("Session is busy with another request"))),
        }
    }

    /// Sets the busy flag if it was clear and returns a guard on it; fails
    /// with the busy error while another request holds it. Which of the two
    /// happens depends on the flag's current value, which is shared with
    /// other threads.
    pub fn acquire(flag: &Arc<AtomicBool>) -> (r: Result<BusyGuard, AiError>)
        ensures
            r matches Ok(g) ==> g.flag_of() == *flag,
            r matches Err(e) ==> (e matches AiError::ApiError(m) && m@ == busy_error_text()),
    {
        let swapped = flag.compare_exchange(false, true, Ordering::Acquire, Ordering::Relaxed);
        BusyGuard::guard_from_exchange(swapped, flag)
    }

    /// Clears the busy flag.
    pub fn release(&self) {
        self.flag.store(false, Ordering::Release);
    }
}

/// Which AI provider serves a request.
#[derive(Clone, Copy, Debug, PartialEq, Eq, Hash, Structural)]
pub enum Provider {
    Anthropic,
}

/// A named skill routed to a provider, with an optional system prompt.
#[derive(Clone, Debug)]
pub struct Skill {
    pub name: String,
    pub provider: Provider,
    pub system_prompt: Option<String>,
}

/// The skill table of a router: name to skill.
pub open spec fn skill_table(skills: Seq<Skill>) -> Map<Seq<char>, Skill>
    decreases skills.len(),
{
    if skills.len() == 0 {
        Map::empty()
    } else {
        skill_table(skills.drop_last()).insert(skills.last().name@, skills.last())
    }
}

/// Routes requests to a provider's client by skill name, falling back to a
/// default provider.
pub struct SkillRouter<C> {
    clients: Vec<(Provider, C)>,
    skills: Vec<Skill>,
    default_provider: Provider,
}

impl<C> SkillRouter<C> {
    /// Registered skills, by name.
    pub closed spec fn skill_map(&self) -> Map<Seq<char>, Skill> {
        skill_table(self.skills@)
    }

    /// The client registered for `p`, if any.
    pub closed spec fn client_of(&self, p: Provider) -> Option<C> {
        if self.clients@.len() > 0 {
            Some(self.clients@[0].1)
        } else {
            None
        }
    }

    /// Registered skills, in registration order.
    pub closed spec fn skill_list(&self) -> Seq<Skill> {
        self.skills@
    }

    pub closed spec fn default_of(&self) -> Provider {
        self.default_provider
    }

    /// Skill names are distinct and at most one client is registered per
    /// provider.
    pub closed spec fn wf(&self) -> bool {
        &&& self.clients@.len() <= 1
        &&& forall|i: int, j: int|
            0 <= i < j < self.skills@.len() ==> self.skills@[i].name@ != self.skills@[j].name@
    }

    /// A router with no clients or skills, defaulting to Anthropic.
    pub fn new() -> (r: Self)
        ensures
            r.wf(),
            r.skill_map() == Map::<Seq<char>, Skill>::empty(),
            r.client_of(Provider::Anthropic) is None,
            r.default_of() == Provider::Anthropic,
    {
        SkillRouter { clients: Vec::new(), skills: Vec::new(), default_provider: Provider::Anthropic }
    }

    /// Registers (or replaces) the client for `provider`.
    pub fn register_client(&mut self, provider: Provider, client: C)
        requires
            old(self).wf(),
        ensures
            final(self).wf(),
            final(self).client_of(provider) == Some(client),
            final(self).skill_map() == old(self).skill_map(),
            final(self).default_of() == old(self).default_of(),
    {
        if self.clients.len() > 0 {
            self.clients.set(0, (provider, client));
        } else {
            self.clients.push((provider, client));
        }
    }

    /// Registers (or replaces) a skill under its name.
    pub fn register_skill(&mut self, skill: Skill)
        requires
            old(self).wf(),
        ensures
            final(self).wf(),
            final(self).skill_map() == old(self).skill_map().insert(skill.name@, skill),
            forall|p: Provider| final(self).client_of(p) == old(self).client_of(p),
            final(self).default_of() == old(self).default_of(),
    {
        let n = self.skills.len();
        let mut i: usize = 0;
        while i < n
            invariant
                n == self.skills@.len(),
                0 <= i <= n,
                self.wf(),
                *self == *old(self),
                forall|j: int| 0 <= j < i ==> self.skills@[j].name@ != skill.name@,
            decreases n - i,
        {
            if str_eq(self.skills[i].name.as_str(), skill.name.as_str()) {
                let ghost before = self.skills@;
                proof {
                    lemma_table_update(before, i as int, skill);
                }
                self.skills.set(i, skill);
                assert(self.skills@ =~= before.update(i as int, skill));
                return;
            }
            i += 1;
        }
        let ghost before = self.skills@;
        self.skills.push(skill);
        assert(self.skills@.drop_last() =~= before);
        assert(forall|j: int| 0 <= j < before.len() ==> self.skills@[j] == before[j]);
    }

    /// Sets the provider used for unknown skills.
    pub fn set_default_provider(&mut self, provider: Provider)
        ensures
            final(self).default_of() == provider,
            final(self).skill_map() == old(self).skill_map(),
            forall|p: Provider| final(self).client_of(p) == old(self).client_of(p),
            old(self).wf() ==> final(self).wf(),
    {
        self.default_provider = provider;
    }

    /// The provider a skill is routed to: its own, or the default.
    pub fn provider_for(&self, skill_name: &str) -> (r: Provider)
        requires
            self.wf(),
        ensures
            r == (if self.skill_map().contains_key(skill_name@) {
                self.skill_map()[skill_name@].provider
            } else {
                self.default_of()
            }),
    {
        let n = self.skills.len();
        let mut i: usize = 0;
        while i < n
            invariant
                n == self.skills@.len(),
                0 <= i <= n,
                self.wf(),
                forall|j: int| 0 <= j < i ==> self.skills@[j].name@ != skill_name@,
            decreases n - i,
        {
            if str_eq(self.skills[i].name.as_str(), skill_name) {
                proof {
                    lemma_table_at(self.skills@, i as int);
                }
                return self.skills[i].provider;
            }
            i += 1;
        }
        proof {
            lemma_table_absent(self.skills@, skill_name@);
        }
        self.default_provider
    }

    /// The client registered for `provider`.
    pub fn client(&self, provider: Provider) -> (r: Option<&C>)
        ensures
            r matches Some(c) ==> self.client_of(provider) == Some(*c),
            r is None ==> self.client_of(provider) is None,
    {
        if self.clients.len() > 0 {
            Some(&self.clients[0].1)
        } else {
            None
        }
    }

    /// The client a skill's request goes to, or the error for a provider
    /// without a client.
    pub fn select_client(&self, skill_name: &str) -> (r: Result<&C, AiError>)
        requires
            self.wf(),
        ensures
            ({
                let p = if self.skill_map().contains_key(skill_name@) {
                    self.skill_map()[skill_name@].provider
                } else {
                    self.default_of()
                };
                match r {
                    Ok(c) => self.client_of(p) == Some(*c),
                    Err(e) => self.client_of(p) is None && (e matches AiError::ApiError(m) && m@
                        == "No client registered for provider Anthropic"@),
                }
            }),
    {
        let p = self.provider_for(skill_name);
        match self.client(p) {
            Some(c) => Ok(c),
            None => Err(AiError::ApiError(owned("No client registered for provider Anthropic"))),
        }
    }

    /// The registered skills, in registration order.
    pub fn skills(&self) -> (r: Vec<&Skill>)
        ensures
            r@.len() == self.skill_list().len(),
            forall|i: int| 0 <= i < r@.len() ==> *r@[i] == self.skill_list()[i],
    {
        let mut out: Vec<&Skill> = Vec::new();
        let n = self.skills.len();
        let mut i: usize = 0;
        while i < n
            invariant
                n == self.skills@.len(),
                0 <= i <= n,
                out@.len() == i,
                forall|j: int| 0 <= j < i ==> *out@[j] == self.skills@[j],
            decreases n - i,
        {
            out.push(&self.skills[i]);
            i += 1;
        }
        out
    }
}

proof fn lemma_table_absent(s: Seq<Skill>, name: Seq<char>)
    requires
        forall|j: int| 0 <= j < s.len() ==> s[j].name@ != name,
    ensures
        !skill_table(s).contains_key(name),
    decreases s.len(),
{
    if s.len() > 0 {
        lemma_table_absent(s.drop_last(), name);
    }
}

proof fn lemma_table_at(s: Seq<Skill>, i: int)
    requires
        0 <= i < s.len(),
        forall|a: int, b: int| 0 <= a < b < s.len() ==> s[a].name@ != s[b].name@,
    ensures
        skill_table(s).contains_key(s[i].name@),
        skill_table(s)[s[i].name@] == s[i],
    decreases s.len(),
{
    if i < s.len() - 1 {
        lemma_table_at(s.drop_last(), i);
    }
}

proof fn lemma_table_update(s: Seq<Skill>, i: int, x: Skill)
    requires
        0 <= i < s.len(),
        s[i].name@ == x.name@,
        forall|a: int, b: int| 0 <= a < b < s.len() ==> s[a].name@ != s[b].name@,
    ensures
        skill_table(s.update(i, x)) == skill_table(s).insert(x.name@, x),
    decreases s.len(),
{
    if i == s.len() - 1 {
        assert(s.update(i, x).drop_last() =~= s.drop_last());
        lemma_table_at(s, i);
        assert(skill_table(s.drop_last()).insert(x.name@, x) =~= skill_table(s).insert(x.name@, x));
    } else {
        lemma_table_update(s.drop_last(), i, x);
        assert(s.update(i, x).drop_last() =~= s.drop_last().update(i, x));
        assert(s.update(i, x).last() == s.last());
        assert(s.last().name@ != x.name@);
        assert(skill_table(s.update(i, x)) =~= skill_table(s).insert(x.name@, x));
    }
}

} // verus!
