//! Sandbox that restricts tool operations to one directory and validates
//! commands against an allowlist.

use vstd::prelude::*;
use crate::text::{chars_of, concat3, concat5, str_eq, contains_char, string_from_chars};
use super::path::{components, components_of, comps_start_with, comps_start_with_exec, join_path_exec, normalize, normalize_comps, cur_comp, is_absolute, join_path, parent_comp, path_starts_with, render, render_comps, root_comp, views};
use super::path::{law_prefix_matches_every_component, is_segment_kept, lemma_normalize_keeps_head, lemma_segments_concat, scan, segments, starts_with_cur_dir};

verus! {

/// Whether a single path component is one of the sensitive names that must
/// never be touched (`.ssh`, `.aws`, `.gnupg`, `.env`, `.git`). The match is
/// exact, never a substring.
pub open spec fn is_blocked_name(c: Seq<char>) -> bool {
    c == ".ssh"@ || c == ".aws"@ || c == ".gnupg"@ || c == ".env"@ || c == ".git"@
}

/// The first blocked component of a component list, if any.
pub open spec fn first_blocked(cs: Seq<Seq<char>>) -> Option<Seq<char>>
    decreases cs.len(),
{
    if cs.len() == 0 {
        None
    } else if is_blocked_name(cs[0]) {
        Some(cs[0])
    } else {
        first_blocked(cs.drop_first())
    }
}

/// Program names that may be run inside the sandbox.
pub open spec fn is_allowed_command(w: Seq<char>) -> bool {
    w == "ls"@ || w == "cat"@ || w == "head"@ || w == "tail"@ || w == "wc"@ || w == "find"@
        || w == "grep"@ || w == "rg"@ || w == "git"@ || w == "cargo"@ || w == "rustc"@
        || w == "node"@ || w == "python3"@ || w == "echo"@ || w == "mkdir"@ || w == "cp"@
        || w == "mv"@ || w == "rm"@ || w == "touch"@
}

/// `char::is_whitespace` (the Unicode `White_Space` property).
pub open spec fn is_white_space(c: char) -> bool {
    c == '\t' || c == '\n' || c == '\u{0B}' || c == '\u{0C}' || c == '\r' || c == ' '
        || c == '\u{85}' || c == '\u{A0}' || c == '\u{1680}'
        || ('\u{2000}' <= c && c <= '\u{200A}') || c == '\u{2028}' || c == '\u{2029}'
        || c == '\u{202F}' || c == '\u{205F}' || c == '\u{3000}'
}

pub fn is_white_space_exec(c: char) -> (r: bool)
    ensures
        r == is_white_space(c),
{
    c == '\t' || c == '\n' || c == '\u{0B}' || c == '\u{0C}' || c == '\r' || c == ' '
        || c == '\u{85}' || c == '\u{A0}' || c == '\u{1680}'
        || ('\u{2000}' <= c && c <= '\u{200A}') || c == '\u{2028}' || c == '\u{2029}'
        || c == '\u{202F}' || c == '\u{205F}' || c == '\u{3000}'
}

/// `s` without its leading white space.
pub open spec fn skip_white(s: Seq<char>) -> Seq<char>
    decreases s.len(),
{
    if s.len() > 0 && is_white_space(s[0]) {
        skip_white(s.drop_first())
    } else {
        s
    }
}

/// The longest prefix of `s` free of white space.
pub open spec fn take_word(s: Seq<char>) -> Seq<char>
    decreases s.len(),
{
    if s.len() == 0 || is_white_space(s[0]) {
        seq![]
    } else {
        seq![s[0]] + take_word(s.drop_first())
    }
}

/// The first white-space-separated word of `s` (empty when there is none),
/// as `s.split_whitespace().next().unwrap_or("")` gives it.
pub open spec fn first_word(s: Seq<char>) -> Seq<char> {
    take_word(skip_white(s))
}

proof fn lemma_take_word_prefix(s: Seq<char>, i: int)
    requires
        0 <= i <= s.len(),
        forall|j: int| 0 <= j < i ==> !is_white_space(s[j]),
        i == s.len() || is_white_space(s[i]),
    ensures
        take_word(s) == s.take(i),
    decreases s.len(),
{
    if s.len() == 0 || is_white_space(s[0]) {
        assert(i == 0);
        assert(s.take(i) =~= Seq::<char>::empty());
    } else {
        lemma_take_word_prefix(s.drop_first(), i - 1);
        assert(seq![s[0]] + s.drop_first().take(i - 1) =~= s.take(i));
    }
}

pub proof fn lemma_skip_white(s: Seq<char>, i: int)
    requires
        0 <= i <= s.len(),
        forall|j: int| 0 <= j < i ==> is_white_space(s[j]),
        i == s.len() || !is_white_space(s[i]),
    ensures
        skip_white(s) == s.skip(i),
    decreases s.len(),
{
    if s.len() > 0 && is_white_space(s[0]) {
        lemma_skip_white(s.drop_first(), i - 1);
        assert(s.drop_first().skip(i - 1) =~= s.skip(i));
    } else {
        assert(i == 0);
        assert(s.skip(0) =~= s);
    }
}

/// The first white-space-separated word of `s`.
pub fn first_word_of(s: &str) -> (r: String)
    ensures
        r@ == first_word(s@),
{
    let cs = chars_of(s);
    let mut i: usize = 0;
    while i < cs.len() && is_white_space_exec(cs[i])
        invariant
            cs@ == s@,
            0 <= i <= cs@.len(),
            forall|j: int| 0 <= j < i ==> is_white_space(cs@[j]),
        decreases cs@.len() - i,
    {
        i += 1;
    }
    proof { lemma_skip_white(s@, i as int); }
    let mut k = i;
    while k < cs.len() && !is_white_space_exec(cs[k])
        invariant
            cs@ == s@,
            i <= k <= cs@.len(),
            forall|j: int| i <= j < k ==> !is_white_space(cs@[j]),
        decreases cs@.len() - k,
    {
        k += 1;
    }
    proof {
        let t = s@.skip(i as int);
        assert forall|j: int| 0 <= j < k - i implies !is_white_space(t[j]) by {
            assert(t[j] == cs@[i + j]);
        }
        lemma_take_word_prefix(t, k - i);
        assert(t.take(k - i) =~= cs@.subrange(i as int, k as int));
    }
    string_from_chars(&cs, i, k)
}

/// The blocked name matching a single component, if any.
fn blocked_name_of(c: &str) -> (r: Option<&'static str>)
    ensures
        r is None <==> !is_blocked_name(c@),
        r matches Some(s) ==> s@ == c@,
{
    if str_eq(c, ".ssh") {
        Some(".ssh")
    } else if str_eq(c, ".aws") {
        Some(".aws")
    } else if str_eq(c, ".gnupg") {
        Some(".gnupg")
    } else if str_eq(c, ".env") {
        Some(".env")
    } else if str_eq(c, ".git") {
        Some(".git")
    } else {
        None
    }
}

/// The first component list entry that is a blocked name.
pub fn first_blocked_exec(cs: &Vec<String>) -> (r: Option<&'static str>)
    ensures
        r is None <==> first_blocked(views(cs@)) is None,
        r matches Some(s) ==> first_blocked(views(cs@)) == Some(s@),
{
    let mut i: usize = 0;
    assert(views(cs@).skip(0) =~= views(cs@));
    while i < cs.len()
        invariant
            0 <= i <= cs@.len(),
            first_blocked(views(cs@)) == first_blocked(views(cs@).skip(i as int)),
        decreases cs@.len() - i,
    {
        assert(views(cs@).skip(i as int)[0] == cs@[i as int]@);
        assert(views(cs@).skip(i as int).drop_first() =~= views(cs@).skip(i + 1));
        match blocked_name_of(cs[i].as_str()) {
            Some(seg) => {
                return Some(seg);
            },
            None => {},
        }
        i += 1;
    }
    assert(views(cs@).skip(i as int) =~= Seq::<Seq<char>>::empty());
    None
}

/// Lexical normalisation of a path, without touching the filesystem: `.` is
/// dropped, `..` removes the previous component, a `..` that would pop above
/// the root is dropped, and a leading `..` of a relative path is kept literally
/// so that such an escape still fails a prefix check against the root.
pub fn lexically_normalize(path: &str) -> (r: String)
    ensures
        r@ == render(normalize(components(path@))),
{
    let cs = components_of(path);
    let n = normalize_comps(&cs);
    render_comps(&n)
}

/// Return the blocked segment that appears as a whole component of `path`, if
/// any. Matching is on complete components, so `release.env.example` or
/// `my.git.notes` do not match while `.env` or `.../.ssh/...` do.
pub fn path_has_blocked_segment(path: &str) -> (r: Option<&'static str>)
    ensures
        r is None <==> first_blocked(components(path@)) is None,
        r matches Some(s) ==> first_blocked(components(path@)) == Some(s@),
{
    let cs = components_of(path);
    first_blocked_exec(&cs)
}

/// `Path::parent` of a component list: every component but the last, unless
/// the list is empty or ends at the root.
pub open spec fn parent_comps(cs: Seq<Seq<char>>) -> Option<Seq<Seq<char>>> {
    if cs.len() > 0 && cs.last() != root_comp() {
        Some(cs.drop_last())
    } else {
        None
    }
}

/// `Path::parent`, rendered back to text.
pub open spec fn parent_path(p: Seq<char>) -> Option<Seq<char>> {
    match parent_comps(components(p)) {
        Some(cs) => Some(render(cs)),
        None => None,
    }
}

/// `Path::file_name`: the final component when it is an ordinary name.
pub open spec fn file_name(p: Seq<char>) -> Option<Seq<char>> {
    let cs = components(p);
    if cs.len() > 0 && cs.last() != root_comp() && cs.last() != cur_comp()
        && cs.last() != parent_comp() {
        Some(cs.last())
    } else {
        None
    }
}

/// `Path::parent` of `p`.
pub fn parent_of(p: &str) -> (r: Option<String>)
    ensures
        r is None <==> parent_path(p@) is None,
        r matches Some(s) ==> parent_path(p@) == Some(s@),
{
    proof { reveal_strlit("/"); assert("/"@ =~= root_comp()); }
    let mut cs = components_of(p);
    let n = cs.len();
    if n > 0 && !str_eq(cs[n - 1].as_str(), "/") {
        let ghost all = views(cs@);
        cs.pop();
        assert(views(cs@) =~= all.drop_last());
        Some(render_comps(&cs))
    } else {
        None
    }
}

/// `Path::file_name` of `p`.
pub fn file_name_of(p: &str) -> (r: Option<String>)
    ensures
        r is None <==> file_name(p@) is None,
        r matches Some(s) ==> file_name(p@) == Some(s@),
{
    proof {
        reveal_strlit("/");
        reveal_strlit(".");
        reveal_strlit("..");
        assert("/"@ =~= root_comp());
        assert("."@ =~= cur_comp());
        assert(".."@ =~= parent_comp());
    }
    let cs = components_of(p);
    let n = cs.len();
    if n > 0 && !str_eq(cs[n - 1].as_str(), "/") && !str_eq(cs[n - 1].as_str(), ".")
        && !str_eq(cs[n - 1].as_str(), "..") {
        Some(cs[n - 1].clone())
    } else {
        None
    }
}

/// What follows the first `/` or `\\` of `s` (empty when there is none).
pub open spec fn after_first_sep(s: Seq<char>) -> Seq<char>
    decreases s.len(),
{
    if s.len() == 0 {
        seq![]
    } else if s[0] == '/' || s[0] == '\\' {
        s.drop_first()
    } else {
        after_first_sep(s.drop_first())
    }
}

/// `raw` after a leading `~` and the `~user` part up to the first separator:
/// `None` when `raw` does not start with `~`.
pub open spec fn tilde_rest(raw: Seq<char>) -> Option<Seq<char>> {
    if raw.len() > 0 && raw[0] == '~' {
        Some(after_first_sep(raw.drop_first()))
    } else {
        None
    }
}

proof fn lemma_after_first_sep(s: Seq<char>, k: int)
    requires
        0 <= k <= s.len(),
        forall|j: int| 0 <= j < k ==> s[j] != '/' && s[j] != '\\',
    ensures
        k < s.len() && (s[k] == '/' || s[k] == '\\') ==> after_first_sep(s) == s.skip(k + 1),
        k == s.len() ==> after_first_sep(s) == Seq::<char>::empty(),
    decreases k,
{
    if k > 0 {
        lemma_after_first_sep(s.drop_first(), k - 1);
        if k < s.len() {
            assert(s.drop_first().skip(k) =~= s.skip(k + 1));
        }
    } else {
        if s.len() > 0 {
            assert(s.drop_first() =~= s.skip(1));
        }
    }
}

pub fn strip_tilde(raw: &str) -> (r: Option<String>)
    ensures
        r is None <==> tilde_rest(raw@) is None,
        r matches Some(s) ==> tilde_rest(raw@) == Some(s@),
{
    let cs = chars_of(raw);
    if cs.len() == 0 || cs[0] != '~' {
        return None;
    }
    let ghost rest = raw@.drop_first();
    let mut i: usize = 1;
    while i < cs.len()
        invariant
            cs@ == raw@,
            rest == raw@.drop_first(),
            raw@.len() > 0 && raw@[0] == '~',
            1 <= i <= cs@.len(),
            forall|j: int| 0 <= j < i - 1 ==> rest[j] != '/' && rest[j] != '\\',
        decreases cs@.len() - i,
    {
        if cs[i] == '/' || cs[i] == '\\' {
            proof {
                let k = (i - 1) as int;
                assert(rest[k] == cs@[i as int]);
                lemma_after_first_sep(rest, k);
                assert(rest.skip(k + 1) =~= cs@.subrange(i + 1, cs@.len() as int));
            }
            let n = cs.len();
            return Some(string_from_chars(&cs, i + 1, n));
        }
        i += 1;
    }
    proof { lemma_after_first_sep(rest, rest.len() as int); }
    let r = String::new();
    Some(r)
}

/// Where a path argument points before normalisation: `~...` is sent to a
/// fixed location outside any sandbox, a relative argument is taken from the
/// sandbox root, an absolute one stands as written.
pub open spec fn expand_arg(root: Seq<char>, raw: Seq<char>) -> Seq<char> {
    match tilde_rest(raw) {
        Some(rest) => if rest.len() == 0 {
            "/__home__"@
        } else {
            join_path("/__home__"@, rest)
        },
        None => if is_absolute(raw) {
            raw
        } else {
            join_path(root, raw)
        },
    }
}

/// Sandbox that restricts tool operations to a directory subtree and
/// validates commands against an allowlist.
pub struct ToolSandbox {
    sandbox_dir: String,
}

impl ToolSandbox {
    /// The sandbox root as text.
    pub closed spec fn root_path(&self) -> Seq<char> {
        self.sandbox_dir@
    }

    /// Message for a resolved path outside the root.
    pub open spec fn outside_msg(&self, p: Seq<char>) -> Seq<char> {
        "Access denied: path '"@ + p + "' is outside sandbox '"@ + self.root_path() + "'"@
    }

    /// Message for a resolved path that names a blocked segment.
    pub open spec fn blocked_msg(p: Seq<char>, seg: Seq<char>) -> Seq<char> {
        "Access denied: path '"@ + p + "' contains blocked segment '"@ + seg + "'"@
    }

    /// The outcome of jailing an already-resolved (canonical) path.
    pub open spec fn check_resolved_spec(&self, p: Seq<char>) -> Result<Seq<char>, Seq<char>> {
        if !path_starts_with(p, self.root_path()) {
            Err(self.outside_msg(p))
        } else if first_blocked(components(p)) is Some {
            Err(Self::blocked_msg(p, first_blocked(components(p))->0))
        } else {
            Ok(p)
        }
    }

    /// Create a sandbox rooted at `sandbox_dir` (a canonical absolute path).
    pub fn new(sandbox_dir: String) -> (r: Self)
        ensures
            r.root_path() == sandbox_dir@,
    {
        ToolSandbox { sandbox_dir }
    }

    /// The sandbox root.
    pub fn root(&self) -> (r: &str)
        ensures
            r@ == self.root_path(),
    {
        self.sandbox_dir.as_str()
    }

    /// Jail an already-resolved path: it must lie inside the root and must not
    /// name a blocked segment. Returns the path itself on success.
    pub fn check_resolved(&self, canonical: &str) -> (r: Result<String, String>)
        ensures
            match (r, self.check_resolved_spec(canonical@)) {
                (Ok(a), Ok(b)) => a@ == b,
                (Err(a), Err(b)) => a@ == b,
                _ => false,
            },
    {
        let pc = components_of(canonical);
        let rc = components_of(self.sandbox_dir.as_str());
        if !comps_start_with_exec(&pc, &rc) {
            let mut m = concat5("Access denied: path '", canonical, "' is outside sandbox '",
                self.sandbox_dir.as_str(), "'");
            return Err(m);
        }
        match first_blocked_exec(&pc) {
            Some(seg) => Err(concat5("Access denied: path '", canonical,
                "' contains blocked segment '", seg, "'")),
            None => Ok(canonical.to_owned()),
        }
    }

    /// Outcome of [`Self::validate_command`].
    pub open spec fn validate_command_spec(cmd: Seq<char>) -> Result<(), Seq<char>> {
        let w = first_word(cmd);
        if w.contains('/') || w.contains('\\') {
            Err("Command not allowed: '"@ + w + "' must be a bare program name"@)
        } else if is_allowed_command(w) {
            Ok(())
        } else {
            Err("Command not allowed: "@ + w)
        }
    }

    /// Validate that the first word of `cmd` is a bare program name on the
    /// command allowlist.
    pub fn validate_command(&self, cmd: &str) -> (r: Result<(), String>)
        ensures
            match (r, Self::validate_command_spec(cmd@)) {
                (Ok(_), Ok(_)) => true,
                (Err(a), Err(b)) => a@ == b,
                _ => false,
            },
    {
        let w = first_word_of(cmd);
        if contains_char(w.as_str(), '/') || contains_char(w.as_str(), '\\') {
            return Err(concat3("Command not allowed: '", w.as_str(), "' must be a bare program name"));
        }
        if is_allowed_command_exec(w.as_str()) {
            Ok(())
        } else {
            Err(crate::text::concat2("Command not allowed: ", w.as_str()))
        }
    }

    /// The lexically normalised components a path argument names.
    pub open spec fn arg_lexical(&self, raw: Seq<char>) -> Seq<Seq<char>> {
        normalize(components(expand_arg(self.root_path(), raw)))
    }

    pub open spec fn arg_outside_msg(raw: Seq<char>) -> Seq<char> {
        "Access denied: command path argument '"@ + raw + "' resolves outside the sandbox"@
    }

    pub open spec fn arg_blocked_msg(raw: Seq<char>, seg: Seq<char>) -> Seq<char> {
        "Access denied: command path argument '"@ + raw + "' contains blocked segment '"@ + seg
            + "'"@
    }

    pub open spec fn arg_symlink_msg(raw: Seq<char>) -> Seq<char> {
        "Access denied: command path argument '"@ + raw + "' escapes the sandbox via a symlink"@
    }

    /// The textual (filesystem-free) part of jailing a command argument.
    pub open spec fn arg_lexical_check(&self, raw: Seq<char>) -> Result<(), Seq<char>> {
        let lex = self.arg_lexical(raw);
        if !comps_start_with(lex, components(self.root_path())) {
            Err(Self::arg_outside_msg(raw))
        } else if first_blocked(lex) is Some {
            Err(Self::arg_blocked_msg(raw, first_blocked(lex)->0))
        } else {
            Ok(())
        }
    }

    /// The condition on the resolved form of the deepest existing
    /// ancestor of the argument.
    pub open spec fn arg_resolved_check(&self, raw: Seq<char>, canon: Seq<char>) -> Result<(), Seq<char>> {
        if !path_starts_with(canon, self.root_path()) {
            Err(Self::arg_symlink_msg(raw))
        } else if first_blocked(components(canon)) is Some {
            Err(Self::arg_blocked_msg(raw, first_blocked(components(canon))->0))
        } else {
            Ok(())
        }
    }

    /// Outcome of [`Self::validate_arg_path`].
    pub open spec fn validate_arg_path_spec(&self, raw: Seq<char>, resolved: Option<Seq<char>>) -> Result<(), Seq<char>> {
        match self.arg_lexical_check(raw) {
            Err(e) => Err(e),
            Ok(_) => match resolved {
                Some(c) => self.arg_resolved_check(raw, c),
                None => Ok(()),
            },
        }
    }

    /// The ancestors of the normalised argument that may be resolved on disk,
    /// deepest first (the path itself, then each parent up to the root).
    pub open spec fn arg_probe_paths(&self, raw: Seq<char>) -> Seq<Seq<char>> {
        let lex = self.arg_lexical(raw);
        let stop: int = if lex.len() > 0 && lex[0] == root_comp() { 1 } else { 0 };
        Seq::new((lex.len() - stop + 1) as nat, |k: int| render(lex.take(lex.len() - k)))
    }

    fn arg_lexical_exec(&self, raw: &str) -> (r: Vec<String>)
        ensures
            views(r@) == self.arg_lexical(raw@),
    {
        let expanded = match strip_tilde(raw) {
            Some(rest) => {
                if rest.as_str().is_empty() {
                    crate::text::owned("/__home__")
                } else {
                    join_path_exec("/__home__", rest.as_str())
                }
            },
            None => {
                let rc = chars_of(raw);
                if rc.len() > 0 && rc[0] == '/' {
                    raw.to_owned()
                } else {
                    join_path_exec(self.sandbox_dir.as_str(), raw)
                }
            },
        };
        let comps = components_of(expanded.as_str());
        normalize_comps(&comps)
    }

    /// Jail a path-like command argument without consulting the filesystem:
    /// the normalised argument must lie inside the root and must not name a
    /// blocked segment. On success, the ancestors to resolve on disk.
    pub fn arg_path_probes(&self, raw: &str) -> (r: Result<Vec<String>, String>)
        ensures
            match (r, self.arg_lexical_check(raw@)) {
                (Ok(v), Ok(_)) => views(v@) == self.arg_probe_paths(raw@),
                (Err(a), Err(b)) => a@ == b,
                _ => false,
            },
    {
        let lex = self.arg_lexical_exec(raw);
        let rc = components_of(self.sandbox_dir.as_str());
        if !comps_start_with_exec(&lex, &rc) {
            return Err(concat3("Access denied: command path argument '", raw,
                "' resolves outside the sandbox"));
        }
        match first_blocked_exec(&lex) {
            Some(seg) => {
                return Err(concat5("Access denied: command path argument '", raw,
                    "' contains blocked segment '", seg, "'"));
            },
            None => {},
        }
        proof { reveal_strlit("/"); assert("/"@ =~= root_comp()); }
        let stop: usize = if lex.len() > 0 && str_eq(lex[0].as_str(), "/") { 1 } else { 0 };
        let ghost want = self.arg_probe_paths(raw@);
        let mut probes: Vec<String> = Vec::new();
        let mut prefix = lex.clone();
        let n = lex.len();
        let mut k: usize = 0;
        loop
            invariant
                views(lex@) == self.arg_lexical(raw@),
                comps_start_with(views(lex@), components(self.root_path())),
                first_blocked(views(lex@)) is None,
                want == self.arg_probe_paths(raw@),
                n == lex@.len(),
                stop <= n,
                stop == (if views(lex@).len() > 0 && views(lex@)[0] == root_comp() { 1int } else { 0int }),
                0 <= k <= n - stop,
                views(prefix@) == views(lex@).take(n - k),
                views(probes@) == want.take(k as int),
            decreases n - stop - k,
        {
            let r = render_comps(&prefix);
            let ghost before = views(probes@);
            probes.push(r);
            assert(views(probes@) =~= want.take(k + 1)) by {
                assert(views(probes@) =~= before.push(r@));
            }
            if k == n - stop {
                assert(views(probes@) =~= want);
                return Ok(probes);
            }
            let ghost pre = views(prefix@);
            prefix.pop();
            assert(views(prefix@) =~= pre.drop_last());
            k += 1;
            assert(views(lex@).take(n - k) =~= views(lex@).take(n - k + 1).drop_last());
        }
    }

    /// Jail a path-like command argument: it must stay inside the sandbox
    /// after lexical normalisation and must not name a blocked segment; when
    /// `resolved` holds the resolved form of its deepest existing ancestor
    /// (see [`Self::arg_path_probes`]), that form must be inside the sandbox
    /// and free of blocked segments too.
    pub fn validate_arg_path(&self, raw: &str, resolved: Option<String>) -> (r: Result<(), String>)
        ensures
            match (r, self.validate_arg_path_spec(raw@, match resolved { Some(c) => Some(c@), None => None })) {
                (Ok(_), Ok(_)) => true,
                (Err(a), Err(b)) => a@ == b,
                _ => false,
            },
    {
        match self.arg_path_probes(raw) {
            Err(e) => Err(e),
            Ok(_) => match resolved {
                None => Ok(()),
                Some(canon) => {
                    let pc = components_of(canon.as_str());
                    let rc = components_of(self.sandbox_dir.as_str());
                    if !comps_start_with_exec(&pc, &rc) {
                        return Err(concat3("Access denied: command path argument '", raw,
                            "' escapes the sandbox via a symlink"));
                    }
                    match first_blocked_exec(&pc) {
                        Some(seg) => Err(concat5("Access denied: command path argument '", raw,
                            "' contains blocked segment '", seg, "'")),
                        None => Ok(()),
                    }
                },
            },
        }
    }

    pub open spec fn parent_unresolvable_msg() -> Seq<char> {
        "Access denied: cannot resolve parent directory"@
    }

    pub open spec fn no_file_name_msg() -> Seq<char> {
        "Access denied: path has no file name"@
    }

    pub open spec fn parent_error_msg(parent: Seq<char>, err: Seq<char>) -> Seq<char> {
        "Access denied: cannot resolve path '"@ + parent + "': "@ + err
    }

    /// Outcome of [`Self::validate_path_resolved`]. `canonical` is the
    /// resolved form of `path` when it exists; otherwise `parent_resolution`
    /// is the resolution of `path`'s parent (its resolved form, or the
    /// resolver's error text).
    pub open spec fn validate_path_spec(
        &self,
        path: Seq<char>,
        canonical: Option<Seq<char>>,
        parent_resolution: Option<Result<Seq<char>, Seq<char>>>,
    ) -> Result<Seq<char>, Seq<char>> {
        match canonical {
            Some(c) => self.check_resolved_spec(c),
            None => match parent_path(path) {
                None => Err(Self::parent_unresolvable_msg()),
                Some(parent) => match parent_resolution {
                    Some(Err(e)) => Err(Self::parent_error_msg(parent, e)),
                    Some(Ok(cp)) => match file_name(path) {
                        None => Err(Self::no_file_name_msg()),
                        Some(name) => self.check_resolved_spec(join_path(cp, name)),
                    },
                    None => Err(Self::parent_unresolvable_msg()),
                },
            },
        }
    }

    /// Validate that `path` resolves inside the sandbox and names no blocked
    /// segment, given how the filesystem resolved it: `canonical` is the
    /// canonical form of `path` when it exists; when it does not, the parent
    /// directory (see [`parent_of`]) is resolved instead and the file name
    /// re-attached, so a file that is about to be created can be checked.
    /// Returns the resolved path on success.
    pub fn validate_path_resolved(
        &self,
        path: &str,
        canonical: Option<String>,
        parent_resolution: Option<Result<String, String>>,
    ) -> (r: Result<String, String>)
        ensures
            match (r, self.validate_path_spec(path@,
                match canonical { Some(c) => Some(c@), None => None },
                match parent_resolution {
                    Some(Ok(c)) => Some(Ok(c@)),
                    Some(Err(e)) => Some(Err(e@)),
                    None => None,
                })) {
                (Ok(a), Ok(b)) => a@ == b,
                (Err(a), Err(b)) => a@ == b,
                _ => false,
            },
    {
        match canonical {
            Some(c) => self.check_resolved(c.as_str()),
            None => {
                let parent = match parent_of(path) {
                    None => return Err(crate::text::owned("Access denied: cannot resolve parent directory")),
                    Some(p) => p,
                };
                match parent_resolution {
                    None => Err(crate::text::owned("Access denied: cannot resolve parent directory")),
                    Some(Err(e)) => {
                        let mut m = concat3("Access denied: cannot resolve path '", parent.as_str(), "': ");
                        m.append(e.as_str());
                        Err(m)
                    },
                    Some(Ok(cp)) => match file_name_of(path) {
                        None => Err(crate::text::owned("Access denied: path has no file name")),
                        Some(name) => {
                            let joined = join_path_exec(cp.as_str(), name.as_str());
                            self.check_resolved(joined.as_str())
                        },
                    },
                }
            },
        }
    }
}

/// Whether `w` is on the command allowlist.
pub fn is_allowed_command_exec(w: &str) -> (r: bool)
    ensures
        r == is_allowed_command(w@),
{
    str_eq(w, "ls") || str_eq(w, "cat") || str_eq(w, "head") || str_eq(w, "tail")
        || str_eq(w, "wc") || str_eq(w, "find") || str_eq(w, "grep") || str_eq(w, "rg")
        || str_eq(w, "git") || str_eq(w, "cargo") || str_eq(w, "rustc") || str_eq(w, "node")
        || str_eq(w, "python3") || str_eq(w, "echo") || str_eq(w, "mkdir") || str_eq(w, "cp")
        || str_eq(w, "mv") || str_eq(w, "rm") || str_eq(w, "touch")
}


/// The jail: however a path resolved on disk, the sandbox accepts only a
/// location inside its root that names no blocked segment; for an existing
/// path, that location is the path's own resolved form.
pub proof fn law_jailed_paths_stay_inside(
    sb: ToolSandbox,
    path: Seq<char>,
    canonical: Option<Seq<char>>,
    parent_resolution: Option<Result<Seq<char>, Seq<char>>>,
)
    ensures
        sb.validate_path_spec(path, canonical, parent_resolution) matches Ok(p) ==> {
            &&& path_starts_with(p, sb.root_path())
            &&& first_blocked(components(p)) is None
            &&& (canonical matches Some(c) ==> p == c)
        },
{
}

/// Command arguments: an accepted path-like argument names, after lexical
/// normalisation, a location inside the root free of blocked segments, and
/// so does the resolved form of its deepest existing ancestor.
pub proof fn law_accepted_arguments_stay_inside(sb: ToolSandbox, raw: Seq<char>, resolved: Option<Seq<char>>)
    ensures
        sb.validate_arg_path_spec(raw, resolved) is Ok ==> {
            &&& comps_start_with(sb.arg_lexical(raw), components(sb.root_path()))
            &&& first_blocked(sb.arg_lexical(raw)) is None
            &&& (resolved matches Some(c) ==> path_starts_with(c, sb.root_path()) && first_blocked(components(c)) is None)
        },
{
}

/// The marker directory a home reference is expanded under.
pub open spec fn home_marker() -> Seq<char> {
    "/__home__"@
}

/// The components of a home reference's expansion: `/`, the marker's own
/// name, then the segments of what followed `~user/`.
proof fn lemma_home_expansion(rest: Seq<char>)
    requires
        !is_absolute(rest),
    ensures
        components(if rest.len() == 0 { home_marker() } else { join_path(home_marker(), rest) })
            == seq![root_comp(), "__home__"@] + segments(rest),
{
    reveal_strlit("/__home__");
    reveal_strlit("__home__");
    let m = home_marker();
    let hs = seq!['_', '_', 'h', 'o', 'm', 'e', '_', '_'];
    assert(m =~= seq!['/', '_', '_', 'h', 'o', 'm', 'e', '_', '_']);
    assert("__home__"@ =~= hs);
    assert(scan(seq!['/', '_', '_', 'h', 'o', 'm', 'e', '_', '_']) == (Seq::<Seq<char>>::empty(), hs)) by {
        reveal_with_fuel(scan, 10);
    }
    assert(is_segment_kept(hs)) by {
        assert(hs.len() == 8);
    }
    if rest.len() == 0 {
        assert(segments(rest) =~= Seq::<Seq<char>>::empty());
        assert(components(m) =~= seq![root_comp(), "__home__"@] + segments(rest));
    } else {
        let a = m + seq!['/'];
        assert(a.drop_last() =~= m);
        assert(a.last() == '/');
        assert(scan(a).0 =~= seq![hs]);
        lemma_segments_concat(a, rest);
        assert(join_path(m, rest) =~= a + rest);
        assert((a + rest)[0] == '/');
        assert(components(a + rest) =~= seq![root_comp(), "__home__"@] + segments(rest));
    }
}

/// A home reference (`~`, `~/...`, `~user/...`) never resolves to the real
/// home and never passes the jail: it is expanded under a marker directory
/// outside the sandbox and refused. This holds whenever the root is neither
/// `/` nor under the marker, and what follows `~user/` is neither absolute nor
/// climbs out of the marker with a `..` component.
pub proof fn law_home_references_refused(sb: ToolSandbox, raw: Seq<char>, resolved: Option<Seq<char>>)
    requires
        tilde_rest(raw) matches Some(rest) && !is_absolute(rest) && !components(rest).contains(parent_comp()),
        components(sb.root_path()).len() >= 2,
        components(sb.root_path()).take(2) != seq![root_comp(), "__home__"@],
    ensures
        sb.validate_arg_path_spec(raw, resolved) is Err,
{
    let rest = tilde_rest(raw)->0;
    lemma_home_expansion(rest);
    let segs = segments(rest);
    assert forall|i: int| 0 <= i < segs.len() implies segs[i] != parent_comp() by {
        if starts_with_cur_dir(rest) {
            assert(components(rest)[i + 1] == segs[i]);
        } else {
            assert(components(rest)[i] == segs[i]);
        }
    }
    reveal_strlit("__home__");
    let h = "__home__"@;
    assert(h =~= seq!['_', '_', 'h', 'o', 'm', 'e', '_', '_']);
    assert(h != cur_comp() && h != parent_comp() && h != root_comp()) by {
        assert(h.len() == 8);
    }
    let cs = seq![root_comp(), h] + segs;
    assert forall|i: int| 2 <= i < cs.len() implies cs[i] != parent_comp() by {
        assert(cs[i] == segs[i - 2]);
    }
    lemma_normalize_keeps_head(cs);
    let lex = sb.arg_lexical(raw);
    assert(lex == normalize(cs));
    let rc = components(sb.root_path());
    if comps_start_with(lex, rc) {
        assert(lex.take(rc.len() as int).take(2) =~= lex.take(2));
        assert(rc.take(2) =~= lex.take(2));
        assert(cs.take(2) =~= seq![root_comp(), h]);
    }
}

/// Whatever the jail accepts lies under the whole root: every component of
/// the root, in order, is a leading component of the accepted path. This
/// holds of a resolved path, of a path about to be created (its resolved
/// parent joined with its name), and of the normalised form of a command
/// argument. A sibling of the root (`/srv/other` for root `/srv/work`) is
/// refused.
pub proof fn law_accepted_paths_keep_the_whole_root(
    sb: ToolSandbox,
    path: Seq<char>,
    canonical: Option<Seq<char>>,
    parent_resolution: Option<Result<Seq<char>, Seq<char>>>,
    raw: Seq<char>,
    resolved: Option<Seq<char>>,
)
    ensures
        sb.validate_path_spec(path, canonical, parent_resolution) matches Ok(q) ==> {
            &&& components(sb.root_path()).len() <= components(q).len()
            &&& forall|i: int| 0 <= i < components(sb.root_path()).len()
                ==> #[trigger] components(q)[i] == components(sb.root_path())[i]
        },
        sb.validate_arg_path_spec(raw, resolved) is Ok ==> {
            &&& components(sb.root_path()).len() <= sb.arg_lexical(raw).len()
            &&& forall|i: int| 0 <= i < components(sb.root_path()).len()
                ==> #[trigger] sb.arg_lexical(raw)[i] == components(sb.root_path())[i]
        },
{
    let rc = components(sb.root_path());
    if sb.validate_path_spec(path, canonical, parent_resolution) is Ok {
        let q = sb.validate_path_spec(path, canonical, parent_resolution)->Ok_0;
        assert(sb.check_resolved_spec(q) == Ok::<Seq<char>, Seq<char>>(q));
        law_prefix_matches_every_component(components(q), rc);
    }
    law_prefix_matches_every_component(sb.arg_lexical(raw), rc);
}

/// A resolved path is accepted only under the whole root (see
/// [`law_accepted_paths_keep_the_whole_root`]); a path that differs from the
/// root in any root component is refused as outside it.
pub proof fn law_outside_root_refused(sb: ToolSandbox, p: Seq<char>, i: int)
    requires
        0 <= i < components(sb.root_path()).len(),
        i < components(p).len() ==> components(p)[i] != components(sb.root_path())[i],
    ensures
        sb.check_resolved_spec(p) == Err::<Seq<char>, Seq<char>>(sb.outside_msg(p)),
{
    law_prefix_matches_every_component(components(p), components(sb.root_path()));
}

/// The sensitive names, spelled out.
proof fn lemma_blocked_name(c: Seq<char>)
    ensures
        is_blocked_name(c) <==> (c == ".ssh"@ || c == ".aws"@ || c == ".gnupg"@ || c == ".env"@ || c == ".git"@),
{
}

proof fn lemma_first_blocked_found(cs: Seq<Seq<char>>, i: int)
    requires
        0 <= i < cs.len(),
        is_blocked_name(cs[i]),
    ensures
        first_blocked(cs) is Some,
    decreases cs.len(),
{
    if i > 0 && !is_blocked_name(cs[0]) {
        lemma_first_blocked_found(cs.drop_first(), i - 1);
    }
}

proof fn lemma_first_blocked_is_a_component(cs: Seq<Seq<char>>)
    ensures
        first_blocked(cs) matches Some(seg) ==> is_blocked_name(seg) && cs.contains(seg),
    decreases cs.len(),
{
    if cs.len() > 0 && !is_blocked_name(cs[0]) {
        lemma_first_blocked_is_a_component(cs.drop_first());
        if first_blocked(cs) is Some {
            let seg = first_blocked(cs)->0;
            let j = choose|j: int| 0 <= j < cs.drop_first().len() && cs.drop_first()[j] == seg;
            assert(cs[j + 1] == seg);
        }
    }
}

/// A path that has `.ssh`, `.aws`, `.gnupg`, `.env` or `.git` as a whole
/// component anywhere is refused by the jail, whether it is a resolved path
/// or the normalised form of a command argument; and a refusal for a
/// blocked segment names a component the path really has.
pub proof fn law_blocked_segments_refused(sb: ToolSandbox, p: Seq<char>, raw: Seq<char>, resolved: Option<Seq<char>>, i: int)
    ensures
        0 <= i < components(p).len() && ({
            let c = components(p)[i];
            c == ".ssh"@ || c == ".aws"@ || c == ".gnupg"@ || c == ".env"@ || c == ".git"@
        }) ==> sb.check_resolved_spec(p) is Err,
        0 <= i < sb.arg_lexical(raw).len() && ({
            let c = sb.arg_lexical(raw)[i];
            c == ".ssh"@ || c == ".aws"@ || c == ".gnupg"@ || c == ".env"@ || c == ".git"@
        }) ==> sb.validate_arg_path_spec(raw, resolved) is Err,
        first_blocked(components(p)) matches Some(seg) ==> components(p).contains(seg) && (seg == ".ssh"@
            || seg == ".aws"@ || seg == ".gnupg"@ || seg == ".env"@ || seg == ".git"@),
{
    if 0 <= i < components(p).len() {
        lemma_blocked_name(components(p)[i]);
        if is_blocked_name(components(p)[i]) {
            lemma_first_blocked_found(components(p), i);
        }
    }
    if 0 <= i < sb.arg_lexical(raw).len() {
        lemma_blocked_name(sb.arg_lexical(raw)[i]);
        if is_blocked_name(sb.arg_lexical(raw)[i]) {
            lemma_first_blocked_found(sb.arg_lexical(raw), i);
        }
    }
    lemma_first_blocked_is_a_component(components(p));
}

} // verus!
