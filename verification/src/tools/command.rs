//! The policy that decides whether a model-requested command may run.
//!
//! Commands are never handed to a shell: the text is tokenized into argv and
//! the program named by `argv[0]` is executed directly, so shell
//! metacharacters stay inert. This module decides, from the tokens alone,
//! whether the command is allowed.

use vstd::prelude::*;
use crate::text::{chars_of, concat2, concat3, concat5, contains_char, contains_str, has_infix, owned, str_eq, u64_to_decimal, i32_to_decimal, decimal, signed_decimal, push_char};
use super::path::{is_absolute, views, components};
use super::sandbox::{ToolSandbox, file_name, file_name_of};
use super::output::{cap_output, capped};

verus! {

/// The words `shell_words::split` makes of `s` (POSIX quoting rules, no
/// shell operators), or `None` when it reports a parse error.
pub uninterp spec fn shell_words_split(s: Seq<char>) -> Option<Seq<Seq<char>>>;

/// Tokenizes with `shell_words::split`. Its only error, `ParseError`, always
/// displays as "missing closing quote"; that text is returned.
#[verifier::external_body]
fn split_words(s: &str) -> (r: Result<Vec<String>, String>)
    ensures
        match r {
            Ok(v) => shell_words_split(s@) == Some(views(v@)),
            Err(e) => shell_words_split(s@) is None && e@ == "missing closing quote"@,
        },
{
    match shell_words::split(s) {
        Ok(v) => Ok(v),
        Err(e) => Err(e.to_string()),
    }
}

/// Read-only git subcommands.
pub open spec fn is_allowed_git_subcommand(w: Seq<char>) -> bool {
    w == "status"@ || w == "log"@ || w == "diff"@ || w == "show"@ || w == "ls-files"@
        || w == "blame"@ || w == "branch"@
}

/// Cargo subcommands that only inspect, check, build or test.
pub open spec fn is_allowed_cargo_subcommand(w: Seq<char>) -> bool {
    w == "check"@ || w == "clippy"@ || w == "fmt"@ || w == "build"@ || w == "test"@
}

/// `find` flags that run programs or delete files.
pub open spec fn is_dangerous_find_flag(w: Seq<char>) -> bool {
    w == "-exec"@ || w == "-execdir"@ || w == "-ok"@ || w == "-okdir"@ || w == "-delete"@
}

/// The first dangerous `find` flag among `args`.
pub open spec fn first_dangerous_find_flag(args: Seq<Seq<char>>) -> Option<Seq<char>>
    decreases args.len(),
{
    if args.len() == 0 {
        None
    } else if is_dangerous_find_flag(args[0]) {
        Some(args[0])
    } else {
        first_dangerous_find_flag(args.drop_first())
    }
}

/// An `argv[0]` that is not a bare program name.
pub open spec fn is_path_qualified(a0: Seq<char>) -> bool {
    a0.contains('/') || a0.contains('\\') || a0 == ".."@ || is_absolute(a0)
}

/// The subcommand word (`argv[1]`, or empty when absent).
pub open spec fn subcommand(argv: Seq<Seq<char>>) -> Seq<char> {
    if argv.len() > 1 { argv[1] } else { seq![] }
}

/// Whether an argv may run, and if not, the refusal text.
pub open spec fn argv_policy(argv: Seq<Seq<char>>) -> Result<(), Seq<char>> {
    if argv.len() == 0 || argv[0].len() == 0 {
        Err("run_command: empty command"@)
    } else {
        let a0 = argv[0];
        if is_path_qualified(a0) {
            Err("run_command: '"@ + a0 + "' must be a bare program name (no path components)"@)
        } else if ToolSandbox::validate_command_spec(a0) is Err {
            ToolSandbox::validate_command_spec(a0)
        } else if a0 == "git"@ && !is_allowed_git_subcommand(subcommand(argv)) {
            Err("Command not allowed: git subcommand not allowed: "@ + subcommand(argv))
        } else if a0 == "cargo"@ && !is_allowed_cargo_subcommand(subcommand(argv)) {
            Err("Command not allowed: cargo subcommand not allowed: "@ + subcommand(argv))
        } else if a0 == "find"@ && first_dangerous_find_flag(argv.drop_first()) is Some {
            Err("Command not allowed: find flag not allowed: "@ + first_dangerous_find_flag(argv.drop_first())->0)
        } else {
            Ok(())
        }
    }
}

pub open spec fn parse_error_prefix() -> Seq<char> {
    "run_command: cannot parse command: "@
}

fn is_allowed_git_subcommand_exec(w: &str) -> (r: bool)
    ensures
        r == is_allowed_git_subcommand(w@),
{
    str_eq(w, "status") || str_eq(w, "log") || str_eq(w, "diff") || str_eq(w, "show")
        || str_eq(w, "ls-files") || str_eq(w, "blame") || str_eq(w, "branch")
}

fn is_allowed_cargo_subcommand_exec(w: &str) -> (r: bool)
    ensures
        r == is_allowed_cargo_subcommand(w@),
{
    str_eq(w, "check") || str_eq(w, "clippy") || str_eq(w, "fmt") || str_eq(w, "build")
        || str_eq(w, "test")
}

fn is_dangerous_find_flag_exec(w: &str) -> (r: bool)
    ensures
        r == is_dangerous_find_flag(w@),
{
    str_eq(w, "-exec") || str_eq(w, "-execdir") || str_eq(w, "-ok") || str_eq(w, "-okdir")
        || str_eq(w, "-delete")
}

/// Decide whether an already-tokenized argv may run.
pub fn check_argv(argv: &Vec<String>) -> (r: Result<(), String>)
    ensures
        match (r, argv_policy(views(argv@))) {
            (Ok(_), Ok(_)) => true,
            (Err(a), Err(b)) => a@ == b,
            _ => false,
        },
{
    let ghost v = views(argv@);
    if argv.len() == 0 || argv[0].as_str().is_empty() {
        return Err(owned("run_command: empty command"));
    }
    let a0 = argv[0].as_str();
    assert(a0@ == v[0]);
    let a0c = chars_of(a0);
    if contains_char(a0, '/') || contains_char(a0, '\\') || str_eq(a0, "..")
        || (a0c.len() > 0 && a0c[0] == '/') {
        return Err(concat3("run_command: '", a0, "' must be a bare program name (no path components)"));
    }
    let sb = ToolSandbox::new(String::new());
    match sb.validate_command(a0) {
        Err(e) => { return Err(e); },
        Ok(_) => {},
    }
    let sub: &str = if argv.len() > 1 { argv[1].as_str() } else { "" };
    proof {
        if argv.len() <= 1 {
            reveal_strlit("");
            assert(sub@ =~= subcommand(v));
        } else {
            assert(sub@ == subcommand(v));
        }
    }
    if str_eq(a0, "git") && !is_allowed_git_subcommand_exec(sub) {
        return Err(concat2("Command not allowed: git subcommand not allowed: ", sub));
    }
    if str_eq(a0, "cargo") && !is_allowed_cargo_subcommand_exec(sub) {
        return Err(concat2("Command not allowed: cargo subcommand not allowed: ", sub));
    }
    if str_eq(a0, "find") {
        let mut i: usize = 1;
        assert(v.drop_first().skip(0) =~= v.drop_first());
        assert(argv_policy(v) == (if first_dangerous_find_flag(v.drop_first()) is Some {
            Err("Command not allowed: find flag not allowed: "@ + first_dangerous_find_flag(v.drop_first())->0)
        } else {
            Ok::<(), Seq<char>>(())
        }));
        while i < argv.len()
            invariant
                v == views(argv@),
                argv_policy(v) == (if first_dangerous_find_flag(v.drop_first()) is Some {
                    Err("Command not allowed: find flag not allowed: "@ + first_dangerous_find_flag(v.drop_first())->0)
                } else {
                    Ok::<(), Seq<char>>(())
                }),
                1 <= i <= argv@.len(),
                first_dangerous_find_flag(v.drop_first())
                    == first_dangerous_find_flag(v.drop_first().skip(i - 1)),
            decreases argv@.len() - i,
        {
            assert(v.drop_first().skip(i - 1)[0] == argv@[i as int]@);
            assert(v.drop_first().skip(i - 1).drop_first() =~= v.drop_first().skip(i as int));
            if is_dangerous_find_flag_exec(argv[i].as_str()) {
                return Err(concat2("Command not allowed: find flag not allowed: ", argv[i].as_str()));
            }
            i += 1;
        }
        assert(v.drop_first().skip(i - 1) =~= Seq::<Seq<char>>::empty());
    }
    Ok(())
}

/// What [`plan_run_command`] decides for a command line whose tokens are
/// `shell_words_split(command)`.
pub open spec fn run_command_plan_spec(command: Seq<char>, r: Result<Seq<Seq<char>>, Seq<char>>) -> bool {
    match shell_words_split(command) {
        None => r == Err::<Seq<Seq<char>>, Seq<char>>(parse_error_prefix() + "missing closing quote"@),
        Some(argv) => match argv_policy(argv) {
            Ok(_) => r == Ok::<Seq<Seq<char>>, Seq<char>>(argv),
            Err(m) => r == Err::<Seq<Seq<char>>, Seq<char>>(m),
        },
    }
}

/// Tokenize `command` without a shell and decide whether it may run. On
/// success, the argv to execute directly (program, then literal arguments).
pub fn plan_run_command(command: &str) -> (r: Result<Vec<String>, String>)
    ensures
        run_command_plan_spec(command@, match r { Ok(v) => Ok(views(v@)), Err(e) => Err(e@) }),
{
    let argv = match split_words(command) {
        Ok(v) => v,
        Err(e) => {
            let m = concat2("run_command: cannot parse command: ", e.as_str());
            return Err(m);
        },
    };
    match check_argv(&argv) {
        Ok(_) => Ok(argv),
        Err(e) => Err(e),
    }
}

/// Whether an argv token looks like a filesystem path that must be jailed:
/// absolute, home-relative (`~`), containing a separator, or containing `..`.
pub open spec fn path_like_token(t: Seq<char>) -> bool {
    t.len() > 0 && (t[0] == '~' || t.contains('/') || t.contains('\\') || has_infix(t, ".."@)
        || is_absolute(t))
}

pub fn looks_path_like(t: &str) -> (r: bool)
    ensures
        r == path_like_token(t@),
{
    let cs = chars_of(t);
    if cs.len() == 0 {
        return false;
    }
    cs[0] == '~' || contains_char(t, '/') || contains_char(t, '\\') || contains_str(t, "..")
        || cs[0] == '/'
}

/// ASCII lower-casing of one character (`char::to_ascii_lowercase`).
pub open spec fn ascii_lower(c: char) -> char {
    if 'A' <= c && c <= 'Z' { ((c as u32) + 32) as char } else { c }
}

pub open spec fn ascii_lower_seq(s: Seq<char>) -> Seq<char> {
    s.map_values(|c: char| ascii_lower(c))
}

/// `Path::extension` on a file name: what follows the last `.`, when the part
/// before it is not empty.
pub open spec fn extension_of_name(name: Seq<char>) -> Option<Seq<char>> {
    if name == ".."@ {
        None
    } else if exists|i: int| 0 < i < name.len() && name[i] == '.' {
        let i = choose|i: int| 0 < i < name.len() && name[i] == '.'
            && forall|j: int| i < j < name.len() ==> name[j] != '.';
        Some(name.skip(i + 1))
    } else {
        None
    }
}

/// `path.extension()`.
pub open spec fn extension(p: Seq<char>) -> Option<Seq<char>> {
    match file_name(p) {
        Some(n) => extension_of_name(n),
        None => None,
    }
}

/// Whether `path` names a Windows batch or command shim (`.cmd`, `.bat`,
/// `.com`, any case): running one re-enters `cmd.exe`.
pub open spec fn batch_shim_path(p: Seq<char>) -> bool {
    match extension(p) {
        Some(e) => ascii_lower_seq(e) == "cmd"@ || ascii_lower_seq(e) == "bat"@
            || ascii_lower_seq(e) == "com"@,
        None => false,
    }
}

fn ascii_lower_string(s: &str) -> (r: String)
    ensures
        r@ == ascii_lower_seq(s@),
{
    let cs = chars_of(s);
    let mut out = String::new();
    let mut i: usize = 0;
    while i < cs.len()
        invariant
            cs@ == s@,
            0 <= i <= cs@.len(),
            out@ == ascii_lower_seq(s@.take(i as int)),
        decreases cs@.len() - i,
    {
        let c = cs[i];
        let l = if 'A' <= c && c <= 'Z' { ((c as u32) + 32) as u8 as char } else { c };
        assert(l == ascii_lower(c)) by {
            if 'A' <= c && c <= 'Z' {
                assert(((c as u32) + 32) as u8 as char == ((c as u32) + 32) as char);
            }
        }
        push_char(&mut out, l);
        assert(ascii_lower_seq(s@.take(i + 1)) =~= ascii_lower_seq(s@.take(i as int)).push(l));
        i += 1;
    }
    assert(s@.take(cs@.len() as int) =~= s@);
    out
}

fn extension_of_name_exec(name: &str) -> (r: Option<String>)
    ensures
        r is None <==> extension_of_name(name@) is None,
        r matches Some(e) ==> extension_of_name(name@) == Some(e@),
{
    if str_eq(name, "..") {
        return None;
    }
    let cs = chars_of(name);
    let n = cs.len();
    let mut i = n;
    while i > 0 && !(cs[i - 1] == '.' && i - 1 > 0)
        invariant
            cs@ == name@,
            n == cs@.len(),
            i <= n,
            forall|j: int| i <= j < n ==> !(name@[j] == '.' && j > 0),
        decreases i,
    {
        i -= 1;
    }
    if i == 0 {
        assert(!(exists|k: int| 0 < k < name@.len() && name@[k] == '.')) by {
            assert forall|k: int| 0 < k < name@.len() implies name@[k] != '.' by {
                assert(!(name@[k] == '.' && k > 0));
            }
        }
        None
    } else {
        let k = i - 1;
        proof {
            assert(0 < k < name@.len() && name@[k as int] == '.');
            let c = choose|c: int| 0 < c < name@.len() && name@[c] == '.'
                && forall|j: int| c < j < name@.len() ==> name@[j] != '.';
            assert(forall|j: int| k < j < name@.len() ==> name@[j] != '.');
            assert(c == k) by {
                if c < k {
                    assert(name@[k as int] != '.');
                }
                if k < c {
                    assert(!(name@[c] == '.' && c > 0));
                }
            }
            assert(name@.skip(k + 1) =~= cs@.subrange(k + 1, n as int));
        }
        Some(crate::text::string_from_chars(&cs, k + 1, n))
    }
}

pub fn is_batch_shim(p: &str) -> (r: bool)
    ensures
        r == batch_shim_path(p@),
{
    match file_name_of(p) {
        None => false,
        Some(n) => match extension_of_name_exec(n.as_str()) {
            None => false,
            Some(e) => {
                let l = ascii_lower_string(e.as_str());
                str_eq(l.as_str(), "cmd") || str_eq(l.as_str(), "bat") || str_eq(l.as_str(), "com")
            },
        },
    }
}

pub open spec fn batch_shim_msg(argv0: Seq<char>, resolved: Seq<char>) -> Seq<char> {
    "run_command: '"@ + argv0 + "' resolves to a batch shim ("@ + resolved
        + ") which would re-enter a shell; refused."@
}

/// The refusal for an `argv[0]` that the search path resolves to a batch
/// shim, or `None` when the resolved program may run.
pub fn batch_shim_refusal(argv0: &str, resolved: &str) -> (r: Option<String>)
    ensures
        r is Some <==> batch_shim_path(resolved@),
        r matches Some(m) ==> m@ == batch_shim_msg(argv0@, resolved@),
{
    if is_batch_shim(resolved) {
        Some(concat5("run_command: '", argv0, "' resolves to a batch shim (", resolved,
            ") which would re-enter a shell; refused."))
    } else {
        None
    }
}

/// How an exit status is reported: its code, or `signal` when there is none.
pub open spec fn exit_code_text(code: Option<i32>) -> Seq<char> {
    match code {
        Some(c) => signed_decimal(c as int),
        None => "signal"@,
    }
}

/// The text returned for a finished command: its exit status, a newline, then
/// its combined output bounded by the tool output cap.
pub open spec fn command_report_spec(code: Option<i32>, output: Seq<char>) -> Seq<char> {
    "exit code: "@ + exit_code_text(code) + "\n"@ + capped(output)
}

pub fn command_report(code: Option<i32>, output: &str) -> (r: String)
    ensures
        r@ == command_report_spec(code, output@),
{
    let code_text = match code {
        Some(c) => i32_to_decimal(c),
        None => owned("signal"),
    };
    let capped_out = cap_output(output);
    let mut r = concat3("exit code: ", code_text.as_str(), "\n");
    r.append(capped_out.as_str());
    r
}

/// The error for a command killed at its deadline.
pub open spec fn timeout_msg(argv0: Seq<char>, secs: u64) -> Seq<char> {
    "run_command: '"@ + argv0 + "' timed out after "@ + decimal(secs as nat) + "s and was killed"@
}

pub fn timeout_message(argv0: &str, secs: u64) -> (r: String)
    ensures
        r@ == timeout_msg(argv0@, secs),
{
    let d = u64_to_decimal(secs);
    concat5("run_command: '", argv0, "' timed out after ", d.as_str(), "s and was killed")
}


/// What may run: an accepted argv starts with a bare program name whose
/// first word is on the allowlist; git runs only read-only subcommands,
/// cargo only check/build/test subcommands, and find never with a flag that
/// executes or deletes.
pub proof fn law_only_allowlisted_programs_run(argv: Seq<Seq<char>>)
    ensures
        argv_policy(argv) is Ok ==> {
            &&& argv.len() > 0
            &&& argv[0].len() > 0
            &&& !is_path_qualified(argv[0])
            &&& crate::tools::sandbox::is_allowed_command(crate::tools::sandbox::first_word(argv[0]))
            &&& argv[0] == "git"@ ==> is_allowed_git_subcommand(subcommand(argv))
            &&& argv[0] == "cargo"@ ==> is_allowed_cargo_subcommand(subcommand(argv))
            &&& argv[0] == "find"@ ==> first_dangerous_find_flag(argv.drop_first()) is None
        },
{
}

/// No shell: the argv a command runs with is exactly the tokens of its text,
/// so shell operators inside it stay literal arguments.
pub proof fn law_argv_is_the_literal_tokens(command: Seq<char>, argv: Seq<Seq<char>>)
    requires
        run_command_plan_spec(command, Ok(argv)),
    ensures
        shell_words_split(command) == Some(argv),
        argv_policy(argv) is Ok,
{
}

/// A refusal text of the command policy.
pub open spec fn not_allowed(m: Seq<char>) -> bool {
    "Command not allowed:"@.len() <= m.len() && m.take("Command not allowed:"@.len() as int) == "Command not allowed:"@
}

/// The subcommand and flag rules: git with a subcommand that is not read-only,
/// cargo with one that does more than check, build or test, or find with a flag
/// that executes or deletes (a missing subcommand counts as the empty word).
pub open spec fn breaks_subcommand_rules(argv: Seq<Seq<char>>) -> bool {
    argv.len() > 0 && {
        ||| argv[0] == "git"@ && !is_allowed_git_subcommand(subcommand(argv))
        ||| argv[0] == "cargo"@ && !is_allowed_cargo_subcommand(subcommand(argv))
        ||| argv[0] == "find"@ && exists|i: int| 1 <= i < argv.len() && #[trigger] is_dangerous_find_flag(argv[i])
    }
}

proof fn lemma_dangerous_flag_found(args: Seq<Seq<char>>, i: int)
    requires
        0 <= i < args.len(),
        is_dangerous_find_flag(args[i]),
    ensures
        first_dangerous_find_flag(args) is Some,
    decreases args.len(),
{
    if i > 0 && !is_dangerous_find_flag(args[0]) {
        lemma_dangerous_flag_found(args.drop_first(), i - 1);
    }
}

proof fn lemma_not_allowed_extends(a: Seq<char>, b: Seq<char>)
    requires
        not_allowed(a),
    ensures
        not_allowed(a + b),
{
    assert((a + b).take("Command not allowed:"@.len() as int) =~= a.take("Command not allowed:"@.len() as int));
}

proof fn lemma_refusal_texts()
    ensures
        not_allowed("Command not allowed: '"@),
        not_allowed("Command not allowed: "@),
        not_allowed("Command not allowed: git subcommand not allowed: "@),
        not_allowed("Command not allowed: cargo subcommand not allowed: "@),
        not_allowed("Command not allowed: find flag not allowed: "@),
{
    reveal_strlit("Command not allowed:");
    reveal_strlit("Command not allowed: '");
    reveal_strlit("Command not allowed: ");
    reveal_strlit("Command not allowed: git subcommand not allowed: ");
    reveal_strlit("Command not allowed: cargo subcommand not allowed: ");
    reveal_strlit("Command not allowed: find flag not allowed: ");
    assert("Command not allowed: '"@.take(20) =~= "Command not allowed:"@);
    assert("Command not allowed: "@.take(20) =~= "Command not allowed:"@);
    assert("Command not allowed: git subcommand not allowed: "@.take(20) =~= "Command not allowed:"@);
    assert("Command not allowed: cargo subcommand not allowed: "@.take(20) =~= "Command not allowed:"@);
    assert("Command not allowed: find flag not allowed: "@.take(20) =~= "Command not allowed:"@);
}

/// Every refusal of the allowlist check is a "Command not allowed:" message.
proof fn lemma_validate_refusal(a0: Seq<char>)
    ensures
        ToolSandbox::validate_command_spec(a0) matches Err(m) ==> not_allowed(m),
{
    lemma_refusal_texts();
    let w = crate::tools::sandbox::first_word(a0);
    lemma_not_allowed_extends("Command not allowed: '"@, w);
    lemma_not_allowed_extends("Command not allowed: '"@ + w, "' must be a bare program name"@);
    lemma_not_allowed_extends("Command not allowed: "@, w);
}

/// `git`, `cargo` and `find` are bare program names.
proof fn lemma_bare_names(a0: Seq<char>)
    requires
        a0 == "git"@ || a0 == "cargo"@ || a0 == "find"@,
    ensures
        !is_path_qualified(a0),
{
    reveal_strlit("git");
    reveal_strlit("cargo");
    reveal_strlit("find");
    reveal_strlit("..");
    if a0 == "git"@ {
        assert(a0 =~= seq!['g', 'i', 't']);
    } else if a0 == "cargo"@ {
        assert(a0 =~= seq!['c', 'a', 'r', 'g', 'o']);
    } else {
        assert(a0 =~= seq!['f', 'i', 'n', 'd']);
    }
    assert forall|i: int| 0 <= i < a0.len() implies a0[i] != '/' && a0[i] != '\\' by {}
    assert(a0 != ".."@);
}

/// A command whose tokens break the git, cargo or find rules is refused with a
/// "Command not allowed:" message, and so never runs; the tokens come from the
/// text without a shell, so a pipe or `;` in it cannot get around the rules.
pub proof fn law_subcommand_refusals(command: Seq<char>, argv: Seq<Seq<char>>, r: Result<Seq<Seq<char>>, Seq<char>>)
    requires
        shell_words_split(command) == Some(argv),
        breaks_subcommand_rules(argv),
        run_command_plan_spec(command, r),
    ensures
        r matches Err(m) && not_allowed(m),
{
    let a0 = argv[0];
    lemma_bare_names(a0);
    lemma_refusal_texts();
    lemma_validate_refusal(a0);
    reveal_strlit("git");
    reveal_strlit("cargo");
    reveal_strlit("find");
    if ToolSandbox::validate_command_spec(a0) is Ok {
        if a0 == "git"@ {
            lemma_not_allowed_extends("Command not allowed: git subcommand not allowed: "@, subcommand(argv));
        } else if a0 == "cargo"@ {
            lemma_not_allowed_extends("Command not allowed: cargo subcommand not allowed: "@, subcommand(argv));
        } else {
            let i = choose|i: int| 1 <= i < argv.len() && #[trigger] is_dangerous_find_flag(argv[i]);
            assert(argv.drop_first()[i - 1] == argv[i]);
            lemma_dangerous_flag_found(argv.drop_first(), i - 1);
            lemma_not_allowed_extends(
                "Command not allowed: find flag not allowed: "@,
                first_dangerous_find_flag(argv.drop_first())->0,
            );
        }
    }
}

} // verus!
