//! Tool executors: which tool a call names, what it asks for, and how its
//! result is shaped. The filesystem and process work itself is done by the
//! caller; every path it touches is jailed through [`ToolSandbox`].

use vstd::prelude::*;
use crate::text::{chars_of, concat2, concat3, concat4, concat5, owned, str_eq, u64_to_decimal, decimal, string_from_chars};
use super::path::{components, components_of, join_path, join_path_exec, path_starts_with, comps_start_with_exec, render, render_comps, views, root_comp};
use super::sandbox::{ToolSandbox, file_name, file_name_of};
use super::output::{cap_output, capped};

verus! {

/// Maximum number of bytes `write_file` accepts in `content`.
pub const MAX_WRITE_BYTES: usize = 1_000_000;

/// Default wall-clock limit for one `run_command`, in seconds.
pub const RUN_COMMAND_TIMEOUT_SECS: u64 = 30;

/// The arguments of a tool call, as the model supplied them. A field is
/// `None` when the argument is absent or is not a string.
#[derive(Clone, Debug, Default)]
pub struct ToolArgs {
    pub path: Option<String>,
    pub content: Option<String>,
    pub command: Option<String>,
    pub pattern: Option<String>,
    pub directory: Option<String>,
    pub file_pattern: Option<String>,
    /// All the arguments, as pretty-printed JSON text.
    pub json: String,
}

/// A validated read-only tool request.
#[derive(Clone, Debug)]
pub enum ReadOnlyRequest {
    ReadFile { path: String },
    SearchFiles { pattern: String, directory: Option<String> },
    SearchContent { pattern: String, directory: Option<String>, file_pattern: Option<String> },
    ListDirectory { path: String },
}

/// A validated request for the full (read + write/exec) tool set.
#[derive(Clone, Debug)]
pub enum WriteExecRequest {
    WriteFile { path: String, content: String },
    RunCommand { command: String },
    ReadOnly(ReadOnlyRequest),
}

pub open spec fn opt_view(o: Option<String>) -> Option<Seq<char>> {
    match o {
        Some(s) => Some(s@),
        None => None,
    }
}

/// The read-only tool names.
pub open spec fn is_read_only_tool(name: Seq<char>) -> bool {
    name == "read_file"@ || name == "search_files"@ || name == "search_content"@
        || name == "list_directory"@
}

/// Tools that change the system.
pub open spec fn is_write_exec_tool(name: Seq<char>) -> bool {
    name == "write_file"@ || name == "run_command"@
}

pub open spec fn missing_arg_msg(tool: Seq<char>, arg: Seq<char>) -> Seq<char> {
    tool + ": missing '"@ + arg + "' argument"@
}

pub open spec fn unknown_tool_msg(name: Seq<char>) -> Seq<char> {
    "Unknown tool: "@ + name
}

pub open spec fn disabled_tool_msg(name: Seq<char>) -> Seq<char> {
    "Tool '"@ + name + "' is disabled: this assistant has read-only access only."@
}

/// The abstract form of a [`ReadOnlyRequest`].
pub open spec fn read_only_request_view(r: ReadOnlyRequest) -> (int, Seq<char>, Option<Seq<char>>, Option<Seq<char>>) {
    match r {
        ReadOnlyRequest::ReadFile { path } => (0, path@, None, None),
        ReadOnlyRequest::SearchFiles { pattern, directory } => (1, pattern@, opt_view(directory), None),
        ReadOnlyRequest::SearchContent { pattern, directory, file_pattern } =>
            (2, pattern@, opt_view(directory), opt_view(file_pattern)),
        ReadOnlyRequest::ListDirectory { path } => (3, path@, None, None),
    }
}

/// What [`plan_read_only`] returns for a call of `name` with `args`.
pub open spec fn plan_read_only_spec(name: Seq<char>, args: ToolArgs)
    -> Result<(int, Seq<char>, Option<Seq<char>>, Option<Seq<char>>), Seq<char>> {
    if name == "read_file"@ {
        match args.path {
            Some(p) => Ok((0, p@, None, None)),
            None => Err(missing_arg_msg("read_file"@, "path"@)),
        }
    } else if name == "search_files"@ {
        match args.pattern {
            Some(p) => Ok((1, p@, opt_view(args.directory), None)),
            None => Err(missing_arg_msg("search_files"@, "pattern"@)),
        }
    } else if name == "search_content"@ {
        match args.pattern {
            Some(p) => Ok((2, p@, opt_view(args.directory), opt_view(args.file_pattern))),
            None => Err(missing_arg_msg("search_content"@, "pattern"@)),
        }
    } else if name == "list_directory"@ {
        match args.path {
            Some(p) => Ok((3, p@, None, None)),
            None => Err(missing_arg_msg("list_directory"@, "path"@)),
        }
    } else if is_write_exec_tool(name) {
        Err(disabled_tool_msg(name))
    } else {
        Err(unknown_tool_msg(name))
    }
}

fn missing_arg(tool: &str, arg: &str) -> (r: String)
    ensures
        r@ == missing_arg_msg(tool@, arg@),
{
    concat4(tool, ": missing '", arg, "' argument")
}

/// Check which read-only tool a call names and that its required arguments
/// are present.
pub fn plan_read_only(name: &str, args: &ToolArgs) -> (r: Result<ReadOnlyRequest, String>)
    ensures
        match (r, plan_read_only_spec(name@, *args)) {
            (Ok(a), Ok(b)) => read_only_request_view(a) == b,
            (Err(a), Err(b)) => a@ == b,
            _ => false,
        },
{
    if str_eq(name, "read_file") {
        match &args.path {
            Some(p) => Ok(ReadOnlyRequest::ReadFile { path: p.clone() }),
            None => Err(missing_arg("read_file", "path")),
        }
    } else if str_eq(name, "search_files") {
        match &args.pattern {
            Some(p) => Ok(ReadOnlyRequest::SearchFiles { pattern: p.clone(), directory: args.directory.clone() }),
            None => Err(missing_arg("search_files", "pattern")),
        }
    } else if str_eq(name, "search_content") {
        match &args.pattern {
            Some(p) => Ok(ReadOnlyRequest::SearchContent {
                pattern: p.clone(),
                directory: args.directory.clone(),
                file_pattern: args.file_pattern.clone(),
            }),
            None => Err(missing_arg("search_content", "pattern")),
        }
    } else if str_eq(name, "list_directory") {
        match &args.path {
            Some(p) => Ok(ReadOnlyRequest::ListDirectory { path: p.clone() }),
            None => Err(missing_arg("list_directory", "path")),
        }
    } else if str_eq(name, "write_file") || str_eq(name, "run_command") {
        Err(concat3("Tool '", name, "' is disabled: this assistant has read-only access only."))
    } else {
        Err(concat2("Unknown tool: ", name))
    }
}


/// The path text after the root's components, when `p` lies under `root`
/// (`Path::strip_prefix`); otherwise `p` itself.
pub open spec fn relative_to(p: Seq<char>, root: Seq<char>) -> Seq<char> {
    if path_starts_with(p, root) {
        render(components(p).skip(components(root).len() as int))
    } else {
        p
    }
}

/// The read-only tool names, in the order they are offered.
pub open spec fn read_only_tool_names() -> Seq<Seq<char>> {
    seq!["read_file"@, "search_files"@, "search_content"@, "list_directory"@]
}

pub open spec fn static_views(v: Seq<&'static str>) -> Seq<Seq<char>> {
    v.map_values(|s: &'static str| s@)
}

/// The read-only tool names this crate's executors serve.
pub fn read_only_tool_list() -> (r: Vec<&'static str>)
    ensures
        static_views(r@) == read_only_tool_names(),
{
    let v = vec!["read_file", "search_files", "search_content", "list_directory"];
    assert(static_views(v@) =~= read_only_tool_names());
    v
}

/// Executes the read-only filesystem tools inside a [`ToolSandbox`].
pub struct ReadOnlyToolExecutor {
    sandbox: ToolSandbox,
    root: String,
}

impl ReadOnlyToolExecutor {
    pub closed spec fn root_path(&self) -> Seq<char> {
        self.root@
    }

    pub closed spec fn wf(&self) -> bool {
        self.sandbox.root_path() == self.root@
    }

    /// An executor whose sandbox is rooted at `root` (a canonical absolute path).
    pub fn new(root: String) -> (r: Self)
        ensures
            r.wf(),
            r.root_path() == root@,
    {
        ReadOnlyToolExecutor { sandbox: ToolSandbox::new(root.clone()), root }
    }

    /// The tool names this executor handles.
    pub fn tool_names() -> (r: Vec<&'static str>)
        ensures
            static_views(r@) == read_only_tool_names(),
    {
        read_only_tool_list()
    }

    /// The sandbox every access is jailed through.
    pub fn sandbox(&self) -> (r: &ToolSandbox)
        requires
            self.wf(),
        ensures
            r.root_path() == self.root_path(),
    {
        &self.sandbox
    }

    /// Check what a call asks for (see [`plan_read_only`]).
    pub fn plan(&self, name: &str, args: &ToolArgs) -> (r: Result<ReadOnlyRequest, String>)
        ensures
            match (r, plan_read_only_spec(name@, *args)) {
                (Ok(a), Ok(b)) => read_only_request_view(a) == b,
                (Err(a), Err(b)) => a@ == b,
                _ => false,
            },
    {
        plan_read_only(name, args)
    }

    /// The path a (possibly relative) path argument names: relative
    /// arguments are taken from the sandbox root.
    pub fn resolve(&self, raw: &str) -> (r: String)
        ensures
            r@ == join_path(self.root_path(), raw@),
    {
        join_path_exec(self.root.as_str(), raw)
    }

    /// Render `path` relative to the sandbox root when it lies under it.
    pub fn relativize(&self, path: &str) -> (r: String)
        ensures
            r@ == relative_to(path@, self.root_path()),
    {
        relativize_under(path, self.root.as_str())
    }
}

/// `path` relative to `root` when it lies under it, else `path`.
pub fn relativize_under(path: &str, root: &str) -> (r: String)
    ensures
        r@ == relative_to(path@, root@),
{
    let pc = components_of(path);
    let rc = components_of(root);
    if !comps_start_with_exec(&pc, &rc) {
        return path.to_owned();
    }
    let mut rest: Vec<String> = Vec::new();
    let mut i = rc.len();
    let ghost tail = views(pc@).skip(rc@.len() as int);
    while i < pc.len()
        invariant
            rc@.len() <= i <= pc@.len(),
            tail == views(pc@).skip(rc@.len() as int),
            views(rest@) == tail.take(i - rc@.len()),
        decreases pc@.len() - i,
    {
        let ghost before = views(rest@);
        rest.push(pc[i].clone());
        assert(views(rest@) =~= tail.take(i + 1 - rc@.len())) by {
            assert(views(rest@) =~= before.push(pc@[i as int]@));
        }
        i += 1;
    }
    assert(tail.take(pc@.len() - rc@.len()) =~= tail);
    render_comps(&rest)
}

/// Message when a search finds no file.
pub open spec fn no_files_msg(pattern: Seq<char>) -> Seq<char> {
    "No files matched pattern '"@ + pattern + "'."@
}

pub fn no_files_message(pattern: &str) -> (r: String)
    ensures
        r@ == no_files_msg(pattern@),
{
    concat3("No files matched pattern '", pattern, "'.")
}

/// Message when a content search finds no line.
pub open spec fn no_matches_msg(pattern: Seq<char>) -> Seq<char> {
    "No matches for pattern '"@ + pattern + "'."@
}

pub fn no_matches_message(pattern: &str) -> (r: String)
    ensures
        r@ == no_matches_msg(pattern@),
{
    concat3("No matches for pattern '", pattern, "'.")
}

/// One content-search hit: `rel:N: text`, with the line number counted from
/// one and the line cut to its first 300 characters.
pub open spec fn match_line_spec(rel: Seq<char>, index: nat, line: Seq<char>) -> Seq<char> {
    rel + ":"@ + decimal(index + 1) + ": "@
        + (if line.len() <= 300 { line } else { line.take(300) }) + "\n"@
}

pub fn match_line(rel: &str, index: u64, line: &str) -> (r: String)
    requires
        index < u64::MAX,
    ensures
        r@ == match_line_spec(rel@, index as nat, line@),
{
    let n = u64_to_decimal(index + 1);
    let cs = chars_of(line);
    let k = if cs.len() <= 300 { cs.len() } else { 300 };
    let text = string_from_chars(&cs, 0, k);
    proof {
        if cs@.len() <= 300 {
            assert(cs@.subrange(0, k as int) =~= line@);
        } else {
            assert(cs@.subrange(0, k as int) =~= line@.take(300));
        }
    }
    let mut r = concat4(rel, ":", n.as_str(), ": ");
    r.append(text.as_str());
    r.append("\n");
    r
}


/// The abstract form of a [`WriteExecRequest`].
pub open spec fn write_exec_request_view(r: WriteExecRequest)
    -> (int, Seq<char>, Seq<char>, (int, Seq<char>, Option<Seq<char>>, Option<Seq<char>>)) {
    match r {
        WriteExecRequest::WriteFile { path, content } => (0, path@, content@, (0, seq![], None, None)),
        WriteExecRequest::RunCommand { command } => (1, command@, seq![], (0, seq![], None, None)),
        WriteExecRequest::ReadOnly(q) => (2, seq![], seq![], read_only_request_view(q)),
    }
}

pub open spec fn oversize_msg(len: nat) -> Seq<char> {
    "write_file: content is "@ + decimal(len) + " bytes, exceeds the 1000000-byte limit"@
}

/// What [`WriteExecToolExecutor::plan`] returns for a call.
pub open spec fn plan_write_exec_spec(name: Seq<char>, args: ToolArgs)
    -> Result<(int, Seq<char>, Seq<char>, (int, Seq<char>, Option<Seq<char>>, Option<Seq<char>>)), Seq<char>> {
    if name == "write_file"@ {
        match args.path {
            None => Err(missing_arg_msg("write_file"@, "path"@)),
            Some(p) => match args.content {
                None => Err(missing_arg_msg("write_file"@, "content"@)),
                Some(c) => if crate::text::utf8_len(c@) > MAX_WRITE_BYTES {
                    Err(oversize_msg(crate::text::utf8_len(c@)))
                } else {
                    Ok((0, p@, c@, (0, seq![], None, None)))
                },
            },
        }
    } else if name == "run_command"@ {
        match args.command {
            None => Err(missing_arg_msg("run_command"@, "command"@)),
            Some(c) => Ok((1, c@, seq![], (0, seq![], None, None))),
        }
    } else if is_read_only_tool(name) {
        match plan_read_only_spec(name, args) {
            Ok(q) => Ok((2, seq![], seq![], q)),
            Err(e) => Err(e),
        }
    } else {
        Err(unknown_tool_msg(name))
    }
}

/// Append names one by one (`PathBuf::push` for each, in order).
pub open spec fn push_all(base: Seq<char>, names: Seq<Seq<char>>) -> Seq<char>
    decreases names.len(),
{
    if names.len() == 0 {
        base
    } else {
        join_path(push_all(base, names.drop_last()), names.last())
    }
}

pub open spec fn traversal_msg(path: Seq<char>) -> Seq<char> {
    "write_file: '"@ + path + "' contains a parent traversal"@
}

pub open spec fn write_outside_msg(path: Seq<char>) -> Seq<char> {
    "write_file: path '"@ + path + "' resolves outside the sandbox"@
}

pub open spec fn no_name_msg(path: Seq<char>) -> Seq<char> {
    "write_file: '"@ + path + "' has no file name"@
}

/// Executes the full tool set (read-only plus `write_file` and
/// `run_command`) inside a [`ToolSandbox`]. It performs no approval itself:
/// the session's approval gate decides before any call reaches it.
pub struct WriteExecToolExecutor {
    sandbox: ToolSandbox,
    root: String,
    read_only: ReadOnlyToolExecutor,
    command_timeout_ms: u64,
}

impl WriteExecToolExecutor {
    pub closed spec fn root_path(&self) -> Seq<char> {
        self.root@
    }

    /// The per-command timeout, in milliseconds.
    pub closed spec fn timeout_ms(&self) -> u64 {
        self.command_timeout_ms
    }

    pub closed spec fn wf(&self) -> bool {
        &&& self.sandbox.root_path() == self.root@
        &&& self.read_only.wf()
        &&& self.read_only.root_path() == self.root@
    }

    /// An executor rooted at `root` (the workspace directory, never home),
    /// with the default command timeout of [`RUN_COMMAND_TIMEOUT_SECS`] seconds.
    pub fn new(root: String) -> (r: Self)
        ensures
            r.wf(),
            r.root_path() == root@,
            r.timeout_ms() == RUN_COMMAND_TIMEOUT_SECS * 1000,
    {
        WriteExecToolExecutor {
            sandbox: ToolSandbox::new(root.clone()),
            read_only: ReadOnlyToolExecutor::new(root.clone()),
            root,
            command_timeout_ms: RUN_COMMAND_TIMEOUT_SECS * 1000,
        }
    }

    /// The same executor with a different per-command timeout, in milliseconds.
    pub fn with_command_timeout(self, timeout_ms: u64) -> (r: Self)
        ensures
            r.wf() == self.wf(),
            r.root_path() == self.root_path(),
            r.timeout_ms() == timeout_ms,
    {
        WriteExecToolExecutor { command_timeout_ms: timeout_ms, ..self }
    }

    /// The per-command timeout, in milliseconds.
    pub fn command_timeout(&self) -> (r: u64)
        ensures
            r == self.timeout_ms(),
    {
        self.command_timeout_ms
    }

    /// All tool names this executor handles: the read-only ones, then
    /// `write_file` and `run_command`.
    pub fn tool_names() -> (r: Vec<&'static str>)
        ensures
            static_views(r@) == read_only_tool_names() + seq!["write_file"@, "run_command"@],
    {
        let mut v = read_only_tool_list();
        v.push("write_file");
        v.push("run_command");
        assert(static_views(v@) =~= read_only_tool_names() + seq!["write_file"@, "run_command"@]);
        v
    }

    pub fn sandbox(&self) -> (r: &ToolSandbox)
        requires
            self.wf(),
        ensures
            r.root_path() == self.root_path(),
    {
        &self.sandbox
    }

    pub fn read_only(&self) -> (r: &ReadOnlyToolExecutor)
        requires
            self.wf(),
        ensures
            r.wf(),
            r.root_path() == self.root_path(),
    {
        &self.read_only
    }

    /// Check which tool a call names and that its arguments are acceptable
    /// (present; `write_file` content within [`MAX_WRITE_BYTES`]).
    pub fn plan(&self, name: &str, args: &ToolArgs) -> (r: Result<WriteExecRequest, String>)
        ensures
            match (r, plan_write_exec_spec(name@, *args)) {
                (Ok(a), Ok(b)) => write_exec_request_view(a) == b,
                (Err(a), Err(b)) => a@ == b,
                _ => false,
            },
    {
        if str_eq(name, "write_file") {
            let path = match &args.path {
                None => { return Err(missing_arg("write_file", "path")); },
                Some(p) => p.clone(),
            };
            let content = match &args.content {
                None => { return Err(missing_arg("write_file", "content")); },
                Some(c) => c.clone(),
            };
            let n = content.as_str().as_bytes().len();
            if n > MAX_WRITE_BYTES {
                let d = u64_to_decimal(n as u64);
                return Err(concat3("write_file: content is ", d.as_str(),
                    " bytes, exceeds the 1000000-byte limit"));
            }
            Ok(WriteExecRequest::WriteFile { path, content })
        } else if str_eq(name, "run_command") {
            match &args.command {
                None => Err(missing_arg("run_command", "command")),
                Some(c) => Ok(WriteExecRequest::RunCommand { command: c.clone() }),
            }
        } else if str_eq(name, "read_file") || str_eq(name, "search_files")
            || str_eq(name, "search_content") || str_eq(name, "list_directory") {
            match plan_read_only(name, args) {
                Ok(q) => Ok(WriteExecRequest::ReadOnly(q)),
                Err(e) => Err(e),
            }
        } else {
            Err(concat2("Unknown tool: ", name))
        }
    }

    /// The absolute target a `write_file` path names.
    pub fn write_target(&self, path: &str) -> (r: String)
        ensures
            r@ == join_path(self.root_path(), path@),
    {
        join_path_exec(self.root.as_str(), path)
    }

    /// What [`Self::rebuild_write_target`] returns.
    pub open spec fn rebuild_spec(&self, path: Seq<char>, existing: Seq<char>, missing: Seq<Seq<char>>)
        -> Result<Seq<char>, Seq<char>> {
        if exists|i: int| 0 <= i < missing.len() && missing[i] == ".."@ {
            Err(traversal_msg(path))
        } else if !path_starts_with(push_all(existing, missing), self.root_path()) {
            Err(write_outside_msg(path))
        } else {
            match file_name(join_path(self.root_path(), path)) {
                None => Err(no_name_msg(path)),
                Some(name) => Ok(join_path(push_all(existing, missing), name)),
            }
        }
    }

    /// Rebuild the full write target from the resolved form of its deepest
    /// existing ancestor and the directory names still to be created below it
    /// (shallowest first). The rebuilt parent must stay under the root and no
    /// name may be `..`. Returns the file path to create.
    pub fn rebuild_write_target(&self, path: &str, existing: &str, missing: &Vec<String>)
        -> (r: Result<String, String>)
        ensures
            match (r, self.rebuild_spec(path@, existing@, views(missing@))) {
                (Ok(a), Ok(b)) => a@ == b,
                (Err(a), Err(b)) => a@ == b,
                _ => false,
            },
    {
        let ghost m = views(missing@);
        let mut i: usize = 0;
        while i < missing.len()
            invariant
                m == views(missing@),
                0 <= i <= missing@.len(),
                forall|j: int| 0 <= j < i ==> m[j] != ".."@,
            decreases missing@.len() - i,
        {
            if str_eq(missing[i].as_str(), "..") {
                assert(m[i as int] == ".."@);
                return Err(concat3("write_file: '", path, "' contains a parent traversal"));
            }
            i += 1;
        }
        let mut parent = existing.to_owned();
        let mut k: usize = 0;
        assert(m.take(0) =~= Seq::<Seq<char>>::empty());
        while k < missing.len()
            invariant
                m == views(missing@),
                0 <= k <= missing@.len(),
                parent@ == push_all(existing@, m.take(k as int)),
            decreases missing@.len() - k,
        {
            parent = join_path_exec(parent.as_str(), missing[k].as_str());
            assert(m.take(k + 1).drop_last() =~= m.take(k as int));
            k += 1;
        }
        assert(m.take(missing@.len() as int) =~= m);
        let pc = components_of(parent.as_str());
        let rc = components_of(self.root.as_str());
        if !comps_start_with_exec(&pc, &rc) {
            return Err(concat3("write_file: path '", path, "' resolves outside the sandbox"));
        }
        let abs = join_path_exec(self.root.as_str(), path);
        match file_name_of(abs.as_str()) {
            None => Err(concat3("write_file: '", path, "' has no file name")),
            Some(name) => Ok(join_path_exec(parent.as_str(), name.as_str())),
        }
    }

    /// Message when the target is an existing directory.
    pub fn is_directory_message(path: &str) -> (r: String)
        ensures
            r@ == "write_file: '"@ + path@ + "' is a directory"@,
    {
        concat3("write_file: '", path, "' is a directory")
    }

    /// Message when no ancestor of the target could be found.
    pub fn no_ancestor_message(path: &str) -> (r: String)
        ensures
            r@ == "write_file: cannot resolve any ancestor of '"@ + path@ + "'"@,
    {
        concat3("write_file: cannot resolve any ancestor of '", path, "'")
    }

    /// The report of a completed write: its size and where it went, relative
    /// to the root.
    pub fn write_report(&self, bytes: usize, written: &str) -> (r: String)
        ensures
            r@ == "Wrote "@ + decimal(bytes as nat) + " bytes to "@ + relative_to(written@, self.root_path()),
    {
        let d = u64_to_decimal(bytes as u64);
        let rel = relativize_under(written, self.root.as_str());
        concat4("Wrote ", d.as_str(), " bytes to ", rel.as_str())
    }
}


/// A `write_file` target is rebuilt only under the root: the directories to
/// create contain no `..`, the rebuilt parent lies inside the root, and the
/// file keeps the name the request gave it.
pub proof fn law_write_targets_stay_inside(
    ex: WriteExecToolExecutor,
    path: Seq<char>,
    existing: Seq<char>,
    missing: Seq<Seq<char>>,
)
    ensures
        ex.rebuild_spec(path, existing, missing) matches Ok(t) ==> {
            &&& forall|i: int| 0 <= i < missing.len() ==> missing[i] != ".."@
            &&& path_starts_with(push_all(existing, missing), ex.root_path())
            &&& file_name(join_path(ex.root_path(), path)) matches Some(name)
            &&& t == join_path(push_all(existing, missing), name)
        },
{
}

proof fn lemma_tool_names_distinct()
    ensures
        "write_file"@ != "read_file"@ && "write_file"@ != "search_files"@ && "write_file"@ != "search_content"@
            && "write_file"@ != "list_directory"@ && "write_file"@ != "run_command"@,
        "run_command"@ != "read_file"@ && "run_command"@ != "search_files"@ && "run_command"@ != "search_content"@
            && "run_command"@ != "list_directory"@,
{
    reveal_strlit("write_file");
    reveal_strlit("run_command");
    reveal_strlit("read_file");
    reveal_strlit("search_files");
    reveal_strlit("search_content");
    reveal_strlit("list_directory");
    assert("write_file"@.len() == 10 && "run_command"@.len() == 11 && "read_file"@.len() == 9);
    assert("search_files"@.len() == 12 && "search_content"@.len() == 14 && "list_directory"@.len() == 14);
    assert("write_file"@[0] != "search_content"@[0] && "run_command"@[0] != "search_files"@[0]);
}

/// The read-only executor refuses `write_file` and `run_command` as disabled
/// (nothing is written or run) and any other tool it does not know as unknown.
pub proof fn law_read_only_executor_refuses_mutation(name: Seq<char>, args: ToolArgs)
    ensures
        is_write_exec_tool(name) ==> plan_read_only_spec(name, args) == Err::<
            (int, Seq<char>, Option<Seq<char>>, Option<Seq<char>>),
            Seq<char>,
        >(disabled_tool_msg(name)),
        !is_write_exec_tool(name) && !is_read_only_tool(name) ==> plan_read_only_spec(name, args) == Err::<
            (int, Seq<char>, Option<Seq<char>>, Option<Seq<char>>),
            Seq<char>,
        >(unknown_tool_msg(name)),
{
    lemma_tool_names_distinct();
}

/// The full executor handles every read-only tool exactly as the read-only
/// executor does, and refuses a tool in neither set as unknown.
pub proof fn law_write_exec_delegates_read_only(name: Seq<char>, args: ToolArgs)
    ensures
        is_read_only_tool(name) ==> match (plan_write_exec_spec(name, args), plan_read_only_spec(name, args)) {
            (Ok(w), Ok(q)) => w.0 == 2 && w.3 == q,
            (Err(a), Err(b)) => a == b,
            _ => false,
        },
        !is_write_exec_tool(name) && !is_read_only_tool(name) ==> plan_write_exec_spec(name, args) is Err
            && plan_write_exec_spec(name, args)->Err_0 == unknown_tool_msg(name),
{
    lemma_tool_names_distinct();
}

/// A planned read-only request carries exactly the call's arguments, none
/// dropped or altered: the path of `read_file` and `list_directory`; the
/// pattern and the directory of `search_files`; the pattern, the directory
/// and the file filter of `search_content`. A call that names its required
/// argument is always planned.
pub proof fn law_read_only_plan_carries_the_arguments(args: ToolArgs)
    ensures
        args.path matches Some(p) ==> {
            &&& plan_read_only_spec("read_file"@, args) matches Ok(q) && q.1 == p@
            &&& plan_read_only_spec("list_directory"@, args) matches Ok(q) && q.1 == p@
        },
        args.pattern matches Some(p) ==> {
            &&& plan_read_only_spec("search_files"@, args) matches Ok(q)
            &&& q.1 == p@
            &&& (args.directory matches Some(d) ==> q.2 == Some(d@))
            &&& (args.directory is None ==> q.2 is None)
        },
        args.pattern matches Some(p) ==> {
            &&& plan_read_only_spec("search_content"@, args) matches Ok(q)
            &&& q.1 == p@
            &&& (args.directory matches Some(d) ==> q.2 == Some(d@))
            &&& (args.directory is None ==> q.2 is None)
            &&& (args.file_pattern matches Some(f) ==> q.3 == Some(f@))
            &&& (args.file_pattern is None ==> q.3 is None)
        },
{
    lemma_read_only_names_distinct();
}

proof fn lemma_read_only_names_distinct()
    ensures
        "read_file"@ != "search_files"@ && "read_file"@ != "search_content"@ && "read_file"@ != "list_directory"@,
        "search_files"@ != "search_content"@ && "search_files"@ != "list_directory"@,
        "search_content"@ != "list_directory"@,
{
    reveal_strlit("read_file");
    reveal_strlit("search_files");
    reveal_strlit("search_content");
    reveal_strlit("list_directory");
    assert("read_file"@.len() == 9 && "search_files"@.len() == 12);
    assert("search_content"@.len() == 14 && "list_directory"@.len() == 14);
    assert("search_content"@[0] != "list_directory"@[0]);
}

/// A planned write or command carries exactly the call's arguments: the
/// path and the whole content of a `write_file` within the size limit, the
/// whole command text of a `run_command`.
pub proof fn law_write_exec_plan_carries_the_arguments(args: ToolArgs)
    ensures
        args.path matches Some(p) ==> args.content matches Some(c) ==> crate::text::utf8_len(c@) <= MAX_WRITE_BYTES
            ==> (plan_write_exec_spec("write_file"@, args) matches Ok(q) && q.0 == 0 && q.1 == p@ && q.2 == c@),
        args.command matches Some(c) ==> (plan_write_exec_spec("run_command"@, args) matches Ok(q) && q.0 == 1
            && q.1 == c@),
{
    lemma_tool_names_distinct();
}

} // verus!
