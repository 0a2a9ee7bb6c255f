//! The built-in tools offered to the models: names, descriptions and string
//! parameters.

use vstd::prelude::*;
use super::executor::{is_read_only_tool, read_only_tool_names};
use crate::text::str_eq;

verus! {

/// A string parameter of a tool.
#[derive(Clone, Copy, Debug)]
pub struct ToolParam {
    pub name: &'static str,
    pub description: &'static str,
    pub required: bool,
}

/// A tool as offered to a model.
#[derive(Clone, Debug)]
pub struct ToolSpec {
    pub name: &'static str,
    pub description: &'static str,
    pub params: Vec<ToolParam>,
}

/// A parameter as plain values.
pub open spec fn param_view(p: ToolParam) -> (Seq<char>, Seq<char>, bool) {
    (p.name@, p.description@, p.required)
}

/// A tool as plain values.
pub open spec fn spec_view(t: ToolSpec) -> (Seq<char>, Seq<char>, Seq<(Seq<char>, Seq<char>, bool)>) {
    (t.name@, t.description@, t.params@.map_values(|p: ToolParam| param_view(p)))
}

/// The built-in tools, in the order they are offered.
pub open spec fn builtin_tool_views() -> Seq<(Seq<char>, Seq<char>, Seq<(Seq<char>, Seq<char>, bool)>)> {
    seq![
        ("run_command"@, "Execute a shell command and return its output."@, seq![
            ("command"@, "The shell command to execute"@, true),
        ]),
        ("read_file"@, "Read the contents of a file."@, seq![
            ("path"@, "Absolute or relative path to the file"@, true),
        ]),
        ("write_file"@, "Write content to a file, creating it if it doesn't exist."@, seq![
            ("path"@, "Path to the file"@, true),
            ("content"@, "Content to write"@, true),
        ]),
        ("search_files"@, "Search for files matching a pattern using glob."@, seq![
            ("pattern"@, "Glob pattern (e.g., '**/*.rs')"@, true),
            ("directory"@, "Root directory to search from"@, false),
        ]),
        ("search_content"@, "Search file contents for a regex pattern."@, seq![
            ("pattern"@, "Regex pattern to search for"@, true),
            ("directory"@, "Root directory to search from"@, false),
            ("file_pattern"@, "Glob pattern to filter files (e.g., '*.rs')"@, false),
        ]),
        ("list_directory"@, "List files and directories at a given path."@, seq![
            ("path"@, "Directory path"@, true),
        ]),
    ]
}

fn param(name: &'static str, description: &'static str, required: bool) -> (r: ToolParam)
    ensures
        param_view(r) == (name@, description@, required),
{
    ToolParam { name, description, required }
}

/// The tools Jarvis exposes to models.
pub fn builtin_tools() -> (r: Vec<ToolSpec>)
    ensures
        r@.map_values(|t: ToolSpec| spec_view(t)) == builtin_tool_views(),
{
    let r = vec![
        ToolSpec {
            name: "run_command",
            description: "Execute a shell command and return its output.",
            params: vec![param("command", "The shell command to execute", true)],
        },
        ToolSpec {
            name: "read_file",
            description: "Read the contents of a file.",
            params: vec![param("path", "Absolute or relative path to the file", true)],
        },
        ToolSpec {
            name: "write_file",
            description: "Write content to a file, creating it if it doesn't exist.",
            params: vec![param("path", "Path to the file", true), param("content", "Content to write", true)],
        },
        ToolSpec {
            name: "search_files",
            description: "Search for files matching a pattern using glob.",
            params: vec![
                param("pattern", "Glob pattern (e.g., '**/*.rs')", true),
                param("directory", "Root directory to search from", false),
            ],
        },
        ToolSpec {
            name: "search_content",
            description: "Search file contents for a regex pattern.",
            params: vec![
                param("pattern", "Regex pattern to search for", true),
                param("directory", "Root directory to search from", false),
                param("file_pattern", "Glob pattern to filter files (e.g., '*.rs')", false),
            ],
        },
        ToolSpec {
            name: "list_directory",
            description: "List files and directories at a given path.",
            params: vec![param("path", "Directory path", true)],
        },
    ];
    proof {
        let f = |p: ToolParam| param_view(p);
        assert(r@[0].params@.map_values(f) =~= builtin_tool_views()[0].2);
        assert(r@[1].params@.map_values(f) =~= builtin_tool_views()[1].2);
        assert(r@[2].params@.map_values(f) =~= builtin_tool_views()[2].2);
        assert(r@[3].params@.map_values(f) =~= builtin_tool_views()[3].2);
        assert(r@[4].params@.map_values(f) =~= builtin_tool_views()[4].2);
        assert(r@[5].params@.map_values(f) =~= builtin_tool_views()[5].2);
        assert(r@.map_values(|t: ToolSpec| spec_view(t)) =~= builtin_tool_views());
    }
    r
}

fn is_read_only_name(name: &str) -> (r: bool)
    ensures
        r == is_read_only_tool(name@),
{
    str_eq(name, "read_file") || str_eq(name, "search_files") || str_eq(name, "search_content") || str_eq(
        name,
        "list_directory",
    )
}

/// The read-only subset of the built-in tools (no command execution, no
/// writes), in the same order.
pub fn read_only_tools() -> (r: Vec<ToolSpec>)
    ensures
        r@.map_values(|t: ToolSpec| spec_view(t)) == builtin_tool_views().filter(
            |t: (Seq<char>, Seq<char>, Seq<(Seq<char>, Seq<char>, bool)>)| is_read_only_tool(t.0),
        ),
        r@.map_values(|t: ToolSpec| t.name@) == read_only_tool_names(),
{
    let all = builtin_tools();
    let ghost views = builtin_tool_views();
    let ghost pred = |t: (Seq<char>, Seq<char>, Seq<(Seq<char>, Seq<char>, bool)>)| is_read_only_tool(t.0);
    let mut out: Vec<ToolSpec> = Vec::new();
    let n = all.len();
    let mut i: usize = 0;
    while i < n
        invariant
            n == all@.len(),
            0 <= i <= n,
            all@.map_values(|t: ToolSpec| spec_view(t)) == views,
            views == builtin_tool_views(),
            pred == (|t: (Seq<char>, Seq<char>, Seq<(Seq<char>, Seq<char>, bool)>)| is_read_only_tool(t.0)),
            out@.map_values(|t: ToolSpec| spec_view(t)) == views.take(i as int).filter(pred),
        decreases n - i,
    {
        let t = all[i].clone();
        proof {
            reveal(Seq::filter);
            assert(views.take(i + 1).drop_last() =~= views.take(i as int));
            assert(views[i as int] == spec_view(all@[i as int]));
        }
        let ghost before = out@;
        if is_read_only_name(all[i].name) {
            out.push(ToolSpec { name: all[i].name, description: all[i].description, params: copy_params(&all[i].params) });
            proof {
                assert(out@.map_values(|t: ToolSpec| spec_view(t)) =~= before.map_values(|t: ToolSpec| spec_view(t)).push(
                    views[i as int],
                ));
            }
        }
        i += 1;
    }
    proof {
        assert(views.take(n as int) =~= views);
        reveal_with_fuel(Seq::filter, 7);
        reveal_strlit("run_command");
        reveal_strlit("write_file");
        reveal_strlit("read_file");
        reveal_strlit("search_files");
        reveal_strlit("search_content");
        reveal_strlit("list_directory");
        assert("run_command"@.len() == 11 && "write_file"@.len() == 10);
        assert("read_file"@.len() == 9 && "search_files"@.len() == 12);
        assert("search_content"@.len() == 14 && "list_directory"@.len() == 14);
        assert(views[0].0 == "run_command"@);
        assert(views[2].0 == "write_file"@);
        assert(!is_read_only_tool("run_command"@));
        assert(!is_read_only_tool("write_file"@));
        assert(!pred(views[0]));
        assert(!pred(views[2]));
        assert(pred(views[1]) && pred(views[3]) && pred(views[4]) && pred(views[5]));
        assert(views.filter(pred) =~= seq![views[1], views[3], views[4], views[5]]) by {
            assert(views.take(1) =~= seq![views[0]]);
            assert(views.drop_last().drop_last().drop_last().drop_last().drop_last() =~= views.take(1));
        }
        let names = out@.map_values(|t: ToolSpec| t.name@);
        assert forall|k: int| 0 <= k < 4 implies names[k] == read_only_tool_names()[k] by {
            assert(out@.map_values(|t: ToolSpec| spec_view(t))[k] == spec_view(out@[k]));
        }
        assert(names =~= read_only_tool_names());
    }
    out
}

fn copy_params(ps: &Vec<ToolParam>) -> (r: Vec<ToolParam>)
    ensures
        r@ == ps@,
{
    let mut out: Vec<ToolParam> = Vec::new();
    let mut i: usize = 0;
    while i < ps.len()
        invariant
            0 <= i <= ps@.len(),
            out@ == ps@.take(i as int),
        decreases ps@.len() - i,
    {
        out.push(ps[i]);
        i += 1;
        assert(out@ =~= ps@.take(i as int));
    }
    assert(ps@.take(ps@.len() as int) =~= ps@);
    out
}

} // verus!
