//! Bounding what a tool hands back to the model.

use vstd::prelude::*;
use crate::text::{chars_of, string_from_chars};

verus! {

/// Maximum characters returned by any single tool call. Longer output is cut
/// and a notice appended.
pub const MAX_TOOL_OUTPUT: usize = 12_000;

pub open spec fn truncation_notice() -> Seq<char> {
    "\n\n[output truncated: exceeded 12000 characters]"@
}

/// `s` unchanged when it has at most [`MAX_TOOL_OUTPUT`] characters;
/// otherwise its first [`MAX_TOOL_OUTPUT`] characters followed by the
/// truncation notice.
pub open spec fn capped(s: Seq<char>) -> Seq<char> {
    if s.len() <= MAX_TOOL_OUTPUT {
        s
    } else {
        s.take(MAX_TOOL_OUTPUT as int) + truncation_notice()
    }
}

/// Truncate `s` to at most [`MAX_TOOL_OUTPUT`] characters, appending a notice
/// when anything was cut.
pub fn cap_output(s: &str) -> (r: String)
    ensures
        r@ == capped(s@),
{
    let cs = chars_of(s);
    if cs.len() <= MAX_TOOL_OUTPUT {
        return s.to_owned();
    }
    let mut out = string_from_chars(&cs, 0, MAX_TOOL_OUTPUT);
    assert(cs@.subrange(0, MAX_TOOL_OUTPUT as int) =~= s@.take(MAX_TOOL_OUTPUT as int));
    out.append("\n\n[output truncated: exceeded 12000 characters]");
    out
}

/// Tool output is bounded: what a tool hands back is its output unchanged
/// when that has at most [`MAX_TOOL_OUTPUT`] characters, and otherwise its
/// first [`MAX_TOOL_OUTPUT`] characters followed by the truncation notice.
pub proof fn law_output_is_bounded(s: Seq<char>)
    ensures
        s.len() <= MAX_TOOL_OUTPUT ==> capped(s) == s,
        capped(s).len() <= MAX_TOOL_OUTPUT + truncation_notice().len(),
        s.len() > MAX_TOOL_OUTPUT ==> capped(s).take(MAX_TOOL_OUTPUT as int) == s.take(MAX_TOOL_OUTPUT as int),
{
    if s.len() > MAX_TOOL_OUTPUT {
        assert(capped(s).take(MAX_TOOL_OUTPUT as int) =~= s.take(MAX_TOOL_OUTPUT as int));
    }
}

} // verus!
