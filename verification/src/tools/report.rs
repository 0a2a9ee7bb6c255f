//! What the read-only tools report: sorted directory listings, the lines a
//! search collects, and the messages for failed filesystem calls.

use vstd::prelude::*;
use crate::text::{chars_of, concat2, concat3, concat4, concat5};
use vstd::string::StrSliceExecFns;
use super::path::views;
use super::output::{cap_output, capped, MAX_TOOL_OUTPUT};
use super::executor::{match_line, match_line_spec, no_files_msg, no_matches_msg};

verus! {

/// The order of `String`: lexicographic by character (the byte order of
/// UTF-8, which is code-point order), a prefix before any longer text.
pub open spec fn lex_le(a: Seq<char>, b: Seq<char>) -> bool
    decreases a.len(),
{
    if a.len() == 0 {
        true
    } else if b.len() == 0 {
        false
    } else if a[0] != b[0] {
        (a[0] as int) < (b[0] as int)
    } else {
        lex_le(a.drop_first(), b.drop_first())
    }
}

/// Any two texts are ordered one way or the other.
pub proof fn lemma_lex_total(a: Seq<char>, b: Seq<char>)
    ensures
        lex_le(a, b) || lex_le(b, a),
    decreases a.len(),
{
    if a.len() > 0 && b.len() > 0 && a[0] == b[0] {
        lemma_lex_total(a.drop_first(), b.drop_first());
    }
}

/// The order is transitive.
pub proof fn lemma_lex_trans(a: Seq<char>, b: Seq<char>, c: Seq<char>)
    requires
        lex_le(a, b),
        lex_le(b, c),
    ensures
        lex_le(a, c),
    decreases a.len(),
{
    if a.len() > 0 && b.len() > 0 && c.len() > 0 && a[0] == b[0] && b[0] == c[0] {
        lemma_lex_trans(a.drop_first(), b.drop_first(), c.drop_first());
    }
}

/// Two texts each at or before the other are the same text.
pub proof fn lemma_lex_antisym(a: Seq<char>, b: Seq<char>)
    requires
        lex_le(a, b),
        lex_le(b, a),
    ensures
        a == b,
    decreases a.len(),
{
    if a.len() > 0 && b.len() > 0 {
        lemma_lex_antisym(a.drop_first(), b.drop_first());
        assert(a =~= seq![a[0]] + a.drop_first());
        assert(b =~= seq![b[0]] + b.drop_first());
    } else {
        assert(a =~= b);
    }
}

/// Names in ascending order.
pub open spec fn sorted_names(s: Seq<Seq<char>>) -> bool {
    forall|i: int, j: int| 0 <= i < j < s.len() ==> lex_le(#[trigger] s[i], #[trigger] s[j])
}

proof fn lemma_lex_step(a: Seq<char>, b: Seq<char>, i: int)
    requires
        0 <= i < a.len(),
        0 <= i < b.len(),
        a[i] == b[i],
    ensures
        lex_le(a.skip(i), b.skip(i)) == lex_le(a.skip(i + 1), b.skip(i + 1)),
{
    assert(a.skip(i)[0] == a[i]);
    assert(b.skip(i)[0] == b[i]);
    assert(a.skip(i).drop_first() =~= a.skip(i + 1));
    assert(b.skip(i).drop_first() =~= b.skip(i + 1));
}

/// Whether `a` sorts at or before `b` (see [`lex_le`]).
pub fn lex_le_exec(a: &str, b: &str) -> (r: bool)
    ensures
        r == lex_le(a@, b@),
{
    let ca = chars_of(a);
    let cb = chars_of(b);
    let mut i: usize = 0;
    assert(a@.skip(0) =~= a@);
    assert(b@.skip(0) =~= b@);
    while i < ca.len() && i < cb.len()
        invariant
            ca@ == a@,
            cb@ == b@,
            0 <= i <= ca@.len(),
            i <= cb@.len(),
            lex_le(a@, b@) == lex_le(a@.skip(i as int), b@.skip(i as int)),
        decreases ca@.len() - i,
    {
        if ca[i] != cb[i] {
            assert(a@.skip(i as int)[0] == a@[i as int]);
            assert(b@.skip(i as int)[0] == b@[i as int]);
            return ca[i] < cb[i];
        }
        proof {
            lemma_lex_step(a@, b@, i as int);
        }
        i += 1;
    }
    i == ca.len()
}

/// `names` in ascending order: the same names, each as often as before.
pub fn sort_names(names: Vec<String>) -> (r: Vec<String>)
    ensures
        sorted_names(views(r@)),
        views(r@).to_multiset() == views(names@).to_multiset(),
{
    broadcast use vstd::seq_lib::group_to_multiset_ensures;
    let mut out: Vec<String> = Vec::new();
    let mut k: usize = 0;
    assert(views(names@).take(0) =~= Seq::<Seq<char>>::empty());
    assert(views(out@) =~= Seq::<Seq<char>>::empty());
    while k < names.len()
        invariant
            0 <= k <= names@.len(),
            sorted_names(views(out@)),
            views(out@).to_multiset() == views(names@).take(k as int).to_multiset(),
        decreases names@.len() - k,
    {
        let x = names[k].clone();
        let mut p: usize = 0;
        while p < out.len() && lex_le_exec(out[p].as_str(), x.as_str())
            invariant
                0 <= p <= out@.len(),
                forall|i: int| 0 <= i < p ==> lex_le(#[trigger] out@[i]@, x@),
            decreases out@.len() - p,
        {
            p += 1;
        }
        let ghost before = views(out@);
        proof {
            if p < out@.len() {
                lemma_lex_total(out@[p as int]@, x@);
            }
            assert forall|i: int| p <= i < before.len() implies lex_le(x@, #[trigger] before[i]) by {
                if p < i {
                    lemma_lex_trans(x@, before[p as int], before[i]);
                }
            }
        }
        out.insert(p, x);
        proof {
            let now = views(out@);
            assert(now =~= before.insert(p as int, names@[k as int]@));
            assert forall|i: int, j: int| 0 <= i < j < now.len() implies lex_le(#[trigger] now[i], #[trigger] now[j]) by {
                if i < p && j == p {
                } else if i < p && j > p {
                    lemma_lex_trans(now[i], names@[k as int]@, now[j]);
                } else if i == p {
                } else {
                }
            }
            vstd::seq_lib::to_multiset_insert(before, p as int, names@[k as int]@);
            assert(views(names@).take(k + 1) =~= views(names@).take(k as int).push(names@[k as int]@));
            vstd::seq_lib::to_multiset_build(views(names@).take(k as int), names@[k as int]@);
        }
        k += 1;
    }
    assert(views(names@).take(names@.len() as int) =~= views(names@));
    out
}

/// A name as `list_directory` shows it: a directory gets a trailing `/`.
pub open spec fn listing_entry_spec(name: Seq<char>, is_dir: bool) -> Seq<char> {
    if is_dir { name + "/"@ } else { name }
}

pub fn listing_entry(name: &str, is_dir: bool) -> (r: String)
    ensures
        r@ == listing_entry_spec(name@, is_dir),
{
    if is_dir { concat2(name, "/") } else { name.to_owned() }
}

/// The lines joined with `\n` between them.
pub open spec fn join_lines(lines: Seq<Seq<char>>) -> Seq<char>
    decreases lines.len(),
{
    if lines.len() == 0 {
        Seq::empty()
    } else if lines.len() == 1 {
        lines[0]
    } else {
        join_lines(lines.drop_last()) + "\n"@ + lines.last()
    }
}

pub open spec fn empty_directory_msg() -> Seq<char> {
    "(empty directory)"@
}

/// What `list_directory` reports for its (already sorted) entries.
pub open spec fn listing_text_spec(entries: Seq<Seq<char>>) -> Seq<char> {
    if entries.len() == 0 { empty_directory_msg() } else { capped(join_lines(entries)) }
}

/// The listing for `entries`: a note when there are none, else the entries
/// one per line, capped.
pub fn listing_text(entries: &Vec<String>) -> (r: String)
    ensures
        r@ == listing_text_spec(views(entries@)),
{
    if entries.len() == 0 {
        return "(empty directory)".to_owned();
    }
    let ghost v = views(entries@);
    let mut joined = entries[0].clone();
    let mut i: usize = 1;
    assert(v.take(1).drop_last() =~= Seq::<Seq<char>>::empty());
    while i < entries.len()
        invariant
            v == views(entries@),
            1 <= i <= entries@.len(),
            joined@ == join_lines(v.take(i as int)),
        decreases entries@.len() - i,
    {
        joined.append("\n");
        joined.append(entries[i].as_str());
        assert(v.take(i + 1).drop_last() =~= v.take(i as int));
        i += 1;
    }
    assert(v.take(entries@.len() as int) =~= v);
    cap_output(joined.as_str())
}

/// The listing of a directory whose visible entries are `entries`, in any
/// order: sorted, then shaped by [`listing_text`].
pub fn format_listing(entries: Vec<String>) -> (r: String)
    ensures
        exists|s: Seq<Seq<char>>|
            sorted_names(s) && s.to_multiset() == views(entries@).to_multiset()
                && r@ == listing_text_spec(s),
{
    let sorted = sort_names(entries);
    listing_text(&sorted)
}

/// The text a search has collected so far, and whether anything matched.
pub struct SearchLog {
    text: String,
    any: bool,
}

impl SearchLog {
    pub closed spec fn text_view(&self) -> Seq<char> {
        self.text@
    }

    pub closed spec fn has_hits(&self) -> bool {
        self.any
    }

    /// A log with nothing in it.
    pub fn new() -> (r: Self)
        ensures
            r.text_view() == Seq::<char>::empty(),
            !r.has_hits(),
    {
        SearchLog { text: String::new(), any: false }
    }

    /// Record a file that matched a name pattern, by its displayed path.
    pub fn record_file(&mut self, shown: &str)
        ensures
            final(self).text_view() == old(self).text_view() + shown@ + "\n"@,
            final(self).has_hits(),
    {
        self.text.append(shown);
        self.text.append("\n");
        self.any = true;
    }

    /// Record a line (at zero-based `index` in the file shown as `rel`)
    /// that matched a content pattern.
    pub fn record_line(&mut self, rel: &str, index: u64, line: &str)
        requires
            index < u64::MAX,
        ensures
            final(self).text_view() == old(self).text_view() + match_line_spec(rel@, index as nat, line@),
            final(self).has_hits(),
    {
        let m = match_line(rel, index, line);
        self.text.append(m.as_str());
        self.any = true;
    }

    /// Whether the collected text has grown past [`MAX_TOOL_OUTPUT`]
    /// characters, where a search stops.
    pub fn is_full(&self) -> (r: bool)
        ensures
            r == (self.text_view().len() > MAX_TOOL_OUTPUT),
    {
        self.text.as_str().unicode_len() > MAX_TOOL_OUTPUT
    }

    /// What `search_files` reports for `pattern`.
    pub fn files_report(&self, pattern: &str) -> (r: String)
        ensures
            r@ == if self.has_hits() { capped(self.text_view()) } else { no_files_msg(pattern@) },
    {
        if self.any {
            cap_output(self.text.as_str())
        } else {
            concat3("No files matched pattern '", pattern, "'.")
        }
    }

    /// What `search_content` reports for `pattern`.
    pub fn content_report(&self, pattern: &str) -> (r: String)
        ensures
            r@ == if self.text_view().len() == 0 { no_matches_msg(pattern@) } else { capped(self.text_view()) },
    {
        if self.text.as_str().is_empty() {
            concat3("No matches for pattern '", pattern, "'.")
        } else {
            cap_output(self.text.as_str())
        }
    }
}

/// `{tool}: cannot {action} '{path}': {err}`, for a failed filesystem call.
pub open spec fn io_error_msg(tool: Seq<char>, action: Seq<char>, path: Seq<char>, err: Seq<char>) -> Seq<char> {
    tool + ": cannot "@ + action + " '"@ + path + "': "@ + err
}

pub fn io_error_message(tool: &str, action: &str, path: &str, err: &str) -> (r: String)
    ensures
        r@ == io_error_msg(tool@, action@, path@, err@),
{
    let mut r = concat5(tool, ": cannot ", action, " '", path);
    r.append("': ");
    r.append(err);
    r
}

/// `read_file` on a directory.
pub fn read_directory_message(path: &str) -> (r: String)
    ensures
        r@ == "read_file: '"@ + path@ + "' is a directory"@,
{
    concat3("read_file: '", path, "' is a directory")
}

/// `list_directory` on something that is not a directory.
pub fn not_directory_message(path: &str) -> (r: String)
    ensures
        r@ == "list_directory: '"@ + path@ + "' is not a directory"@,
{
    concat3("list_directory: '", path, "' is not a directory")
}

/// A pattern the matching library refused: `{tool}: invalid {what}: {err}`.
pub fn invalid_pattern_message(tool: &str, what: &str, err: &str) -> (r: String)
    ensures
        r@ == tool@ + ": invalid "@ + what@ + ": "@ + err@,
{
    let mut r = concat4(tool, ": invalid ", what, ": ");
    r.append(err);
    r
}

} // verus!
