//! Server-sent events, as the providers stream them: the byte stream is cut
//! into lines (LF, with an optional CR before it), and lines are gathered
//! into events (`event:` names one, `data:` lines are joined with LF, a
//! blank line ends it, lines starting with `:` are comments).

use vstd::prelude::*;
use crate::text::{chars_of, owned, string_from_chars};

verus! {

/// The line-splitting state after some bytes: the complete lines (without
/// their line ending) and the bytes of the line not yet ended.
pub open spec fn scan_from(state: (Seq<Seq<u8>>, Seq<u8>), bytes: Seq<u8>) -> (Seq<Seq<u8>>, Seq<u8>)
    decreases bytes.len(),
{
    if bytes.len() == 0 {
        state
    } else {
        let prev = scan_from(state, bytes.drop_last());
        if bytes.last() == 10u8 {
            (prev.0.push(strip_cr(prev.1)), Seq::empty())
        } else {
            (prev.0, prev.1.push(bytes.last()))
        }
    }
}

/// A line without the CR of a CRLF ending.
pub open spec fn strip_cr(line: Seq<u8>) -> Seq<u8> {
    if line.len() > 0 && line.last() == 13u8 { line.drop_last() } else { line }
}

/// The lines of a byte stream, and the unfinished rest.
pub open spec fn scan_lines(bytes: Seq<u8>) -> (Seq<Seq<u8>>, Seq<u8>) {
    scan_from((Seq::empty(), Seq::empty()), bytes)
}

proof fn lemma_scan_concat(s: (Seq<Seq<u8>>, Seq<u8>), x: Seq<u8>, y: Seq<u8>)
    ensures
        scan_from(s, x + y) == scan_from(scan_from(s, x), y),
    decreases y.len(),
{
    if y.len() == 0 {
        assert(x + y =~= x);
    } else {
        lemma_scan_concat(s, x, y.drop_last());
        assert((x + y).drop_last() =~= x + y.drop_last());
        assert((x + y).last() == y.last());
    }
}

proof fn lemma_scan_shift(ls: Seq<Seq<u8>>, cur: Seq<u8>, y: Seq<u8>)
    ensures
        scan_from((ls, cur), y).0 == ls + scan_from((Seq::empty(), cur), y).0,
        scan_from((ls, cur), y).1 == scan_from((Seq::empty(), cur), y).1,
    decreases y.len(),
{
    if y.len() == 0 {
        assert(ls + Seq::<Seq<u8>>::empty() =~= ls);
    } else {
        lemma_scan_shift(ls, cur, y.drop_last());
        let p = scan_from((Seq::empty(), cur), y.drop_last());
        assert(ls + p.0.push(strip_cr(p.1)) =~= (ls + p.0).push(strip_cr(p.1)));
    }
}

proof fn lemma_scan_no_newline(bytes: Seq<u8>)
    requires
        !bytes.contains(10u8),
    ensures
        scan_lines(bytes) == (Seq::<Seq<u8>>::empty(), bytes),
    decreases bytes.len(),
{
    if bytes.len() > 0 {
        assert(!bytes.drop_last().contains(10u8)) by {
            if bytes.drop_last().contains(10u8) {
                let i = choose|i: int| 0 <= i < bytes.drop_last().len() && bytes.drop_last()[i] == 10u8;
                assert(bytes[i] == 10u8);
            }
        }
        lemma_scan_no_newline(bytes.drop_last());
        assert(bytes.last() != 10u8) by {
            assert(bytes[bytes.len() - 1] == bytes.last());
        }
        assert(bytes.drop_last().push(bytes.last()) =~= bytes);
    }
}

/// Cuts a byte stream into lines, whatever sizes the stream arrives in.
pub struct LineBuffer {
    pending: Vec<u8>,
}

impl LineBuffer {
    /// The bytes of the line not yet ended.
    pub closed spec fn pending_view(&self) -> Seq<u8> {
        self.pending@
    }

    /// The pending bytes never hold a line end.
    pub closed spec fn wf(&self) -> bool {
        !self.pending@.contains(10u8)
    }

    pub fn new() -> (r: Self)
        ensures
            r.wf(),
            r.pending_view() == Seq::<u8>::empty(),
    {
        LineBuffer { pending: Vec::new() }
    }

    /// Takes the next piece of the stream; returns the lines it completes.
    pub fn feed(&mut self, chunk: &[u8]) -> (r: Vec<Vec<u8>>)
        requires
            old(self).wf(),
        ensures
            final(self).wf(),
            r@.map_values(|l: Vec<u8>| l@) == scan_lines(old(self).pending_view() + chunk@).0,
            final(self).pending_view() == scan_lines(old(self).pending_view() + chunk@).1,
    {
        let ghost start = self.pending@;
        proof {
            lemma_scan_no_newline(start);
        }
        let mut lines: Vec<Vec<u8>> = Vec::new();
        let mut i: usize = 0;
        assert(chunk@.take(0) =~= Seq::<u8>::empty());
        assert(start + chunk@.take(0) =~= start);
        while i < chunk.len()
            invariant
                0 <= i <= chunk@.len(),
                !self.pending@.contains(10u8),
                (lines@.map_values(|l: Vec<u8>| l@), self.pending@) == scan_lines(start + chunk@.take(i as int)),
            decreases chunk@.len() - i,
        {
            let b = chunk[i];
            let ghost prev_lines = lines@;
            let ghost prev_pending = self.pending@;
            assert((start + chunk@.take(i + 1)).drop_last() =~= start + chunk@.take(i as int));
            assert((start + chunk@.take(i + 1)).last() == b);
            if b == 10u8 {
                let mut line: Vec<u8> = Vec::new();
                std::mem::swap(&mut line, &mut self.pending);
                let n = line.len();
                if n > 0 && line[n - 1] == 13u8 {
                    line.pop();
                }
                lines.push(line);
                assert(lines@.map_values(|l: Vec<u8>| l@) =~= prev_lines.map_values(|l: Vec<u8>| l@).push(
                    strip_cr(prev_pending)));
                assert(!self.pending@.contains(10u8));
            } else {
                self.pending.push(b);
                assert(!self.pending@.contains(10u8)) by {
                    if self.pending@.contains(10u8) {
                        let j = choose|j: int| 0 <= j < self.pending@.len() && self.pending@[j] == 10u8;
                        if j < prev_pending.len() {
                            assert(prev_pending[j] == 10u8);
                        }
                    }
                }
            }
            i += 1;
        }
        assert(chunk@.take(chunk@.len() as int) =~= chunk@);
        lines
    }
}

/// How the stream is cut into pieces does not change the lines it makes:
/// feeding `a` then `b` yields, in all, the lines of `a + b`, and leaves the
/// same unfinished rest.
pub proof fn law_lines_ignore_chunking(a: Seq<u8>, b: Seq<u8>)
    ensures
        scan_lines(a).0 + scan_lines(scan_lines(a).1 + b).0 == scan_lines(a + b).0,
        scan_lines(scan_lines(a).1 + b).1 == scan_lines(a + b).1,
{
    let e = (Seq::<Seq<u8>>::empty(), Seq::<u8>::empty());
    lemma_scan_concat(e, a, b);
    let sa = scan_from(e, a);
    lemma_scan_shift(sa.0, sa.1, b);
    lemma_scan_concat(e, sa.1, b);
    lemma_rest_no_newline(e, a);
    lemma_scan_no_newline(sa.1);
}

proof fn lemma_rest_no_newline(s: (Seq<Seq<u8>>, Seq<u8>), bytes: Seq<u8>)
    requires
        !s.1.contains(10u8),
    ensures
        !scan_from(s, bytes).1.contains(10u8),
    decreases bytes.len(),
{
    if bytes.len() > 0 {
        lemma_rest_no_newline(s, bytes.drop_last());
        let p = scan_from(s, bytes.drop_last());
        if bytes.last() != 10u8 {
            assert(!p.1.push(bytes.last()).contains(10u8)) by {
                if p.1.push(bytes.last()).contains(10u8) {
                    let j = choose|j: int| 0 <= j < p.1.push(bytes.last()).len() && p.1.push(bytes.last())[j] == 10u8;
                    if j < p.1.len() {
                        assert(p.1[j] == 10u8);
                    }
                }
            }
        }
    }
}

/// One event of the stream: its type (when an `event:` line named one) and
/// its data.
#[derive(Clone, Debug)]
pub struct SseEvent {
    pub event: Option<String>,
    pub data: String,
}

/// The event being gathered: its type so far and its `data:` values.
pub struct SseState {
    pub event: Option<Seq<char>>,
    pub data: Seq<Seq<char>>,
}

/// Position of the first `:` in a line.
pub open spec fn colon_index(s: Seq<char>) -> Option<int>
    decreases s.len(),
{
    if s.len() == 0 {
        None
    } else if s[0] == ':' {
        Some(0)
    } else {
        match colon_index(s.drop_first()) {
            Some(i) => Some(i + 1),
            None => None,
        }
    }
}

/// A value without the one space that may follow the colon.
pub open spec fn strip_space(v: Seq<char>) -> Seq<char> {
    if v.len() > 0 && v[0] == ' ' { v.drop_first() } else { v }
}

/// A line's field name and value: split at the first colon; a line without
/// one is a field with an empty value.
pub open spec fn sse_field(line: Seq<char>) -> (Seq<char>, Seq<char>) {
    match colon_index(line) {
        Some(i) => (line.take(i), strip_space(line.skip(i + 1))),
        None => (line, Seq::empty()),
    }
}

/// The data values joined with LF.
pub open spec fn join_data(ds: Seq<Seq<char>>) -> Seq<char>
    decreases ds.len(),
{
    if ds.len() == 0 {
        Seq::empty()
    } else if ds.len() == 1 {
        ds[0]
    } else {
        join_data(ds.drop_last()) + "\n"@ + ds.last()
    }
}

/// One line applied to the event being gathered, and the event it ends (as
/// `(type, data)`): a blank line ends the event when it has data and starts
/// a new one either way; a comment changes nothing; `event` sets the type;
/// `data` adds a value; other fields are ignored.
pub open spec fn sse_step(st: SseState, line: Seq<char>) -> (SseState, Option<(Option<Seq<char>>, Seq<char>)>) {
    if line.len() == 0 {
        (
            SseState { event: None, data: Seq::empty() },
            if st.data.len() > 0 { Some((st.event, join_data(st.data))) } else { None },
        )
    } else if line[0] == ':' {
        (st, None)
    } else {
        let f = sse_field(line);
        if f.0 == "event"@ {
            (SseState { event: Some(f.1), ..st }, None)
        } else if f.0 == "data"@ {
            (SseState { data: st.data.push(f.1), ..st }, None)
        } else {
            (st, None)
        }
    }
}

pub open spec fn sse_event_view(e: Option<SseEvent>) -> Option<(Option<Seq<char>>, Seq<char>)> {
    match e {
        Some(ev) => Some((
            match ev.event {
                Some(t) => Some(t@),
                None => None,
            },
            ev.data@,
        )),
        None => None,
    }
}

/// Gathers lines into events.
pub struct SseParser {
    event: Option<String>,
    data: Vec<String>,
}

fn split_field(line: &str) -> (r: (String, String))
    ensures
        (r.0@, r.1@) == sse_field(line@),
{
    let cs = chars_of(line);
    let mut i: usize = 0;
    assert(line@.skip(0) =~= line@);
    while i < cs.len() && cs[i] != ':'
        invariant
            cs@ == line@,
            0 <= i <= cs@.len(),
            forall|j: int| 0 <= j < i ==> cs@[j] != ':',
            colon_index(line@) == match colon_index(line@.skip(i as int)) {
                Some(k) => Some(k + i),
                None => None,
            },
        decreases cs@.len() - i,
    {
        assert(line@.skip(i as int)[0] == line@[i as int]);
        assert(line@.skip(i as int).drop_first() =~= line@.skip(i + 1));
        i += 1;
    }
    if i == cs.len() {
        assert(line@.skip(i as int) =~= Seq::<char>::empty());
        return (owned(line), String::new());
    }
    assert(line@.skip(i as int)[0] == ':');
    let name = string_from_chars(&cs, 0, i);
    let start = if i + 1 < cs.len() && cs[i + 1] == ' ' { i + 2 } else { i + 1 };
    let value = string_from_chars(&cs, start, cs.len());
    assert(name@ =~= line@.take(i as int));
    assert(value@ =~= strip_space(line@.skip(i + 1)));
    (name, value)
}

impl SseParser {
    pub closed spec fn state(&self) -> SseState {
        SseState {
            event: match self.event {
                Some(t) => Some(t@),
                None => None,
            },
            data: self.data@.map_values(|d: String| d@),
        }
    }

    /// A parser with no event under way.
    pub fn new() -> (r: Self)
        ensures
            r.state() == (SseState { event: None, data: Seq::empty() }),
    {
        let r = SseParser { event: None, data: Vec::new() };
        assert(r.state().data =~= Seq::<Seq<char>>::empty());
        r
    }

    /// Takes one line (without its line end); returns the event it ends.
    pub fn feed_line(&mut self, line: &str) -> (r: Option<SseEvent>)
        ensures
            (final(self).state(), sse_event_view(r)) == sse_step(old(self).state(), line@),
    {
        let ghost st = self.state();
        if line.is_empty() {
            let mut data: Vec<String> = Vec::new();
            std::mem::swap(&mut data, &mut self.data);
            let mut event: Option<String> = None;
            std::mem::swap(&mut event, &mut self.event);
            assert(self.state().data =~= Seq::<Seq<char>>::empty());
            if data.len() == 0 {
                return None;
            }
            let ghost dv = data@.map_values(|d: String| d@);
            let mut joined = data[0].clone();
            let mut k: usize = 1;
            assert(dv.take(1).drop_last() =~= Seq::<Seq<char>>::empty());
            while k < data.len()
                invariant
                    dv == data@.map_values(|d: String| d@),
                    1 <= k <= data@.len(),
                    joined@ == join_data(dv.take(k as int)),
                decreases data@.len() - k,
            {
                joined.append("\n");
                joined.append(data[k].as_str());
                assert(dv.take(k + 1).drop_last() =~= dv.take(k as int));
                k += 1;
            }
            assert(dv.take(data@.len() as int) =~= dv);
            return Some(SseEvent { event, data: joined });
        }
        let cs = chars_of(line);
        if cs[0] == ':' {
            return None;
        }
        let (name, value) = split_field(line);
        if crate::text::str_eq(name.as_str(), "event") {
            self.event = Some(value);
        } else if crate::text::str_eq(name.as_str(), "data") {
            let ghost before = self.data@;
            self.data.push(value);
            assert(self.data@.map_values(|d: String| d@) =~= before.map_values(|d: String| d@).push(value@));
        }
        None
    }
}

} // verus!
