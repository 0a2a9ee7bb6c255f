//! A model of `/`-separated filesystem paths as sequences of components.
//!
//! A path is read the way `std::path::Path::components` reads a Unix path: a
//! leading `/` becomes a root component (written here as the one-character
//! sequence `"/"`), a leading `.` becomes a current-directory component,
//! repeated separators and interior `.` segments vanish, and every other
//! segment (including `..`) is kept in order.

use vstd::prelude::*;
use crate::text::{chars_of, push_char};

verus! {

/// The root component, as it appears in a component list.
pub open spec fn root_comp() -> Seq<char> {
    seq!['/']
}

/// The current-directory component (`.`), kept only at the start of a path.
pub open spec fn cur_comp() -> Seq<char> {
    seq!['.']
}

/// The parent-directory component (`..`).
pub open spec fn parent_comp() -> Seq<char> {
    seq!['.', '.']
}

pub open spec fn is_absolute(p: Seq<char>) -> bool {
    p.len() > 0 && p[0] == '/'
}

/// A relative path that begins with a `.` segment (`.` or `./...`).
pub open spec fn starts_with_cur_dir(p: Seq<char>) -> bool {
    !is_absolute(p) && p.len() > 0 && p[0] == '.' && (p.len() == 1 || p[1] == '/')
}

/// A segment that survives as a component (not empty, not `.`).
pub open spec fn is_segment_kept(c: Seq<char>) -> bool {
    c.len() > 0 && c != cur_comp()
}

pub open spec fn flush(done: Seq<Seq<char>>, cur: Seq<char>) -> Seq<Seq<char>> {
    if is_segment_kept(cur) {
        done.push(cur)
    } else {
        done
    }
}

/// Left-to-right scan state: the segments completed so far and the one in progress.
pub open spec fn scan(p: Seq<char>) -> (Seq<Seq<char>>, Seq<char>)
    decreases p.len(),
{
    if p.len() == 0 {
        (seq![], seq![])
    } else {
        let (d, c) = scan(p.drop_last());
        if p.last() == '/' {
            (flush(d, c), seq![])
        } else {
            (d, c.push(p.last()))
        }
    }
}

/// The non-root, non-leading-`.` components of `p`, in order.
pub open spec fn segments(p: Seq<char>) -> Seq<Seq<char>> {
    flush(scan(p).0, scan(p).1)
}

/// Every component of `p`, as `Path::components` yields them.
pub open spec fn components(p: Seq<char>) -> Seq<Seq<char>> {
    if is_absolute(p) {
        seq![root_comp()] + segments(p)
    } else if starts_with_cur_dir(p) {
        seq![cur_comp()] + segments(p)
    } else {
        segments(p)
    }
}

/// Component-wise prefix (`Path::starts_with`).
pub open spec fn comps_start_with(p: Seq<Seq<char>>, base: Seq<Seq<char>>) -> bool {
    base.len() <= p.len() && p.take(base.len() as int) == base
}

pub open spec fn path_starts_with(p: Seq<char>, base: Seq<char>) -> bool {
    comps_start_with(components(p), components(base))
}

/// One step of lexical normalisation: `.` is dropped; `..` removes the last
/// non-root component, is dropped at the root (nothing lies above it), and is
/// kept at the start of a relative path; anything else is kept.
pub open spec fn normalize_step(out: Seq<Seq<char>>, c: Seq<char>) -> Seq<Seq<char>> {
    if c == cur_comp() {
        out
    } else if c == parent_comp() {
        if out.len() > 0 && out.last() != root_comp() {
            out.drop_last()
        } else if out.len() > 0 {
            out
        } else {
            out.push(c)
        }
    } else {
        out.push(c)
    }
}

/// Lexical normalisation of a component list (no filesystem access).
pub open spec fn normalize(cs: Seq<Seq<char>>) -> Seq<Seq<char>>
    decreases cs.len(),
{
    if cs.len() == 0 {
        seq![]
    } else {
        normalize_step(normalize(cs.drop_last()), cs.last())
    }
}

/// Components joined by `/`.
pub open spec fn join_slash(cs: Seq<Seq<char>>) -> Seq<char>
    decreases cs.len(),
{
    if cs.len() == 0 {
        seq![]
    } else if cs.len() == 1 {
        cs[0]
    } else {
        join_slash(cs.drop_last()) + seq!['/'] + cs.last()
    }
}

/// The path text for a component list.
pub open spec fn render(cs: Seq<Seq<char>>) -> Seq<char> {
    if cs.len() > 0 && cs[0] == root_comp() {
        seq!['/'] + join_slash(cs.drop_first())
    } else {
        join_slash(cs)
    }
}

/// `PathBuf::join` on Unix: an absolute `p` replaces `base`; otherwise a `/`
/// is inserted unless `base` is empty or already ends in one.
pub open spec fn join_path(base: Seq<char>, p: Seq<char>) -> Seq<char> {
    if is_absolute(p) {
        p
    } else if base.len() == 0 || base.last() == '/' {
        base + p
    } else {
        base + seq!['/'] + p
    }
}

pub open spec fn views(v: Seq<String>) -> Seq<Seq<char>> {
    v.map_values(|s: String| s@)
}

proof fn lemma_scan_step(p: Seq<char>, i: int)
    requires
        0 <= i < p.len(),
    ensures
        scan(p.take(i + 1)) == (if p[i] == '/' {
            (flush(scan(p.take(i)).0, scan(p.take(i)).1), seq![])
        } else {
            (scan(p.take(i)).0, scan(p.take(i)).1.push(p[i]))
        }),
{
    assert(p.take(i + 1).drop_last() =~= p.take(i));
}

/// Scanning `a + b`, where `a` ends between segments, scans `b` afresh after
/// the segments of `a`.
pub proof fn lemma_scan_concat(a: Seq<char>, b: Seq<char>)
    requires
        scan(a).1.len() == 0,
    ensures
        scan(a + b).0 == scan(a).0 + scan(b).0,
        scan(a + b).1 == scan(b).1,
    decreases b.len(),
{
    if b.len() == 0 {
        assert(a + b =~= a);
        assert(scan(a).0 + scan(b).0 =~= scan(a).0);
        assert(scan(a).1 =~= scan(b).1);
    } else {
        lemma_scan_concat(a, b.drop_last());
        assert((a + b).drop_last() =~= a + b.drop_last());
        assert((a + b).last() == b.last());
        let d = scan(a).0;
        let d2 = scan(b.drop_last()).0;
        let c2 = scan(b.drop_last()).1;
        if is_segment_kept(c2) {
            assert((d + d2).push(c2) =~= d + d2.push(c2));
        }
        assert(flush(d + d2, c2) == d + flush(d2, c2));
    }
}

/// The segments of `a + b`, where `a` ends between segments.
pub proof fn lemma_segments_concat(a: Seq<char>, b: Seq<char>)
    requires
        scan(a).1.len() == 0,
    ensures
        segments(a + b) == scan(a).0 + segments(b),
{
    lemma_scan_concat(a, b);
    let d = scan(a).0;
    let d2 = scan(b).0;
    let c2 = scan(b).1;
    if is_segment_kept(c2) {
        assert((d + d2).push(c2) =~= d + d2.push(c2));
    }
}

/// Normalising keeps a leading root and first segment when no later
/// component is `..`.
pub proof fn lemma_normalize_keeps_head(cs: Seq<Seq<char>>)
    requires
        cs.len() >= 2,
        cs[0] == root_comp(),
        cs[1] != cur_comp() && cs[1] != parent_comp() && cs[1] != root_comp(),
        forall|i: int| 2 <= i < cs.len() ==> cs[i] != parent_comp(),
    ensures
        normalize(cs).len() >= 2,
        normalize(cs).take(2) == cs.take(2),
    decreases cs.len(),
{
    if cs.len() == 2 {
        assert(cs.drop_last().drop_last() =~= Seq::<Seq<char>>::empty());
        assert(cs.drop_last().last() == root_comp());
        assert(root_comp() != cur_comp()) by {
            assert(root_comp()[0] != cur_comp()[0]);
        }
        assert(normalize(cs.drop_last().drop_last()) =~= Seq::<Seq<char>>::empty());
        assert(root_comp() != parent_comp()) by {
            assert(root_comp().len() != parent_comp().len());
        }
        assert(normalize(cs.drop_last()) =~= seq![root_comp()]);
        assert(normalize(cs) =~= seq![root_comp(), cs[1]]);
        assert(cs.take(2) =~= seq![root_comp(), cs[1]]);
    } else {
        let prev = cs.drop_last();
        lemma_normalize_keeps_head(prev);
        assert(cs.last() == cs[cs.len() - 1]);
        let n = normalize(prev);
        if cs.last() != cur_comp() {
            assert(n.push(cs.last()).take(2) =~= n.take(2));
        }
        assert(prev.take(2) =~= cs.take(2));
    }
}

fn is_kept_exec(cur: &Vec<char>) -> (r: bool)
    ensures
        r == is_segment_kept(cur@),
{
    if cur.len() == 0 {
        false
    } else if cur.len() == 1 && cur[0] == '.' {
        assert(cur@ =~= cur_comp());
        false
    } else {
        assert(cur@ != cur_comp()) by {
            if cur@.len() == 1 {
                assert(cur@[0] != '.');
            }
        }
        true
    }
}

/// `Path::components` of `p`, each component as a `String`.
pub fn components_of(p: &str) -> (r: Vec<String>)
    ensures
        views(r@) == components(p@),
{
    let cs = chars_of(p);
    let mut done: Vec<String> = Vec::new();
    let mut cur: Vec<char> = Vec::new();
    let mut i: usize = 0;
    assert(p@.take(0) =~= Seq::<char>::empty());
    while i < cs.len()
        invariant
            cs@ == p@,
            0 <= i <= cs@.len(),
            views(done@) == scan(p@.take(i as int)).0,
            cur@ == scan(p@.take(i as int)).1,
        decreases cs@.len() - i,
    {
        proof { lemma_scan_step(p@, i as int); }
        if cs[i] == '/' {
            if is_kept_exec(&cur) {
                let n = cur.len();
                let seg = crate::text::string_from_chars(&cur, 0, n);
                assert(cur@.subrange(0, n as int) =~= cur@);
                let ghost before = views(done@);
                done.push(seg);
                assert(views(done@) =~= before.push(cur@));
            }
            cur = Vec::new();
            assert(cur@ =~= Seq::<char>::empty());
        } else {
            cur.push(cs[i]);
        }
        i += 1;
    }
    assert(p@.take(cs@.len() as int) =~= p@);
    if is_kept_exec(&cur) {
        let n = cur.len();
        let seg = crate::text::string_from_chars(&cur, 0, n);
        assert(cur@.subrange(0, n as int) =~= cur@);
        done.push(seg);
        assert(views(done@) =~= segments(p@));
    } else {
        assert(views(done@) =~= segments(p@));
    }
    let mut out: Vec<String> = Vec::new();
    if cs.len() > 0 && cs[0] == '/' {
        let r = crate::text::owned("/");
        proof { reveal_strlit("/"); }
        assert(r@ =~= root_comp());
        out.push(r);
        assert(views(out@) =~= seq![root_comp()]);
    } else if cs.len() > 0 && cs[0] == '.' && (cs.len() == 1 || cs[1] == '/') {
        let d = crate::text::owned(".");
        proof { reveal_strlit("."); }
        assert(d@ =~= cur_comp());
        out.push(d);
        assert(views(out@) =~= seq![cur_comp()]);
    }
    assert(views(out@) + views(done@) =~= components(p@));
    let mut k: usize = 0;
    let ghost start = views(out@);
    while k < done.len()
        invariant
            0 <= k <= done@.len(),
            views(out@) == start + views(done@).take(k as int),
        decreases done@.len() - k,
    {
        let item = done[k].clone();
        let ghost before = views(out@);
        out.push(item);
        assert(views(out@) =~= before.push(done@[k as int]@));
        assert(views(done@).take(k + 1) =~= views(done@).take(k as int).push(done@[k as int]@));
        assert(views(out@) =~= start + views(done@).take(k + 1));
        k += 1;
    }
    assert(views(done@).take(done@.len() as int) =~= views(done@));
    out
}


/// Lexical normalisation of a component list (`.`/`..` resolved textually).
pub fn normalize_comps(cs: &Vec<String>) -> (r: Vec<String>)
    ensures
        views(r@) == normalize(views(cs@)),
{
    let mut out: Vec<String> = Vec::new();
    let mut i: usize = 0;
    assert(views(cs@).take(0) =~= Seq::<Seq<char>>::empty());
    while i < cs.len()
        invariant
            0 <= i <= cs@.len(),
            views(out@) == normalize(views(cs@).take(i as int)),
        decreases cs@.len() - i,
    {
        let c = &cs[i];
        let ghost prev = views(out@);
        assert(views(cs@).take(i + 1).drop_last() =~= views(cs@).take(i as int));
        assert(views(cs@).take(i + 1).last() == c@);
        proof {
            reveal_strlit(".");
            reveal_strlit("..");
            reveal_strlit("/");
            assert("."@ =~= cur_comp());
            assert(".."@ =~= parent_comp());
            assert("/"@ =~= root_comp());
        }
        if crate::text::str_eq(c.as_str(), ".") {
            assert(c@ =~= cur_comp());
        } else if crate::text::str_eq(c.as_str(), "..") {
            assert(c@ =~= parent_comp());
            let n = out.len();
            if n > 0 {
                let at_root = crate::text::str_eq(out[n - 1].as_str(), "/");
                if !at_root {
                    assert(out@[n - 1]@ != root_comp());
                    out.pop();
                    assert(views(out@) =~= prev.drop_last());
                } else {
                    assert(out@[n - 1]@ =~= root_comp());
                }
            } else {
                out.push(c.clone());
                assert(views(out@) =~= prev.push(c@));
            }
        } else {
            assert(c@ != cur_comp());
            assert(c@ != parent_comp());
            out.push(c.clone());
            assert(views(out@) =~= prev.push(c@));
        }
        i += 1;
    }
    assert(views(cs@).take(cs@.len() as int) =~= views(cs@));
    out
}

/// The path text of a component list (inverse of `components_of` on
/// normalised input).
pub fn render_comps(cs: &Vec<String>) -> (r: String)
    ensures
        r@ == render(views(cs@)),
{
    proof {
        reveal_strlit("/");
        assert("/"@ =~= root_comp());
    }
    let mut start: usize = 0;
    let mut out = String::new();
    if cs.len() > 0 && crate::text::str_eq(cs[0].as_str(), "/") {
        push_char(&mut out, '/');
        start = 1;
    }
    let ghost rest = views(cs@).subrange(start as int, cs@.len() as int);
    let ghost prefix = out@;
    proof {
        if start == 1 {
            assert(views(cs@)[0] =~= root_comp());
            assert(rest =~= views(cs@).drop_first());
            assert(prefix =~= seq!['/']);
        } else {
            assert(rest =~= views(cs@));
            assert(prefix =~= Seq::<char>::empty());
        }
    }
    let mut i = start;
    while i < cs.len()
        invariant
            start <= i <= cs@.len(),
            start <= 1,
            rest == views(cs@).subrange(start as int, cs@.len() as int),
            out@ == prefix + join_slash(rest.take(i - start)),
        decreases cs@.len() - i,
    {
        if i > start {
            push_char(&mut out, '/');
        }
        out.append(cs[i].as_str());
        let ghost k = i - start;
        assert(rest.take(k + 1).drop_last() =~= rest.take(k));
        assert(rest.take(k + 1).last() == cs@[i as int]@);
        proof {
            if k == 0 {
                assert(rest.take(1) =~= seq![cs@[i as int]@]);
                assert(join_slash(rest.take(0)) =~= Seq::<char>::empty());
            }
        }
        assert(out@ =~= prefix + join_slash(rest.take(k + 1)));
        i += 1;
    }
    assert(rest.take(cs@.len() - start) =~= rest);
    out
}

/// `PathBuf::join` on Unix paths.
pub fn join_path_exec(base: &str, p: &str) -> (r: String)
    ensures
        r@ == join_path(base@, p@),
{
    let pc = chars_of(p);
    if pc.len() > 0 && pc[0] == '/' {
        return p.to_owned();
    }
    let bc = chars_of(base);
    let mut out = base.to_owned();
    if bc.len() > 0 && bc[bc.len() - 1] != '/' {
        push_char(&mut out, '/');
    }
    out.append(p);
    out
}

/// Whether `p` begins with all of `base`, component by component.
pub fn comps_start_with_exec(p: &Vec<String>, base: &Vec<String>) -> (r: bool)
    ensures
        r == comps_start_with(views(p@), views(base@)),
        r == (base@.len() <= p@.len() && forall|i: int| 0 <= i < base@.len() ==> #[trigger] p@[i]@ == base@[i]@),
{
    if base.len() > p.len() {
        return false;
    }
    let mut i: usize = 0;
    while i < base.len()
        invariant
            base@.len() <= p@.len(),
            0 <= i <= base@.len(),
            forall|j: int| 0 <= j < i ==> p@[j]@ == base@[j]@,
        decreases base@.len() - i,
    {
        if !crate::text::str_eq(p[i].as_str(), base[i].as_str()) {
            assert(views(p@).take(base@.len() as int)[i as int] != views(base@)[i as int]);
            return false;
        }
        i += 1;
    }
    assert(views(p@).take(base@.len() as int) =~= views(base@));
    true
}

/// A path begins with `base` exactly when every component of `base` is the
/// component at the same position of the path: a root is matched in full,
/// never by its first components only.
pub proof fn law_prefix_matches_every_component(p: Seq<Seq<char>>, base: Seq<Seq<char>>)
    ensures
        comps_start_with(p, base) <==> (base.len() <= p.len() && forall|i: int| 0 <= i < base.len() ==> #[trigger] p[i] == base[i]),
{
    if base.len() <= p.len() && forall|i: int| 0 <= i < base.len() ==> #[trigger] p[i] == base[i] {
        assert(p.take(base.len() as int) =~= base);
    }
    if comps_start_with(p, base) {
        assert forall|i: int| 0 <= i < base.len() implies #[trigger] p[i] == base[i] by {
            assert(p.take(base.len() as int)[i] == p[i]);
        }
    }
}

/// An ordinary component: not the root, `.` or `..`.
pub open spec fn is_plain_comp(c: Seq<char>) -> bool {
    c != root_comp() && c != cur_comp() && c != parent_comp()
}

proof fn lemma_special_comps_distinct()
    ensures
        root_comp() != cur_comp(),
        root_comp() != parent_comp(),
        cur_comp() != parent_comp(),
{
    assert(root_comp()[0] != cur_comp()[0]);
    assert(root_comp().len() != parent_comp().len());
    assert(cur_comp().len() != parent_comp().len());
}

/// `..` undoes an ordinary component: normalising `cs` followed by `x` and
/// `..` gives what normalising `cs` gives.
pub proof fn law_parent_undoes_child(cs: Seq<Seq<char>>, x: Seq<char>)
    requires
        is_plain_comp(x),
    ensures
        normalize(cs.push(x).push(parent_comp())) == normalize(cs),
{
    lemma_special_comps_distinct();
    assert(cs.push(x).push(parent_comp()).drop_last() =~= cs.push(x));
    assert(cs.push(x).drop_last() =~= cs);
    assert(normalize(cs.push(x)) == normalize(cs).push(x));
    assert(normalize(cs).push(x).drop_last() =~= normalize(cs));
}

/// Normalising an absolute path leaves the root first and no `.` or `..`
/// anywhere after it: every `.` is gone and every `..` has either removed
/// the component before it or, at the root, been dropped.
pub proof fn law_normalized_absolute_has_no_dots(cs: Seq<Seq<char>>)
    requires
        cs.len() > 0,
        cs[0] == root_comp(),
        forall|i: int| 1 <= i < cs.len() ==> #[trigger] cs[i] != root_comp(),
    ensures
        normalize(cs).len() > 0,
        normalize(cs)[0] == root_comp(),
        forall|i: int| 1 <= i < normalize(cs).len() ==> is_plain_comp(#[trigger] normalize(cs)[i]),
    decreases cs.len(),
{
    lemma_special_comps_distinct();
    if cs.len() == 1 {
        assert(cs.drop_last() =~= Seq::<Seq<char>>::empty());
        assert(normalize(cs.drop_last()) =~= Seq::<Seq<char>>::empty());
        assert(cs.last() == root_comp());
        assert(normalize(cs) =~= seq![root_comp()]);
    } else {
        let prev = cs.drop_last();
        assert forall|i: int| 1 <= i < prev.len() implies #[trigger] prev[i] != root_comp() by {
            assert(prev[i] == cs[i]);
        }
        law_normalized_absolute_has_no_dots(prev);
        let n = normalize(prev);
        let c = cs.last();
        assert(c == cs[cs.len() - 1]);
        if c == parent_comp() {
            if n.last() != root_comp() {
                assert forall|i: int| 1 <= i < n.drop_last().len() implies is_plain_comp(#[trigger] n.drop_last()[i]) by {
                    assert(n.drop_last()[i] == n[i]);
                }
                assert(n.len() > 1);
            }
        } else if c != cur_comp() {
            assert forall|i: int| 1 <= i < n.push(c).len() implies is_plain_comp(#[trigger] n.push(c)[i]) by {
                if i < n.len() {
                    assert(n.push(c)[i] == n[i]);
                }
            }
        }
    }
}

} // verus!
