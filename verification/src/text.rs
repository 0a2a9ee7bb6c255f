//! Character-level string helpers used throughout the library.

use vstd::prelude::*;

verus! {

/// Appends one character to a `String` (`String::push`).
#[verifier::external_body]
pub(crate) fn push_char(s: &mut String, c: char)
    ensures
        final(s)@ == old(s)@.push(c),
{
    s.push(c);
}

/// The characters of `s`, in order.
pub fn chars_of(s: &str) -> (r: Vec<char>)
    ensures
        r@ == s@,
{
    let mut out: Vec<char> = Vec::new();
    for c in it: s.chars()
        invariant
            out@ == it.seq().take(it.index() as int),
            it.seq() == s@,
    {
        out.push(c);
    }
    out
}

/// Builds a `String` holding exactly the characters `cs[from..to]`.
pub fn string_from_chars(cs: &Vec<char>, from: usize, to: usize) -> (r: String)
    requires
        from <= to <= cs@.len(),
    ensures
        r@ == cs@.subrange(from as int, to as int),
{
    let mut out = String::new();
    let mut i = from;
    while i < to
        invariant
            from <= i <= to <= cs@.len(),
            out@ == cs@.subrange(from as int, i as int),
        decreases to - i,
    {
        push_char(&mut out, cs[i]);
        i += 1;
        assert(out@ =~= cs@.subrange(from as int, i as int));
    }
    out
}

/// A fresh `String` with the same characters as `s`.
pub fn owned(s: &str) -> (r: String)
    ensures
        r@ == s@,
{
    s.to_owned()
}

/// `a` followed by `b`, as a new `String`.
pub fn concat2(a: &str, b: &str) -> (r: String)
    ensures
        r@ == a@ + b@,
{
    let mut out = a.to_owned();
    out.append(b);
    out
}

/// `a`, `b` and `c` concatenated.
pub fn concat3(a: &str, b: &str, c: &str) -> (r: String)
    ensures
        r@ == a@ + b@ + c@,
{
    let mut out = a.to_owned();
    out.append(b);
    out.append(c);
    out
}

/// `a` through `d` concatenated.
pub fn concat4(a: &str, b: &str, c: &str, d: &str) -> (r: String)
    ensures
        r@ == a@ + b@ + c@ + d@,
{
    let mut out = a.to_owned();
    out.append(b);
    out.append(c);
    out.append(d);
    out
}

/// `a` through `e` concatenated.
pub fn concat5(a: &str, b: &str, c: &str, d: &str, e: &str) -> (r: String)
    ensures
        r@ == a@ + b@ + c@ + d@ + e@,
{
    let mut out = a.to_owned();
    out.append(b);
    out.append(c);
    out.append(d);
    out.append(e);
    out
}

/// Character-wise equality of two strings.
pub fn str_eq(a: &str, b: &str) -> (r: bool)
    ensures
        r == (a@ == b@),
{
    let x = chars_of(a);
    let y = chars_of(b);
    if x.len() != y.len() {
        return false;
    }
    let mut i: usize = 0;
    while i < x.len()
        invariant
            x@ == a@,
            y@ == b@,
            x@.len() == y@.len(),
            0 <= i <= x@.len(),
            forall|j: int| 0 <= j < i ==> x@[j] == y@[j],
        decreases x@.len() - i,
    {
        if x[i] != y[i] {
            return false;
        }
        i += 1;
    }
    assert(x@ =~= y@);
    true
}

/// Whether `c` occurs in `s`.
pub fn contains_char(s: &str, c: char) -> (r: bool)
    ensures
        r == s@.contains(c),
{
    let cs = chars_of(s);
    let mut i: usize = 0;
    while i < cs.len()
        invariant
            cs@ == s@,
            0 <= i <= cs@.len(),
            forall|j: int| 0 <= j < i ==> cs@[j] != c,
        decreases cs@.len() - i,
    {
        if cs[i] == c {
            return true;
        }
        i += 1;
    }
    false
}

/// Whether the sequence `pat` occurs as a contiguous run inside `s`.
pub open spec fn has_infix(s: Seq<char>, pat: Seq<char>) -> bool {
    exists|i: int| 0 <= i && i + pat.len() <= s.len() && #[trigger] s.subrange(i, i + pat.len()) == pat
}

/// Whether `pat` occurs as a contiguous run of characters inside `s`.
pub fn contains_str(s: &str, pat: &str) -> (r: bool)
    ensures
        r == has_infix(s@, pat@),
{
    let cs = chars_of(s);
    let ps = chars_of(pat);
    if ps.len() > cs.len() {
        assert forall|i: int| 0 <= i && i + ps@.len() <= cs@.len() implies
            #[trigger] cs@.subrange(i, i + ps@.len()) != ps@ by {}
        return false;
    }
    let last = cs.len() - ps.len();
    let mut i: usize = 0;
    loop
        invariant
            cs@ == s@,
            ps@ == pat@,
            ps@.len() <= cs@.len(),
            last == cs@.len() - ps@.len(),
            0 <= i <= last,
            forall|k: int| 0 <= k < i ==> #[trigger] cs@.subrange(k, k + ps@.len()) != ps@,
        decreases last - i,
    {
        let mut j: usize = 0;
        let mut ok = true;
        while j < ps.len()
            invariant
                cs@ == s@,
                ps@ == pat@,
                i <= last,
                cs@.len() == cs.len(),
                ps@.len() <= cs@.len(),
                last == cs@.len() - ps@.len(),
                0 <= j <= ps@.len(),
                ok == (forall|m: int| 0 <= m < j ==> cs@[i + m] == ps@[m]),
            decreases ps@.len() - j,
        {
            if cs[i + j] != ps[j] {
                ok = false;
            }
            j += 1;
        }
        if ok {
            assert(cs@.subrange(i as int, i + ps@.len()) =~= ps@);
            return true;
        }
        assert(cs@.subrange(i as int, i + ps@.len()) != ps@) by {
            let m = choose|m: int| 0 <= m < ps@.len() && cs@[i + m] != ps@[m];
            assert(cs@.subrange(i as int, i + ps@.len())[m] != ps@[m]);
        }
        if i == last {
            assert forall|k: int| 0 <= k && k + ps@.len() <= cs@.len() implies
                #[trigger] cs@.subrange(k, k + ps@.len()) != ps@ by {
                assert(k <= i);
            }
            return false;
        }
        i += 1;
    }
}

/// `s` with every trailing `c` removed.
pub open spec fn trim_end_char(s: Seq<char>, c: char) -> Seq<char>
    decreases s.len(),
{
    if s.len() > 0 && s.last() == c {
        trim_end_char(s.drop_last(), c)
    } else {
        s
    }
}

/// `str::trim_end_matches` with a single-character pattern.
pub fn trim_end_matches_char(s: &str, c: char) -> (r: String)
    ensures
        r@ == trim_end_char(s@, c),
{
    let cs = chars_of(s);
    let mut n = cs.len();
    assert(cs@.take(n as int) =~= cs@);
    while n > 0 && cs[n - 1] == c
        invariant
            cs@ == s@,
            n <= cs@.len(),
            trim_end_char(cs@.take(n as int), c) == trim_end_char(s@, c),
        decreases n,
    {
        assert(cs@.take((n - 1) as int) =~= cs@.take(n as int).drop_last());
        n -= 1;
    }
    assert(cs@.take(cs@.len() as int) =~= cs@);
    string_from_chars(&cs, 0, n)
}

/// Decimal digits of a natural number, most significant first.
pub open spec fn decimal(n: nat) -> Seq<char>
    decreases n,
{
    if n < 10 {
        seq![digit_char(n)]
    } else {
        decimal(n / 10).push(digit_char(n % 10))
    }
}

/// The ASCII digit for a value below ten.
pub open spec fn digit_char(d: nat) -> char {
    if d == 0 { '0' }
    else if d == 1 { '1' }
    else if d == 2 { '2' }
    else if d == 3 { '3' }
    else if d == 4 { '4' }
    else if d == 5 { '5' }
    else if d == 6 { '6' }
    else if d == 7 { '7' }
    else if d == 8 { '8' }
    else { '9' }
}

fn digit_char_exec(d: u64) -> (c: char)
    requires
        d < 10,
    ensures
        c == digit_char(d as nat),
{
    if d == 0 { '0' }
    else if d == 1 { '1' }
    else if d == 2 { '2' }
    else if d == 3 { '3' }
    else if d == 4 { '4' }
    else if d == 5 { '5' }
    else if d == 6 { '6' }
    else if d == 7 { '7' }
    else if d == 8 { '8' }
    else { '9' }
}

/// Decimal rendering of `n` (as `format!("{n}")` gives it).
pub fn u64_to_decimal(n: u64) -> (r: String)
    ensures
        r@ == decimal(n as nat),
    decreases n,
{
    if n < 10 {
        let mut s = String::new();
        push_char(&mut s, digit_char_exec(n));
        assert(s@ =~= decimal(n as nat));
        s
    } else {
        let mut s = u64_to_decimal(n / 10);
        push_char(&mut s, digit_char_exec(n % 10));
        s
    }
}

/// Decimal rendering of a signed value (a leading `-` for negatives).
pub open spec fn signed_decimal(n: int) -> Seq<char> {
    if n < 0 {
        seq!['-'] + decimal((-n) as nat)
    } else {
        decimal(n as nat)
    }
}

/// Decimal rendering of `n` (as `format!("{n}")` gives it).
pub fn i32_to_decimal(n: i32) -> (r: String)
    ensures
        r@ == signed_decimal(n as int),
{
    if n < 0 {
        let m: u64 = (-(n as i64)) as u64;
        let digits = u64_to_decimal(m);
        let mut s = String::new();
        push_char(&mut s, '-');
        s.append(digits.as_str());
        assert(s@ =~= signed_decimal(n as int));
        s
    } else {
        u64_to_decimal(n as u64)
    }
}

/// Bytes in the UTF-8 encoding of a character sequence (`str::len`).
pub open spec fn utf8_len(s: Seq<char>) -> nat {
    vstd::utf8::encode_utf8(s).len()
}

} // verus!
