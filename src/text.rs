//! Character-level helpers on strings: substitution, replacement, splitting
//! and percent-encoding.

use vstd::prelude::*;
use vstd::string::*;

verus! {

/// Relies on `String::push`: appends one character at the end.
#[verifier::external_body]
pub(crate) fn push_char(s: &mut String, c: char)
    ensures
        final(s)@ == old(s)@.push(c),
{
    s.push(c);
}

/// `s` with each occurrence of `pat`, scanned left to right without overlap,
/// replaced by `rep`.
pub open spec fn replaced(s: Seq<char>, pat: Seq<char>, rep: Seq<char>) -> Seq<char>
    decreases s.len(),
{
    if s.len() == 0 {
        s
    } else if 0 < pat.len() <= s.len() && s.subrange(0, pat.len() as int) == pat {
        rep + replaced(s.subrange(pat.len() as int, s.len() as int), pat, rep)
    } else {
        seq![s[0]] + replaced(s.subrange(1, s.len() as int), pat, rep)
    }
}

/// `s` with every `from` character turned into `to`.
pub open spec fn mapped_char(s: Seq<char>, from: char, to: char) -> Seq<char> {
    s.map_values(|c: char| if c == from { to } else { c })
}

/// Does `pat` occur in `s` at position `i`?
fn occurs_at(s: &str, n: usize, i: usize, pat: &str, m: usize) -> (r: bool)
    requires
        n == s@.len(),
        m == pat@.len(),
        i <= n,
    ensures
        r == (i + m <= n && s@.subrange(i as int, i + m) == pat@),
{
    if m > n - i {
        return false;
    }
    let mut k: usize = 0;
    while k < m
        invariant
            i + m <= n,
            n == s@.len(),
            m == pat@.len(),
            k <= m,
            forall|j: int| 0 <= j < k ==> s@[i + j] == pat@[j],
        decreases m - k,
    {
        if s.get_char(i + k) != pat.get_char(k) {
            assert(s@.subrange(i as int, i + m)[k as int] != pat@[k as int]);
            return false;
        }
        k = k + 1;
    }
    assert(s@.subrange(i as int, i + m) =~= pat@);
    true
}

/// Replaces every occurrence of `pat` in `s` by `rep`.
pub fn substitute(s: &str, pat: &str, rep: &str) -> (r: String)
    ensures
        r@ == replaced(s@, pat@, rep@),
{
    let n = s.unicode_len();
    let m = pat.unicode_len();
    let mut out = String::new();
    let mut i: usize = 0;
    assert(s@.subrange(0, n as int) =~= s@);
    assert(out@ + replaced(s@, pat@, rep@) =~= replaced(s@, pat@, rep@));
    while i < n
        invariant
            n == s@.len(),
            m == pat@.len(),
            i <= n,
            out@ + replaced(s@.subrange(i as int, n as int), pat@, rep@) == replaced(s@, pat@, rep@),
        decreases n - i,
    {
        let ghost rest = s@.subrange(i as int, n as int);
        let ghost before = out@;
        if m > 0 && occurs_at(s, n, i, pat, m) {
            assert(rest.subrange(0, m as int) =~= s@.subrange(i as int, i + m));
            assert(rest.subrange(m as int, rest.len() as int) =~= s@.subrange(i + m, n as int));
            out.append(rep);
            i = i + m;
            assert(out@ + replaced(s@.subrange(i as int, n as int), pat@, rep@) =~= before + replaced(rest, pat@, rep@));
        } else {
            proof {
                if 0 < m && m <= rest.len() {
                    assert(rest.subrange(0, m as int) =~= s@.subrange(i as int, i + m));
                }
            }
            assert(rest.subrange(1, rest.len() as int) =~= s@.subrange(i + 1, n as int));
            let c = s.get_char(i);
            push_char(&mut out, c);
            i = i + 1;
            assert(out@ + replaced(s@.subrange(i as int, n as int), pat@, rep@) =~= before + replaced(rest, pat@, rep@));
        }
    }
    assert(s@.subrange(n as int, n as int).len() == 0);
    assert(out@ + seq![] =~= out@);
    out
}

/// Turns every `from` character of `s` into `to`.
pub fn replace_char(s: &str, from: char, to: char) -> (r: String)
    ensures
        r@ == mapped_char(s@, from, to),
{
    let n = s.unicode_len();
    let mut out = String::new();
    let mut i: usize = 0;
    while i < n
        invariant
            n == s@.len(),
            i <= n,
            out@ == mapped_char(s@.subrange(0, i as int), from, to),
        decreases n - i,
    {
        let c = s.get_char(i);
        if c == from {
            push_char(&mut out, to);
        } else {
            push_char(&mut out, c);
        }
        i = i + 1;
        assert(out@ =~= mapped_char(s@.subrange(0, i as int), from, to));
    }
    assert(s@.subrange(0, n as int) =~= s@);
    out
}

/// `c` equals `w`, or is the ASCII capital of it.
pub open spec fn same_letter(c: char, w: char) -> bool {
    c == w || ('A' <= c <= 'Z' && (c as u32) + 32 == (w as u32))
}

/// `w` (in lower case) occurs in `t` at `i`, ignoring ASCII case.
pub open spec fn mentions_at(t: Seq<char>, w: Seq<char>, i: int) -> bool {
    0 <= i && i + w.len() <= t.len() && forall|j: int| 0 <= j < w.len() ==> same_letter(#[trigger] t[i + j], w[j])
}

/// `w` (in lower case) occurs in `t`, ignoring ASCII case.
pub open spec fn mentions(t: Seq<char>, w: Seq<char>) -> bool {
    exists|i: int| mentions_at(t, w, i)
}

fn letter_matches(c: char, w: char) -> (r: bool)
    ensures
        r == same_letter(c, w),
{
    c == w || ('A' <= c && c <= 'Z' && (c as u32) + 32 == (w as u32))
}

fn mentions_here(t: &str, n: usize, i: usize, w: &str, m: usize) -> (r: bool)
    requires
        n == t@.len(),
        m == w@.len(),
        i + m <= n,
    ensures
        r == mentions_at(t@, w@, i as int),
{
    let mut j: usize = 0;
    while j < m
        invariant
            n == t@.len(),
            m == w@.len(),
            i + m <= n,
            j <= m,
            forall|k: int| 0 <= k < j ==> same_letter(#[trigger] t@[i + k], w@[k]),
        decreases m - j,
    {
        if !letter_matches(t.get_char(i + j), w.get_char(j)) {
            assert(!same_letter(t@[i + j as int], w@[j as int]));
            return false;
        }
        j = j + 1;
    }
    true
}

/// Does `w` (in lower case) occur in `t`, ignoring ASCII case?
pub fn mentions_word(t: &str, w: &str) -> (r: bool)
    ensures
        r == mentions(t@, w@),
{
    let n = t.unicode_len();
    let m = w.unicode_len();
    if m > n {
        return false;
    }
    let mut i: usize = 0;
    while i <= n - m
        invariant
            n == t@.len(),
            m == w@.len(),
            m <= n,
            i <= n - m + 1,
            forall|k: int| 0 <= k < i ==> !#[trigger] mentions_at(t@, w@, k),
        decreases n - m + 1 - i,
    {
        if mentions_here(t, n, i, w, m) {
            return true;
        }
        i = i + 1;
    }
    assert forall|k: int| !#[trigger] mentions_at(t@, w@, k) by {
        if 0 <= k && k + m <= n {
            assert(k < i);
        }
    }
    false
}

/// The pieces of `s` between occurrences of `d`; there is always at least one.
pub open spec fn split_on(s: Seq<char>, d: char) -> Seq<Seq<char>>
    decreases s.len(),
{
    if s.len() == 0 {
        seq![seq![]]
    } else {
        let prev = split_on(s.drop_last(), d);
        if s.last() == d {
            prev.push(seq![])
        } else {
            prev.update(prev.len() - 1, prev.last().push(s.last()))
        }
    }
}

/// Splits `s` at every `d`.
pub fn split_text(s: &str, d: char) -> (r: Vec<String>)
    ensures
        r.deep_view() == split_on(s@, d),
{
    let n = s.unicode_len();
    let mut parts: Vec<String> = Vec::new();
    let mut cur = String::new();
    let mut i: usize = 0;
    assert(s@.subrange(0, 0) =~= Seq::<char>::empty());
    assert(parts.deep_view().push(cur@) =~= split_on(s@.subrange(0, 0), d));
    while i < n
        invariant
            n == s@.len(),
            i <= n,
            parts.deep_view().push(cur@) == split_on(s@.subrange(0, i as int), d),
        decreases n - i,
    {
        let ghost pre = s@.subrange(0, i + 1);
        assert(pre.drop_last() =~= s@.subrange(0, i as int));
        let ghost before = parts.deep_view();
        let c = s.get_char(i);
        if c == d {
            let ghost cv = cur@;
            parts.push(cur);
            cur = String::new();
            assert(parts.deep_view() =~= before.push(cv));
            assert(parts.deep_view().push(cur@) =~= split_on(pre, d));
        } else {
            push_char(&mut cur, c);
            assert(parts.deep_view().push(cur@) =~= split_on(pre, d));
        }
        i = i + 1;
    }
    assert(s@.subrange(0, n as int) =~= s@);
    let ghost before = parts.deep_view();
    let ghost cv = cur@;
    parts.push(cur);
    assert(parts.deep_view() =~= before.push(cv));
    parts
}

} // verus!
