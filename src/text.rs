//! Character-level helpers on source text.

use vstd::prelude::*;

verus! {

/// Copies the characters of `s` into a vector, so that they can be indexed.
pub fn chars_of(s: &str) -> (r: Vec<char>)
    ensures
        r@ == s@,
{
    let mut r: Vec<char> = Vec::new();
    for c in it: s.chars()
        invariant
            r@ == it.seq().take(it.index() as int),
    {
        r.push(c);
    }
    r
}


/// Unicode `White_Space` characters, the ones `str::trim` removes.
pub open spec fn is_white(c: char) -> bool {
    ('\u{9}' <= c && c <= '\u{d}') || c == ' ' || c == '\u{85}' || c == '\u{a0}'
        || c == '\u{1680}' || ('\u{2000}' <= c && c <= '\u{200a}') || c == '\u{2028}'
        || c == '\u{2029}' || c == '\u{202f}' || c == '\u{205f}' || c == '\u{3000}'
}

/// `s` without its leading whitespace.
pub open spec fn trim_start(s: Seq<char>) -> Seq<char>
    decreases s.len(),
{
    if s.len() > 0 && is_white(s[0]) {
        trim_start(s.drop_first())
    } else {
        s
    }
}

/// `s` without its trailing whitespace.
pub open spec fn trim_end(s: Seq<char>) -> Seq<char>
    decreases s.len(),
{
    if s.len() > 0 && is_white(s.last()) {
        trim_end(s.drop_last())
    } else {
        s
    }
}

/// `s` without whitespace at either end.
pub open spec fn trim(s: Seq<char>) -> Seq<char> {
    trim_end(trim_start(s))
}

/// `w` occurs in `s` starting at index `i`.
pub open spec fn occurs_at(s: Seq<char>, w: Seq<char>, i: int) -> bool {
    0 <= i && i + w.len() <= s.len() && s.subrange(i, i + w.len()) == w
}

/// `w` occurs somewhere in `s`.
pub open spec fn contains(s: Seq<char>, w: Seq<char>) -> bool {
    exists|i: int| occurs_at(s, w, i)
}

/// `s` begins with `w`.
pub open spec fn starts_with(s: Seq<char>, w: Seq<char>) -> bool {
    occurs_at(s, w, 0)
}

pub fn is_white_char(c: char) -> (r: bool)
    ensures
        r == is_white(c),
{
    ('\u{9}' <= c && c <= '\u{d}') || c == ' ' || c == '\u{85}' || c == '\u{a0}'
        || c == '\u{1680}' || ('\u{2000}' <= c && c <= '\u{200a}') || c == '\u{2028}'
        || c == '\u{2029}' || c == '\u{202f}' || c == '\u{205f}' || c == '\u{3000}'
}

/// Bounds of `s[a..b]` once trimmed: the result `(c, d)` has
/// `s[c..d] == trim(s[a..b])`.
pub fn trim_bounds(s: &Vec<char>, a: usize, b: usize) -> (r: (usize, usize))
    requires
        a <= b <= s@.len(),
    ensures
        a <= r.0 <= r.1 <= b,
        s@.subrange(r.0 as int, r.1 as int) == trim(s@.subrange(a as int, b as int)),
{
    let mut c: usize = a;
    while c < b && is_white_char(s[c])
        invariant
            a <= c <= b <= s@.len(),
            trim_start(s@.subrange(a as int, b as int)) == trim_start(s@.subrange(c as int, b as int)),
        decreases b - c,
    {
        assert(s@.subrange(c as int, b as int).drop_first() =~= s@.subrange(c + 1, b as int));
        c = c + 1;
    }
    assert(trim_start(s@.subrange(c as int, b as int)) == s@.subrange(c as int, b as int));
    let mut d: usize = b;
    while d > c && is_white_char(s[d - 1])
        invariant
            a <= c <= d <= b <= s@.len(),
            trim(s@.subrange(a as int, b as int)) == trim_end(s@.subrange(c as int, d as int)),
        decreases d - c,
    {
        assert(s@.subrange(c as int, d as int).drop_last() =~= s@.subrange(c as int, d - 1));
        d = d - 1;
    }
    (c, d)
}

/// Whether `w` occurs in `s` at index `i`.
pub fn occurs_at_exec(s: &Vec<char>, w: &Vec<char>, i: usize) -> (r: bool)
    ensures
        r == occurs_at(s@, w@, i as int),
{
    if i > s.len() || w.len() > s.len() - i {
        return false;
    }
    let n = s.len();
    let mut j: usize = 0;
    while j < w.len()
        invariant
            i + w@.len() <= s@.len(),
            n == s@.len(),
            j <= w@.len(),
            forall|k: int| 0 <= k < j ==> s@[i + k] == w@[k],
        decreases w@.len() - j,
    {
        assert(i + j < s@.len());
        if s[i + j] != w[j] {
            assert(s@.subrange(i as int, i + w@.len())[j as int] != w@[j as int]);
            return false;
        }
        j = j + 1;
    }
    assert(s@.subrange(i as int, i + w@.len()) =~= w@);
    true
}

/// Whether `w` occurs in `s[a..b]`.
pub fn contains_in(s: &Vec<char>, a: usize, b: usize, w: &Vec<char>) -> (r: bool)
    requires
        a <= b <= s@.len(),
    ensures
        r == contains(s@.subrange(a as int, b as int), w@),
{
    let ghost t = s@.subrange(a as int, b as int);
    if w.len() > b - a {
        assert forall|i: int| !occurs_at(t, w@, i) by {}
        return false;
    }
    let last: usize = b - w.len();
    let mut i: usize = a;
    loop
        invariant
            a <= i <= last,
            last + w@.len() == b <= s@.len(),
            t == s@.subrange(a as int, b as int),
            forall|k: int| 0 <= k < i - a ==> !occurs_at(t, w@, k),
        ensures
            forall|k: int| 0 <= k <= last - a ==> !occurs_at(t, w@, k),
        decreases last - i,
    {
        let found = occurs_at_exec(s, w, i);
        assert(t.subrange(i - a, i - a + w@.len()) =~= s@.subrange(i as int, i + w@.len()));
        if found {
            assert(occurs_at(t, w@, i - a));
            return true;
        }
        if i == last {
            break;
        }
        i = i + 1;
    }
    assert forall|k: int| !occurs_at(t, w@, k) by {
        if 0 <= k && k + w@.len() <= t.len() {
            assert(k <= last - a);
        }
    }
    false
}

} // verus!
