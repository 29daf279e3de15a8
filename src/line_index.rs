//! The lines of one source file, and the questions asked of a line range:
//! does it hold a word that hints at a panic, and which documentation
//! comment opens it.

use vstd::prelude::*;
use crate::text::{chars_of, contains, contains_in, starts_with, trim, trim_bounds};
use vstd::string::{StrSliceExecFns, StringExecFns};

verus! {

/// The words whose presence hints that code may panic.
pub open spec fn risk_words() -> Seq<Seq<char>> {
    seq![
        seq!['p', 'a', 'n', 'i', 'c'],
        seq!['u', 'n', 'w', 'r', 'a', 'p'],
        seq!['e', 'x', 'p', 'e', 'c', 't'],
        seq!['t', 'o', 'd', 'o'],
        seq!['u', 'n', 'i', 'm', 'p', 'l', 'e', 'm', 'e', 'n', 't', 'e', 'd'],
    ]
}

/// The marker that opens a documentation comment line.
pub open spec fn doc_marker() -> Seq<char> {
    seq!['/', '/', '/']
}

/// A line holds one of the risk words as a plain substring.
pub open spec fn has_risk_word(line: Seq<char>) -> bool {
    exists|k: int| 0 <= k < risk_words().len() && contains(line, #[trigger] risk_words()[k])
}

/// Where a line that ends at the newline at `i` stops: a carriage return
/// just before the newline belongs to the line ending.
pub open spec fn line_stop(s: Seq<char>, start: int, i: int) -> int {
    if i > start && s[i - 1] == '\r' {
        i - 1
    } else {
        i
    }
}

/// Bounds of the lines of `s[i..]`, where the line being read began at `start`.
/// A final line ending adds no empty line.
pub open spec fn lines_from(s: Seq<char>, i: int, start: int) -> Seq<(int, int)>
    decreases s.len() - i,
{
    if i >= s.len() {
        if start < s.len() {
            seq![(start, s.len() as int)]
        } else {
            seq![]
        }
    } else if s[i] == '\n' {
        seq![(start, line_stop(s, start, i))] + lines_from(s, i + 1, i + 1)
    } else {
        lines_from(s, i + 1, start)
    }
}

/// Bounds `(first, past_last)` of each line of `s`, in order.
pub open spec fn line_bounds(s: Seq<char>) -> Seq<(int, int)> {
    lines_from(s, 0, 0)
}

/// The lines of `s`, as `str::lines` splits them.
pub open spec fn lines(s: Seq<char>) -> Seq<Seq<char>> {
    line_bounds(s).map_values(|b: (int, int)| s.subrange(b.0, b.1))
}

/// Some line of `s` holds a risk word.
pub open spec fn text_has_risk(s: Seq<char>) -> bool {
    exists|k: int| 0 <= k < lines(s).len() && has_risk_word(#[trigger] lines(s)[k])
}

/// Some line of the span `start_line ..= end_line` (1-based) holds a risk
/// word.
pub open spec fn span_has_risk(s: Seq<char>, start_line: int, end_line: int) -> bool {
    exists|k: int|
        start_line - 1 <= k < end_line && 0 <= k < lines(s).len() && has_risk_word(
            #[trigger] lines(s)[k],
        )
}

/// The trimmed documentation lines that run on from line index `k` without a
/// break, stopping before index `stop`.
pub open spec fn doc_run(ls: Seq<Seq<char>>, k: int, stop: int) -> Seq<Seq<char>>
    decreases stop - k,
{
    if k < stop && 0 <= k < ls.len() && starts_with(trim(ls[k]), doc_marker()) {
        seq![trim(ls[k])] + doc_run(ls, k + 1, stop)
    } else {
        seq![]
    }
}

/// The lines joined with newlines between them.
pub open spec fn join_lines(ls: Seq<Seq<char>>) -> Seq<char>
    decreases ls.len(),
{
    if ls.len() == 0 {
        seq![]
    } else if ls.len() == 1 {
        ls[0]
    } else {
        join_lines(ls.drop_last()) + seq!['\n'] + ls.last()
    }
}

/// The documentation block of a span: the documentation comment lines that
/// open it, trimmed and joined with newlines (the span of a declaration
/// includes its documentation comments).
pub open spec fn doc_block(s: Seq<char>, start_line: int, end_line: int) -> Seq<char> {
    join_lines(doc_run(lines(s), start_line - 1, end_line - 1))
}

pub open spec fn bounds_view(t: Seq<(usize, usize)>) -> Seq<(int, int)> {
    t.map_values(|p: (usize, usize)| (p.0 as int, p.1 as int))
}

proof fn lemma_lines_from_bounds(s: Seq<char>, i: int, start: int)
    requires
        0 <= start <= i <= s.len(),
    ensures
        forall|k: int|
            0 <= k < lines_from(s, i, start).len() ==> start <= (#[trigger] lines_from(
                s,
                i,
                start,
            )[k]).0 <= lines_from(s, i, start)[k].1 <= s.len(),
    decreases s.len() - i,
{
    if i < s.len() {
        if s[i] == '\n' {
            lemma_lines_from_bounds(s, i + 1, i + 1);
            let rest = lines_from(s, i + 1, i + 1);
            let all = lines_from(s, i, start);
            assert(all == seq![(start, line_stop(s, start, i))] + rest);
            assert forall|k: int| 0 <= k < all.len() implies start <= (#[trigger] all[k]).0
                <= all[k].1 <= s.len() by {
                if k > 0 {
                    assert(all[k] == rest[k - 1]);
                }
            }
        } else {
            lemma_lines_from_bounds(s, i + 1, start);
            assert(lines_from(s, i, start) == lines_from(s, i + 1, start));
        }
    } else {
        let all = lines_from(s, i, start);
        if start < s.len() {
            assert(all == seq![(start, s.len() as int)]);
        } else {
            assert(all.len() == 0);
        }
    }
}

/// A source text held as characters, with the bounds of its lines.
pub struct SourceText {
    pub chars: Vec<char>,
    pub bounds: Vec<(usize, usize)>,
}

impl SourceText {
    pub open spec fn wf(&self) -> bool {
        bounds_view(self.bounds@) == line_bounds(self.chars@)
    }

    pub open spec fn lines(&self) -> Seq<Seq<char>> {
        lines(self.chars@)
    }

    pub proof fn lemma_bounds(&self)
        requires
            self.wf(),
        ensures
            self.bounds@.len() == self.lines().len(),
            forall|k: int|
                0 <= k < self.bounds@.len() ==> (#[trigger] self.bounds@[k]).0 <= self.bounds@[k].1
                    <= self.chars@.len() && self.chars@.subrange(
                    self.bounds@[k].0 as int,
                    self.bounds@[k].1 as int,
                ) == self.lines()[k],
    {
        lemma_lines_from_bounds(self.chars@, 0, 0);
        assert forall|k: int| 0 <= k < self.bounds@.len() implies (#[trigger] self.bounds@[k]).0
            <= self.bounds@[k].1 <= self.chars@.len() by {
            assert(bounds_view(self.bounds@)[k] == line_bounds(self.chars@)[k]);
        }
    }

    /// Splits `text` into lines.
    pub fn new(text: &str) -> (r: SourceText)
        ensures
            r.wf(),
            r.chars@ == text@,
    {
        let chars = chars_of(text);
        let n = chars.len();
        let mut bounds: Vec<(usize, usize)> = Vec::new();
        let mut start: usize = 0;
        let mut i: usize = 0;
        while i < n
            invariant
                n == chars@.len(),
                start <= i <= n,
                bounds_view(bounds@) + lines_from(chars@, i as int, start as int) == line_bounds(
                    chars@,
                ),
            decreases n - i,
        {
            if chars[i] == '\n' {
                let stop = if i > start && chars[i - 1] == '\r' {
                    i - 1
                } else {
                    i
                };
                let ghost before = bounds@;
                bounds.push((start, stop));
                assert(bounds_view(bounds@) =~= bounds_view(before) + seq![
                    (start as int, stop as int),
                ]);
                assert(bounds_view(bounds@) + lines_from(chars@, i + 1, i + 1) =~= bounds_view(
                    before,
                ) + lines_from(chars@, i as int, start as int));
                start = i + 1;
            }
            i = i + 1;
        }
        if start < n {
            let ghost before = bounds@;
            bounds.push((start, n));
            assert(bounds_view(bounds@) =~= bounds_view(before) + seq![(start as int, n as int)]);
        } else {
            assert(bounds_view(bounds@) =~= bounds_view(bounds@) + lines_from(chars@, i as int, start as int));
        }
        SourceText { chars, bounds }
    }

    /// Whether the line of index `k` holds a risk word.
    pub fn line_has_risk(&self, words: &Vec<Vec<char>>, k: usize) -> (r: bool)
        requires
            self.wf(),
            k < self.lines().len(),
            words@.len() == risk_words().len(),
            forall|j: int| 0 <= j < words@.len() ==> (#[trigger] words@[j])@ == risk_words()[j],
        ensures
            r == has_risk_word(self.lines()[k as int]),
    {
        proof {
            self.lemma_bounds();
        }
        let (a, b) = self.bounds[k];
        let mut j: usize = 0;
        while j < words.len()
            invariant
                0 <= j <= words@.len() == risk_words().len(),
                forall|m: int| 0 <= m < words@.len() ==> (#[trigger] words@[m])@ == risk_words()[m],
                a <= b <= self.chars@.len(),
                self.chars@.subrange(a as int, b as int) == self.lines()[k as int],
                forall|m: int| 0 <= m < j ==> !contains(self.lines()[k as int], #[trigger] risk_words()[m]),
            decreases words@.len() - j,
        {
            if contains_in(&self.chars, a, b, &words[j]) {
                return true;
            }
            j = j + 1;
        }
        false
    }

    /// Whether some line of the text holds a risk word.
    pub fn has_risk(&self) -> (r: bool)
        requires
            self.wf(),
        ensures
            r == text_has_risk(self.chars@),
    {
        proof {
            self.lemma_bounds();
        }
        let words = risk_word_table();
        let mut k: usize = 0;
        while k < self.bounds.len()
            invariant
                self.wf(),
                self.bounds@.len() == self.lines().len(),
                words@.len() == risk_words().len(),
                forall|j: int| 0 <= j < words@.len() ==> (#[trigger] words@[j])@ == risk_words()[j],
                forall|m: int| 0 <= m < k ==> !has_risk_word(#[trigger] self.lines()[m]),
            decreases self.bounds@.len() - k,
        {
            if self.line_has_risk(&words, k) {
                return true;
            }
            k = k + 1;
        }
        false
    }

    /// Whether a line of the span `start_line ..= end_line` (1-based) holds a
    /// risk word.
    pub fn span_has_risk(&self, start_line: usize, end_line: usize) -> (r: bool)
        requires
            self.wf(),
        ensures
            r == span_has_risk(self.chars@, start_line as int, end_line as int),
    {
        proof {
            self.lemma_bounds();
        }
        let words = risk_word_table();
        let n = self.bounds.len();
        let mut k: usize = if start_line > 0 {
            start_line - 1
        } else {
            0
        };
        let stop: usize = if end_line < n {
            end_line
        } else {
            n
        };
        while k < stop
            invariant
                self.wf(),
                n == self.bounds@.len() == self.lines().len(),
                stop <= n,
                stop <= end_line,
                stop == n || stop == end_line,
                start_line - 1 <= k,
                words@.len() == risk_words().len(),
                forall|j: int| 0 <= j < words@.len() ==> (#[trigger] words@[j])@ == risk_words()[j],
                forall|m: int|
                    start_line - 1 <= m < k && 0 <= m ==> !has_risk_word(#[trigger] self.lines()[m]),
            decreases stop - k,
        {
            if self.line_has_risk(&words, k) {
                assert(has_risk_word(self.lines()[k as int]));
                return true;
            }
            k = k + 1;
        }
        false
    }
}

proof fn lemma_join_push(ls: Seq<Seq<char>>, x: Seq<char>)
    ensures
        join_lines(ls.push(x)) == if ls.len() == 0 {
            x
        } else {
            join_lines(ls) + seq!['\n'] + x
        },
{
    assert(ls.push(x).drop_last() =~= ls);
}

impl SourceText {
    /// The documentation block that opens the span of lines
    /// `start_line ..= end_line` (1-based), before it is case-folded.
    pub fn doc_comment(&self, text: &str, start_line: usize, end_line: usize) -> (r: String)
        requires
            self.wf(),
            text@ == self.chars@,
        ensures
            r@ == doc_block(self.chars@, start_line as int, end_line as int),
    {
        proof {
            self.lemma_bounds();
        }
        let mut doc = String::new();
        if start_line == 0 || end_line == 0 {
            return doc;
        }
        let ghost ls = self.lines();
        let ghost first = start_line - 1;
        let stop: usize = end_line - 1;
        let n = self.bounds.len();
        let mut k: usize = start_line - 1;
        let ghost mut acc: Seq<Seq<char>> = seq![];
        loop
            invariant
                self.wf(),
                text@ == self.chars@,
                ls == self.lines(),
                n == self.bounds@.len() == ls.len(),
                forall|j: int|
                    0 <= j < self.bounds@.len() ==> (#[trigger] self.bounds@[j]).0
                        <= self.bounds@[j].1 <= self.chars@.len() && self.chars@.subrange(
                        self.bounds@[j].0 as int,
                        self.bounds@[j].1 as int,
                    ) == ls[j],
                first <= k,
                first == start_line - 1,
                acc.len() == k - first,
                doc@ == join_lines(acc),
                doc_run(ls, first, stop as int) == acc + doc_run(ls, k as int, stop as int),
            ensures
                doc@ == join_lines(acc),
                doc_run(ls, first, stop as int) == acc,
            decreases n - k,
        {
            if k >= stop || k >= n {
                assert(acc + doc_run(ls, k as int, stop as int) =~= acc);
                break;
            }
            let (a, b) = self.bounds[k];
            let (c, d) = trim_bounds(&self.chars, a, b);
            let ghost line = trim(ls[k as int]);
            assert(line == self.chars@.subrange(c as int, d as int));
            let marked = d - c >= 3 && self.chars[c] == '/' && self.chars[c + 1] == '/'
                && self.chars[c + 2] == '/';
            assert(marked == starts_with(line, doc_marker())) by {
                if d - c >= 3 {
                    assert(line.subrange(0, 3) =~= seq![line[0], line[1], line[2]]);
                }
            }
            if !marked {
                assert(acc + doc_run(ls, k as int, stop as int) =~= acc);
                break;
            }
            proof {
                lemma_join_push(acc, line);
                assert(acc + doc_run(ls, k as int, stop as int) =~= acc.push(line) + doc_run(
                    ls,
                    k + 1,
                    stop as int,
                ));
                acc = acc.push(line);
            }
            let ghost before = doc@;
            if k > start_line - 1 {
                let newline = "\n";
                proof {
                    reveal_strlit("\n");
                }
                assert(newline@ =~= seq!['\n']);
                doc.append(newline);
                assert(doc@ =~= before + seq!['\n']);
            }
            let piece = text.substring_char(c, d);
            doc.append(piece);
            assert(piece@ == line);
            k = k + 1;
        }
        doc
    }
}

/// The risk words as character vectors.
pub fn risk_word_table() -> (r: Vec<Vec<char>>)
    ensures
        r@.len() == risk_words().len(),
        forall|j: int| 0 <= j < r@.len() ==> (#[trigger] r@[j])@ == risk_words()[j],
{
    let r = vec![
        vec!['p', 'a', 'n', 'i', 'c'],
        vec!['u', 'n', 'w', 'r', 'a', 'p'],
        vec!['e', 'x', 'p', 'e', 'c', 't'],
        vec!['t', 'o', 'd', 'o'],
        vec!['u', 'n', 'i', 'm', 'p', 'l', 'e', 'm', 'e', 'n', 't', 'e', 'd'],
    ];
    assert(r@[0]@ =~= risk_words()[0]);
    assert(r@[1]@ =~= risk_words()[1]);
    assert(r@[2]@ =~= risk_words()[2]);
    assert(r@[3]@ =~= risk_words()[3]);
    assert(r@[4]@ =~= risk_words()[4]);
    r
}

} // verus!
