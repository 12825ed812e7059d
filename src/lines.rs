//! Cutting text into lines.
//!
//! A line ends at `'\n'`; a `'\r'` right before that `'\n'` belongs to the
//! terminator. The last line needs no terminator, and a terminator at the very
//! end of the text starts no further, empty line.
use vstd::prelude::*;

verus! {

broadcast use vstd::string::group_string_axioms;

/// Position of the first `'\n'` in `s`, or `s.len()` where there is none.
pub open spec fn first_newline(s: Seq<char>) -> nat
    decreases s.len(),
{
    if s.len() == 0 || s[0] == '\n' {
        0
    } else {
        1 + first_newline(s.drop_first())
    }
}

/// `l` without one trailing `'\r'`.
pub open spec fn trim_cr(l: Seq<char>) -> Seq<char> {
    if l.len() > 0 && l.last() == '\r' {
        l.drop_last()
    } else {
        l
    }
}

/// The lines of `s`, terminators removed, in order.
pub open spec fn lines_of(s: Seq<char>) -> Seq<Seq<char>>
    decreases s.len(),
{
    if s.len() == 0 {
        seq![]
    } else {
        let k = first_newline(s) as int;
        if k < s.len() {
            seq![trim_cr(s.take(k))] + lines_of(s.skip(k + 1))
        } else {
            seq![s]
        }
    }
}

proof fn lemma_first_newline(s: Seq<char>, k: int)
    requires
        0 <= k <= s.len(),
        forall|j: int| 0 <= j < k ==> s[j] != '\n',
        k == s.len() || s[k] == '\n',
    ensures
        first_newline(s) == k,
    decreases k,
{
    if k > 0 {
        lemma_first_newline(s.drop_first(), k - 1);
    }
}

/// The characters of `s`, in order.
pub(crate) fn chars_of(s: &str) -> (r: Vec<char>)
    ensures
        r@ == s@,
{
    let mut v: Vec<char> = Vec::new();
    for c in it: s.chars()
        invariant
            v@ == it.seq().take(it.index() as int),
    {
        v.push(c);
    }
    assert(v@ =~= s@);
    v
}

/// Where each line of `s` stands in it: the line `i` is `s[lo..hi]` for the
/// pair `(lo, hi)` at `i`.
pub(crate) fn line_spans(s: &[char]) -> (r: Vec<(usize, usize)>)
    ensures
        r@.len() == lines_of(s@).len(),
        forall|i: int|
            #![trigger r@[i]]
            0 <= i < r@.len() ==> r@[i].0 <= r@[i].1 <= s@.len() && s@.subrange(
                r@[i].0 as int,
                r@[i].1 as int,
            ) == lines_of(s@)[i],
{
    let ghost t = s@;
    let ghost mut done: Seq<Seq<char>> = seq![];
    let mut spans: Vec<(usize, usize)> = Vec::new();
    let n = s.len();
    let mut start: usize = 0;
    let mut i: usize = 0;
    assert(t.skip(0) =~= t);
    assert(done + lines_of(t) =~= lines_of(t));
    while i < n
        invariant
            t == s@,
            n == t.len(),
            start <= i <= n,
            forall|j: int| start <= j < i ==> t[j] != '\n',
            lines_of(t) == done + lines_of(t.skip(start as int)),
            spans@.len() == done.len(),
            forall|j: int|
                #![trigger spans@[j]]
                0 <= j < spans@.len() ==> spans@[j].0 <= spans@[j].1 <= n && t.subrange(
                    spans@[j].0 as int,
                    spans@[j].1 as int,
                ) == done[j],
        decreases n - i,
    {
        if s[i] == '\n' {
            let ghost rest = t.skip(start as int);
            proof {
                lemma_first_newline(rest, i - start);
                assert(rest.skip(i - start + 1) =~= t.skip(i + 1));
                assert(rest.take(i - start) =~= t.subrange(start as int, i as int));
            }
            let end = if i > start && s[i - 1] == '\r' {
                i - 1
            } else {
                i
            };
            proof {
                let line = t.subrange(start as int, i as int);
                assert(t.subrange(start as int, end as int) =~= trim_cr(line));
                assert(done.push(trim_cr(line)) + lines_of(t.skip(i + 1)) =~= done + (seq![
                    trim_cr(line),
                ] + lines_of(t.skip(i + 1))));
                done = done.push(trim_cr(line));
            }
            spans.push((start, end));
            start = i + 1;
        }
        i = i + 1;
    }
    if start < n {
        let ghost rest = t.skip(start as int);
        proof {
            lemma_first_newline(rest, rest.len() as int);
            assert(t.subrange(start as int, n as int) =~= rest);
            done = done.push(rest);
        }
        spans.push((start, n));
    } else {
        assert(t.skip(start as int).len() == 0);
    }
    assert(lines_of(t) =~= done);
    spans
}

} // verus!
