//! Substring search over sequences of characters.
use vstd::prelude::*;

verus! {

/// `pat` occurs in `text` starting at position `i`.
pub open spec fn occurs_at(text: Seq<char>, pat: Seq<char>, i: int) -> bool {
    0 <= i && i + pat.len() <= text.len() && text.subrange(i, i + pat.len()) == pat
}

/// `pat` is a contiguous part of `text` (the empty pattern is part of every text).
pub open spec fn contains(text: Seq<char>, pat: Seq<char>) -> bool {
    exists|i: int| occurs_at(text, pat, i)
}

/// Compares `text[start..start + pat.len()]` with `pat`.
fn matches_at(text: &[char], lo: usize, hi: usize, pat: &[char], start: usize) -> (r: bool)
    requires
        lo <= start,
        start + pat@.len() <= hi <= text@.len(),
    ensures
        r == occurs_at(text@.subrange(lo as int, hi as int), pat@, start - lo),
{
    let ghost t = text@.subrange(lo as int, hi as int);
    let mut j: usize = 0;
    while j < pat.len()
        invariant
            lo <= start,
            start + pat@.len() <= hi <= text@.len(),
            t == text@.subrange(lo as int, hi as int),
            j <= pat@.len(),
            forall|k: int| 0 <= k < j ==> text@[start + k] == pat@[k],
        decreases pat@.len() - j,
    {
        if text[start + j] != pat[j] {
            assert(t.subrange(start - lo, start - lo + pat@.len())[j as int] != pat@[j as int]);
            return false;
        }
        j = j + 1;
    }
    assert(t.subrange(start - lo, start - lo + pat@.len()) =~= pat@);
    true
}

/// Tells whether `pat` occurs in `text[lo..hi]`.
pub(crate) fn contains_in(text: &[char], lo: usize, hi: usize, pat: &[char]) -> (r: bool)
    requires
        lo <= hi <= text@.len(),
    ensures
        r == contains(text@.subrange(lo as int, hi as int), pat@),
{
    let ghost t = text@.subrange(lo as int, hi as int);
    if pat.len() > hi - lo {
        return false;
    }
    let last = hi - pat.len();
    let mut start: usize = lo;
    loop
        invariant
            lo <= start <= last,
            lo <= hi <= text@.len(),
            pat@.len() <= hi - lo,
            last == hi - pat@.len(),
            t == text@.subrange(lo as int, hi as int),
            forall|k: int| 0 <= k < start - lo ==> !occurs_at(t, pat@, k),
        decreases last + 1 - start,
    {
        if matches_at(text, lo, hi, pat, start) {
            return true;
        }
        if start == last {
            return false;
        }
        start = start + 1;
    }
}

/// Tells whether `pat` occurs as a contiguous part of `text`.
pub fn contains_chars(text: &[char], pat: &[char]) -> (r: bool)
    ensures
        r == contains(text@, pat@),
{
    let r = contains_in(text, 0, text.len(), pat);
    assert(text@.subrange(0, text@.len() as int) =~= text@);
    r
}

} // verus!
