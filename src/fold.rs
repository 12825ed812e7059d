//! Case folding.
//!
//! Text is folded one character at a time with Unicode's per-character
//! lowercase mapping. No rule that looks at neighbouring characters applies
//! (a capital sigma always becomes `'σ'`, never the word-final `'ς'`), so the
//! folding of a joined text is the join of the foldings of its parts.
use vstd::prelude::*;

verus! {

/// The lowercase mapping of a single character (one to three characters).
pub uninterp spec fn lower_of_char(c: char) -> Seq<char>;

/// Relies on `char::to_lowercase`: the characters it yields depend on `c` alone.
#[verifier::external_body]
fn lower_char(c: char) -> (r: Vec<char>)
    ensures
        r@ == lower_of_char(c),
{
    c.to_lowercase().collect()
}

/// `s` with every character replaced by its lowercase mapping.
pub open spec fn fold_case(s: Seq<char>) -> Seq<char>
    decreases s.len(),
{
    if s.len() == 0 {
        seq![]
    } else {
        fold_case(s.drop_last()) + lower_of_char(s.last())
    }
}

/// Folding a joined text gives the join of the folded parts.
pub proof fn lemma_fold_case_add(a: Seq<char>, b: Seq<char>)
    ensures
        fold_case(a + b) == fold_case(a) + fold_case(b),
    decreases b.len(),
{
    if b.len() == 0 {
        assert(a + b =~= a);
        assert(fold_case(a) + fold_case(b) =~= fold_case(a));
    } else {
        lemma_fold_case_add(a, b.drop_last());
        assert((a + b).drop_last() =~= a + b.drop_last());
        assert((a + b).last() == b.last());
        assert(fold_case(a) + fold_case(b) =~= fold_case(a) + fold_case(b.drop_last())
            + lower_of_char(b.last()));
    }
}

/// The folding of `s[lo..hi]`.
pub(crate) fn fold_chars(s: &[char], lo: usize, hi: usize) -> (r: Vec<char>)
    requires
        lo <= hi <= s@.len(),
    ensures
        r@ == fold_case(s@.subrange(lo as int, hi as int)),
{
    let mut v: Vec<char> = Vec::new();
    let mut k: usize = lo;
    assert(s@.subrange(lo as int, lo as int) =~= seq![]);
    while k < hi
        invariant
            lo <= k <= hi <= s@.len(),
            v@ == fold_case(s@.subrange(lo as int, k as int)),
        decreases hi - k,
    {
        let mut low = lower_char(s[k]);
        assert(s@.subrange(lo as int, k + 1).drop_last() =~= s@.subrange(lo as int, k as int));
        v.append(&mut low);
        k = k + 1;
    }
    v
}

} // verus!
