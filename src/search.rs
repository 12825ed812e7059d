//! Selecting the lines of a text that contain a query.
use vstd::prelude::*;
use vstd::string::StrSliceExecFns;
use crate::fold::{fold_case, fold_chars};
use crate::lines::{chars_of, line_spans, lines_of};
use crate::text::{contains, contains_in, contains_chars};

verus! {

/// The test a line passes in a case-sensitive search for `query`.
pub open spec fn has_query(query: Seq<char>) -> spec_fn(Seq<char>) -> bool {
    |l: Seq<char>| contains(l, query)
}

/// The test a line passes in a case-insensitive search for `query`.
pub open spec fn has_folded_query(query: Seq<char>) -> spec_fn(Seq<char>) -> bool {
    |l: Seq<char>| contains(fold_case(l), fold_case(query))
}

/// The lines of `contents` that contain `query`, in order.
pub open spec fn matching_lines(query: Seq<char>, contents: Seq<char>) -> Seq<Seq<char>> {
    lines_of(contents).filter(has_query(query))
}

/// The lines of `contents` that contain `query` once both are case-folded, in order
/// and with their original casing.
pub open spec fn matching_lines_folded(query: Seq<char>, contents: Seq<char>) -> Seq<Seq<char>> {
    lines_of(contents).filter(has_folded_query(query))
}

/// What a search for `query` in `contents` returns in either mode.
pub open spec fn search_result(query: Seq<char>, contents: Seq<char>, ignore_case: bool) -> Seq<
    Seq<char>,
> {
    if ignore_case {
        matching_lines_folded(query, contents)
    } else {
        matching_lines(query, contents)
    }
}

/// Filtering one more element of a sequence.
proof fn lemma_filter_take_step(s: Seq<Seq<char>>, p: spec_fn(Seq<char>) -> bool, k: int)
    requires
        0 <= k < s.len(),
    ensures
        s.take(k + 1).filter(p) == if p(s[k]) {
            s.take(k).filter(p).push(s[k])
        } else {
            s.take(k).filter(p)
        },
{
    reveal(Seq::filter);
    assert(s.take(k + 1).drop_last() =~= s.take(k));
}

/// Every line of `contents` that contains `query`, in order, each a slice of `contents`.
pub fn search_case_sensitive<'a>(query: &str, contents: &'a str) -> (r: Vec<&'a str>)
    ensures
        r.deep_view() == matching_lines(query@, contents@),
{
    let text = chars_of(contents);
    let pat = chars_of(query);
    let spans = line_spans(text.as_slice());
    let ghost lines = lines_of(contents@);
    let mut found: Vec<&'a str> = Vec::new();
    let mut k: usize = 0;
    while k < spans.len()
        invariant
            text@ == contents@,
            pat@ == query@,
            lines == lines_of(contents@),
            spans@.len() == lines.len(),
            forall|i: int|
                #![trigger spans@[i]]
                0 <= i < spans@.len() ==> spans@[i].0 <= spans@[i].1 <= text@.len()
                    && text@.subrange(spans@[i].0 as int, spans@[i].1 as int) == lines[i],
            k <= spans@.len(),
            found.deep_view() == lines.take(k as int).filter(has_query(query@)),
        decreases spans@.len() - k,
    {
        let (lo, hi) = spans[k];
        proof {
            lemma_filter_take_step(lines, has_query(query@), k as int);
        }
        if contains_in(text.as_slice(), lo, hi, pat.as_slice()) {
            let line = contents.substring_char(lo, hi);
            let ghost before = found.deep_view();
            found.push(line);
            assert(found.deep_view() =~= before.push(line@));
        }
        k = k + 1;
    }
    assert(lines.take(k as int) =~= lines);
    found
}

/// Every line of `contents` that contains `query` when both are case-folded, in
/// order, each a slice of `contents` with its casing unchanged.
pub fn search_case_insensitive<'a>(query: &str, contents: &'a str) -> (r: Vec<&'a str>)
    ensures
        r.deep_view() == matching_lines_folded(query@, contents@),
{
    let text = chars_of(contents);
    let pat = chars_of(query);
    let folded_query = fold_chars(pat.as_slice(), 0, pat.len());
    assert(pat@.subrange(0, pat@.len() as int) =~= pat@);
    let spans = line_spans(text.as_slice());
    let ghost lines = lines_of(contents@);
    let mut found: Vec<&'a str> = Vec::new();
    let mut k: usize = 0;
    while k < spans.len()
        invariant
            text@ == contents@,
            folded_query@ == fold_case(query@),
            lines == lines_of(contents@),
            spans@.len() == lines.len(),
            forall|i: int|
                #![trigger spans@[i]]
                0 <= i < spans@.len() ==> spans@[i].0 <= spans@[i].1 <= text@.len()
                    && text@.subrange(spans@[i].0 as int, spans@[i].1 as int) == lines[i],
            k <= spans@.len(),
            found.deep_view() == lines.take(k as int).filter(has_folded_query(query@)),
        decreases spans@.len() - k,
    {
        let (lo, hi) = spans[k];
        proof {
            lemma_filter_take_step(lines, has_folded_query(query@), k as int);
        }
        let folded_line = fold_chars(text.as_slice(), lo, hi);
        if contains_chars(folded_line.as_slice(), folded_query.as_slice()) {
            let line = contents.substring_char(lo, hi);
            let ghost before = found.deep_view();
            found.push(line);
            assert(found.deep_view() =~= before.push(line@));
        }
        k = k + 1;
    }
    assert(lines.take(k as int) =~= lines);
    found
}

/// The lines of `contents` that contain `query`, compared case-insensitively
/// where `ignore_case` is set and exactly otherwise.
pub fn search<'a>(query: &str, contents: &'a str, ignore_case: bool) -> (r: Vec<&'a str>)
    ensures
        r.deep_view() == search_result(query@, contents@, ignore_case),
{
    if ignore_case {
        search_case_insensitive(query, contents)
    } else {
        search_case_sensitive(query, contents)
    }
}

} // verus!
