//! Properties that hold of every search.
use vstd::prelude::*;
use crate::fold::{fold_case, lemma_fold_case_add};
use crate::lines::lines_of;
use crate::search::{
    has_folded_query,
    has_query,
    matching_lines,
    matching_lines_folded,
    search_result,
};
use crate::text::{contains, occurs_at};

verus! {

/// Filtering with a test that every element passes keeps the whole sequence.
proof fn lemma_filter_keeps_all(s: Seq<Seq<char>>, p: spec_fn(Seq<char>) -> bool)
    requires
        forall|i: int| 0 <= i < s.len() ==> p(#[trigger] s[i]),
    ensures
        s.filter(p) == s,
    decreases s.len(),
{
    reveal(Seq::filter);
    if s.len() > 0 {
        lemma_filter_keeps_all(s.drop_last(), p);
        assert(s.drop_last().push(s.last()) =~= s);
    }
}

/// Filtering with a stronger test after a weaker one is filtering with the
/// stronger test alone.
proof fn lemma_filter_twice(
    s: Seq<Seq<char>>,
    weak: spec_fn(Seq<char>) -> bool,
    strong: spec_fn(Seq<char>) -> bool,
)
    requires
        forall|l: Seq<char>| #[trigger] strong(l) ==> weak(l),
    ensures
        s.filter(weak).filter(strong) == s.filter(strong),
    decreases s.len(),
{
    reveal(Seq::filter);
    if s.len() > 0 {
        lemma_filter_twice(s.drop_last(), weak, strong);
        let kept = s.drop_last().filter(weak);
        if weak(s.last()) {
            assert(kept.push(s.last()).drop_last() =~= kept);
        }
    }
}

/// The empty text occurs in every text.
proof fn lemma_contains_empty(l: Seq<char>)
    ensures
        contains(l, seq![]),
{
    assert(l.subrange(0, 0) =~= seq![]);
    assert(occurs_at(l, seq![], 0));
}

/// A text that contains a query still contains it once both are case-folded.
pub proof fn lemma_fold_keeps_contains(l: Seq<char>, q: Seq<char>)
    requires
        contains(l, q),
    ensures
        contains(fold_case(l), fold_case(q)),
{
    let i = choose|i: int| occurs_at(l, q, i);
    let a = l.take(i);
    let b = l.skip(i + q.len());
    assert(l =~= a + q + b);
    lemma_fold_case_add(a, q);
    lemma_fold_case_add(a + q, b);
    let fl = fold_case(l);
    let k = fold_case(a).len() as int;
    assert(fl.subrange(k, k + fold_case(q).len()) =~= fold_case(q));
    assert(occurs_at(fl, fold_case(q), k));
}

/// With the empty query, a case-sensitive search returns every line of the
/// contents, in order.
pub proof fn law_empty_query_selects_every_line(contents: Seq<char>)
    ensures
        matching_lines(seq![], contents) == lines_of(contents),
{
    let lines = lines_of(contents);
    assert forall|i: int| 0 <= i < lines.len() implies #[trigger] has_query(seq![])(lines[i]) by {
        lemma_contains_empty(lines[i]);
    }
    lemma_filter_keeps_all(lines, has_query(seq![]));
}

/// Every line that a case-sensitive search selects, a case-insensitive search
/// selects too: the case-sensitive result is the case-insensitive one with some
/// lines left out, and each of its lines occurs in the case-insensitive one.
pub proof fn law_insensitive_covers_sensitive(query: Seq<char>, contents: Seq<char>)
    ensures
        forall|i: int|
            0 <= i < lines_of(contents).len() && #[trigger] has_query(query)(lines_of(contents)[i])
                ==> has_folded_query(query)(lines_of(contents)[i]),
        matching_lines(query, contents) == matching_lines_folded(query, contents).filter(
            has_query(query),
        ),
        forall|l: Seq<char>| #[trigger]
            matching_lines(query, contents).contains(l) ==> matching_lines_folded(
                query,
                contents,
            ).contains(l),
{
    let lines = lines_of(contents);
    assert forall|l: Seq<char>| #[trigger] has_query(query)(l) implies has_folded_query(query)(
        l,
    ) by {
        lemma_fold_keeps_contains(l, query);
    }
    lemma_filter_twice(lines, has_folded_query(query), has_query(query));
    assert forall|l: Seq<char>| #[trigger]
        matching_lines(query, contents).contains(l) implies matching_lines_folded(
        query,
        contents,
    ).contains(l) by {
        matching_lines_folded(query, contents).lemma_filter_contains_rev(has_query(query), l);
    }
}

/// A search depends on its inputs alone: two searches with equal inputs return
/// equal lines.
pub proof fn law_search_is_deterministic(
    query: Seq<char>,
    contents: Seq<char>,
    ignore_case: bool,
    first: Seq<Seq<char>>,
    second: Seq<Seq<char>>,
)
    requires
        first == search_result(query, contents, ignore_case),
        second == search_result(query, contents, ignore_case),
    ensures
        first == second,
{
}

/// Empty contents have no lines, so a search in them returns nothing, whatever
/// the query and the mode.
pub proof fn law_empty_contents_match_nothing(query: Seq<char>, ignore_case: bool)
    ensures
        search_result(query, seq![], ignore_case) == Seq::<Seq<char>>::empty(),
{
    reveal(Seq::filter);
    assert(lines_of(seq![]) == Seq::<Seq<char>>::empty());
}

} // verus!
