//! The library's general laws, stated and proved once for every input.

use vstd::prelude::*;

use crate::fold::lower_of;
use crate::matching::{has_substring, lemma_empty_needle_matches};
use crate::text::spec_lines;
use crate::{
    case_insensitive_matches, exact_matches, exact_pred, folded_pred, matches_under, MatchPolicy,
};

verus! {

broadcast use vstd::seq_lib::group_filter_ensures;

/// A filter that keeps every element returns the sequence unchanged.
pub(crate) proof fn lemma_filter_keeps_all<A>(s: Seq<A>, pred: spec_fn(A) -> bool)
    requires
        forall|i: int| 0 <= i < s.len() ==> pred(s[i]),
    ensures
        s.filter(pred) == s,
    decreases s.len(),
{
    reveal(Seq::filter);
    if s.len() > 0 {
        let rest = s.drop_last();
        assert forall|i: int| 0 <= i < rest.len() implies pred(rest[i]) by {
            assert(rest[i] == s[i]);
        }
        lemma_filter_keeps_all(rest, pred);
        assert(pred(s.last()));
        assert(rest.push(s.last()) =~= s);
    }
}

/// An element is in the filtered sequence exactly when it is in the original
/// sequence and satisfies the predicate.
pub(crate) proof fn lemma_filter_membership<A>(s: Seq<A>, pred: spec_fn(A) -> bool)
    ensures
        forall|x: A| #[trigger] s.filter(pred).contains(x) <==> s.contains(x) && pred(x),
{
    assert forall|x: A| #[trigger] s.filter(pred).contains(x) implies s.contains(x) && pred(
        x,
    ) by {
        s.lemma_filter_contains_rev(pred, x);
        let j = choose|j: int| 0 <= j < s.filter(pred).len() && s.filter(pred)[j] == x;
        assert(pred(s.filter(pred)[j]));
    }
    assert forall|x: A| s.contains(x) && pred(x) implies #[trigger] s.filter(pred).contains(
        x,
    ) by {
        let j = choose|j: int| 0 <= j < s.len() && s[j] == x;
        assert(s.filter(pred).contains(s[j]));
    }
}

/// Exact policy: a line is in the result exactly when it is a line of the
/// text and contains the query literally. In particular, every line of the
/// result contains the query, and a line of the text that does not contain
/// the query is not in the result.
pub proof fn lemma_exact_search_membership(query: Seq<char>, text: Seq<char>)
    ensures
        forall|line: Seq<char>| #[trigger] exact_matches(query, text).contains(line)
            <==> spec_lines(text).contains(line) && has_substring(line, query),
{
    lemma_filter_membership(spec_lines(text), exact_pred(query));
}

/// Case-insensitive policy: a line is in the result exactly when it is a
/// line of the text and its lowercase form contains the query's lowercase
/// form.
pub proof fn lemma_case_insensitive_search_membership(query: Seq<char>, text: Seq<char>)
    ensures
        forall|line: Seq<char>| #[trigger] case_insensitive_matches(query, text).contains(line)
            <==> spec_lines(text).contains(line) && has_substring(lower_of(line), lower_of(query)),
{
    lemma_filter_membership(spec_lines(text), folded_pred(query));
}

/// `xs` is obtained from `ys` by deleting elements without reordering the
/// ones that remain.
pub open spec fn is_subsequence_of<A>(xs: Seq<A>, ys: Seq<A>) -> bool
    decreases ys.len(),
{
    if xs.len() == 0 {
        true
    } else if ys.len() == 0 {
        false
    } else {
        (xs.last() == ys.last() && is_subsequence_of(xs.drop_last(), ys.drop_last()))
            || is_subsequence_of(xs, ys.drop_last())
    }
}

/// Filtering a sequence yields a subsequence of it.
pub(crate) proof fn lemma_filter_is_subsequence<A>(s: Seq<A>, pred: spec_fn(A) -> bool)
    ensures
        is_subsequence_of(s.filter(pred), s),
    decreases s.len(),
{
    reveal(Seq::filter);
    if s.len() > 0 {
        let rest = s.drop_last();
        lemma_filter_is_subsequence(rest, pred);
        if pred(s.last()) {
            assert(s.filter(pred) == rest.filter(pred).push(s.last()));
            assert(s.filter(pred).drop_last() =~= rest.filter(pred));
            assert(s.filter(pred).last() == s.last());
        }
    }
}

/// Order preservation: under either policy, the result is a subsequence of
/// the text's lines in their original order.
pub proof fn lemma_search_result_is_subsequence(
    policy: MatchPolicy,
    query: Seq<char>,
    text: Seq<char>,
)
    ensures
        is_subsequence_of(matches_under(policy, query, text), spec_lines(text)),
{
    match policy {
        MatchPolicy::Exact => lemma_filter_is_subsequence(spec_lines(text), exact_pred(query)),
        MatchPolicy::CaseInsensitive => lemma_filter_is_subsequence(
            spec_lines(text),
            folded_pred(query),
        ),
    }
}

/// An empty query matches every line: the exact-policy result is all lines
/// of the text.
pub proof fn lemma_empty_query_matches_every_line(query: Seq<char>, text: Seq<char>)
    requires
        query.len() == 0,
    ensures
        exact_matches(query, text) == spec_lines(text),
{
    let lines = spec_lines(text);
    assert forall|i: int| 0 <= i < lines.len() implies exact_pred(query)(lines[i]) by {
        lemma_empty_needle_matches(lines[i], query);
    }
    lemma_filter_keeps_all(lines, exact_pred(query));
}

/// A query whose lowercase form is empty matches every line under the
/// case-insensitive policy. (That an empty query folds to an empty sequence
/// is stated where `str::to_lowercase` is trusted, so the search function's
/// own contract extends this to every empty query.)
pub proof fn lemma_empty_folded_query_matches_every_line(query: Seq<char>, text: Seq<char>)
    requires
        lower_of(query).len() == 0,
    ensures
        case_insensitive_matches(query, text) == spec_lines(text),
{
    let lines = spec_lines(text);
    assert forall|i: int| 0 <= i < lines.len() implies folded_pred(query)(lines[i]) by {
        lemma_empty_needle_matches(lower_of(lines[i]), lower_of(query));
    }
    lemma_filter_keeps_all(lines, folded_pred(query));
}

/// Empty text yields an empty result under either policy.
pub proof fn lemma_empty_text_yields_empty_result(
    policy: MatchPolicy,
    query: Seq<char>,
    text: Seq<char>,
)
    requires
        text.len() == 0,
    ensures
        matches_under(policy, query, text) == Seq::<Seq<char>>::empty(),
{
    assert(spec_lines(text) == Seq::<Seq<char>>::empty());
    match policy {
        MatchPolicy::Exact => {
            assert(exact_matches(query, text) =~= Seq::<Seq<char>>::empty());
        },
        MatchPolicy::CaseInsensitive => {
            assert(case_insensitive_matches(query, text) =~= Seq::<Seq<char>>::empty());
        },
    }
}

/// Search is a pure function: `matches_under` determines the result from
/// policy, query and text alone, so re-running a search with identical
/// inputs yields an identical result.
pub proof fn lemma_search_deterministic(
    policy: MatchPolicy,
    query: Seq<char>,
    text: Seq<char>,
    first: Seq<Seq<char>>,
    second: Seq<Seq<char>>,
)
    requires
        first == matches_under(policy, query, text),
        second == matches_under(policy, query, text),
    ensures
        first == second,
{
}

} // verus!
