//! What holds of every search, stated over `search_results`, the value that
//! `search` returns.

use vstd::prelude::*;
use crate::model::{EntryView, SearchResultView};
use crate::search::{
    all_matches, all_shortcuts, first_up_to, from_matching_entry, lemma_filter_map_add,
    matches_in, query_key, search_results, select, selector, shortcut_picker, MAX_RESULTS,
};
use crate::shortcut::{has_extension, stem};
use crate::text::{is_substring, lowercase, occurs_at};

verus! {

/// A non-empty stem, a dot and the extension make a shortcut's name, and the
/// shortcut is shown by that stem.
pub proof fn lemma_stem_of_joined(shown: Seq<char>, ext: Seq<char>)
    requires
        shown.len() > 0,
    ensures
        has_extension(shown + seq!['.'] + ext, ext),
        stem(shown + seq!['.'] + ext, ext) == shown,
{
    let name = shown + seq!['.'] + ext;
    assert(stem(name, ext) =~= shown);
}

/// A search never returns more than `MAX_RESULTS` results: it returns all
/// matches where there are at most that many, and exactly that many otherwise.
pub proof fn lemma_results_are_capped(
    query: Seq<char>,
    roots: Seq<Seq<Option<EntryView>>>,
    ext: Seq<char>,
)
    ensures
        search_results(query, roots, ext).len() <= MAX_RESULTS,
        search_results(query, roots, ext).len() == if all_matches(query_key(query), roots, ext).len()
            <= MAX_RESULTS {
            all_matches(query_key(query), roots, ext).len()
        } else {
            MAX_RESULTS as nat
        },
{
}

/// With no root to look under, a search finds nothing.
pub proof fn lemma_no_roots_no_results(query: Seq<char>, ext: Seq<char>)
    ensures
        search_results(query, Seq::empty(), ext) == Seq::<SearchResultView>::empty(),
{
    assert(Seq::<Seq<Option<EntryView>>>::empty().flatten() =~= Seq::empty());
}

/// Each element of a flattened sequence stands at some place in one of the parts.
pub proof fn lemma_flatten_origin<A>(parts: Seq<Seq<A>>, k: int) -> (place: (int, int))
    requires
        0 <= k < parts.flatten().len(),
    ensures
        0 <= place.0 < parts.len(),
        0 <= place.1 < parts[place.0].len(),
        parts[place.0][place.1] == parts.flatten()[k],
    decreases parts.len(),
{
    if k < parts.first().len() {
        (0, k)
    } else {
        let inner = lemma_flatten_origin(parts.drop_first(), k - parts.first().len());
        (inner.0 + 1, inner.1)
    }
}

/// Two functions that agree on every element of `s` give the same `filter_map`.
pub proof fn lemma_filter_map_agree<A, B>(
    s: Seq<A>,
    f: spec_fn(A) -> Option<B>,
    g: spec_fn(A) -> Option<B>,
)
    requires
        forall|i: int| 0 <= i < s.len() ==> f(#[trigger] s[i]) == g(s[i]),
    ensures
        s.filter_map(f) == s.filter_map(g),
    decreases s.len(),
{
    if s.len() > 0 {
        assert forall|i: int| 0 <= i < s.drop_last().len() implies f(#[trigger] s.drop_last()[i])
            == g(s.drop_last()[i]) by {
            assert(s.drop_last()[i] == s[i]);
        }
        lemma_filter_map_agree(s.drop_last(), f, g);
        assert(f(s.last()) == g(s.last())) by {
            assert(s.last() == s[s.len() - 1]);
        }
    }
}

/// Every result of a search stands for an entry that a walk read, that is a
/// shortcut, and whose lower-cased file name contains the lower-cased query;
/// and every result is well formed.
pub proof fn lemma_results_come_from_matches(
    query: Seq<char>,
    roots: Seq<Seq<Option<EntryView>>>,
    ext: Seq<char>,
)
    ensures
        forall|k: int|
            0 <= k < search_results(query, roots, ext).len() ==> from_matching_entry(
                #[trigger] search_results(query, roots, ext)[k],
                query,
                roots,
                ext,
            ) && search_results(query, roots, ext)[k].well_formed(),
{
    let key = query_key(query);
    let flat = roots.flatten();
    let f = selector(key, ext);
    let matches = all_matches(key, roots, ext);
    let results = search_results(query, roots, ext);
    assert forall|k: int| 0 <= k < results.len() implies from_matching_entry(
        #[trigger] results[k],
        query,
        roots,
        ext,
    ) && results[k].well_formed() by {
        let result = results[k];
        assert(matches[k] == result);
        assert(matches.contains(result));
        flat.lemma_filter_map_contains(f, result);
        let item = choose|item: Option<EntryView>| #[trigger]
            flat.contains(item) && f(item) == Some(result);
        let at = choose|at: int| 0 <= at < flat.len() && flat[at] == item;
        let place = lemma_flatten_origin(roots, at);
        assert(roots[place.0][place.1] == item);
        assert(select(key, item, ext) == Some(result));
    }
}

/// The empty query filters nothing by name: the search returns the first
/// `MAX_RESULTS` of all shortcuts that the walks read.
pub proof fn lemma_empty_query_keeps_every_shortcut(
    roots: Seq<Seq<Option<EntryView>>>,
    ext: Seq<char>,
)
    ensures
        search_results(Seq::empty(), roots, ext) == first_up_to(
            all_shortcuts(roots, ext),
            MAX_RESULTS as nat,
        ),
{
    let empty = Seq::<char>::empty();
    let flat = roots.flatten();
    assert forall|i: int| 0 <= i < flat.len() implies selector(empty, ext)(#[trigger] flat[i])
        == shortcut_picker(ext)(flat[i]) by {
        if let Some(entry) = flat[i] {
            lemma_empty_is_everywhere(lowercase(entry.file_name));
        }
    }
    lemma_filter_map_agree(flat, selector(empty, ext), shortcut_picker(ext));
}

/// A walk in which nothing could be read yields no match.
pub proof fn lemma_unreadable_walk_yields_nothing(
    key: Seq<char>,
    items: Seq<Option<EntryView>>,
    ext: Seq<char>,
)
    requires
        forall|j: int| 0 <= j < items.len() ==> (#[trigger] items[j]) is None,
    ensures
        matches_in(key, items, ext) == Seq::<SearchResultView>::empty(),
    decreases items.len(),
{
    if items.len() > 0 {
        assert forall|j: int| 0 <= j < items.drop_last().len() implies (
        #[trigger] items.drop_last()[j]) is None by {
            assert(items.drop_last()[j] == items[j]);
        }
        lemma_unreadable_walk_yields_nothing(key, items.drop_last(), ext);
        assert(items.last() == items[items.len() - 1]);
    }
}

/// A root under which nothing could be read, as when the directory does not
/// exist, is as good as absent: the search returns what it returns without
/// that root.
pub proof fn lemma_unreadable_root_is_as_absent(
    query: Seq<char>,
    roots: Seq<Seq<Option<EntryView>>>,
    at: int,
    ext: Seq<char>,
)
    requires
        0 <= at < roots.len(),
        forall|j: int| 0 <= j < roots[at].len() ==> (#[trigger] roots[at][j]) is None,
    ensures
        search_results(query, roots.remove(at), ext) == search_results(query, roots, ext),
{
    let key = query_key(query);
    let f = selector(key, ext);
    let before = roots.take(at);
    let after = roots.skip(at + 1);
    assert(roots =~= before.push(roots[at]) + after);
    assert(roots.remove(at) =~= before + after);
    vstd::seq_lib::lemma_flatten_concat(before.push(roots[at]), after);
    vstd::seq_lib::lemma_flatten_concat(before, after);
    before.lemma_flatten_push(roots[at]);
    lemma_filter_map_add(before.flatten() + roots[at], after.flatten(), f);
    lemma_filter_map_add(before.flatten(), roots[at], f);
    lemma_filter_map_add(before.flatten(), after.flatten(), f);
    lemma_unreadable_walk_yields_nothing(key, roots[at], ext);
    assert(before.flatten().filter_map(f) + Seq::<SearchResultView>::empty()
        =~= before.flatten().filter_map(f));
}

/// A search is a function of the query, the walks and the extension: where
/// these are the same, so are the results, one for one and in the same order.
pub proof fn lemma_search_is_repeatable(
    query: Seq<char>,
    roots: Seq<Seq<Option<EntryView>>>,
    ext: Seq<char>,
    first: Seq<SearchResultView>,
    second: Seq<SearchResultView>,
)
    requires
        first == search_results(query, roots, ext),
        second == search_results(query, roots, ext),
    ensures
        first == second,
{
}

/// The empty sequence is a part of every sequence.
pub proof fn lemma_empty_is_everywhere(hay: Seq<char>)
    ensures
        is_substring(Seq::empty(), hay),
{
    assert(hay.subrange(0, 0) =~= Seq::<char>::empty());
    assert(occurs_at(Seq::empty(), hay, 0));
}

} // verus!
