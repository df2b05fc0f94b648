//! The search itself: from a query and what the walks of the root
//! directories produced to the capped list of matching shortcuts.

use vstd::prelude::*;
use crate::model::{EntryView, SearchResult, SearchResultView, WalkItem};
use crate::shortcut::{has_extension, result_for, shortcut_of, shortcut_result};
use crate::text::{chars_of, contains_chars, is_substring, lowercase, to_lower};

verus! {

/// The largest number of results that one search hands back.
pub const MAX_RESULTS: usize = 5;

/// The first `limit` elements of `s`, or all of `s` where it is shorter.
pub open spec fn first_up_to<A>(s: Seq<A>, limit: nat) -> Seq<A> {
    if s.len() <= limit {
        s
    } else {
        s.take(limit as int)
    }
}

/// What a query is compared by: its lower-case form. The empty query stays
/// empty, and so is a part of every name.
pub open spec fn query_key(query: Seq<char>) -> Seq<char> {
    if query.len() == 0 {
        query
    } else {
        lowercase(query)
    }
}

/// What one step of a walk contributes to a search by `key`: the result for
/// the entry, if it was read, is a shortcut, and its lower-cased file name
/// contains `key`.
pub open spec fn select(key: Seq<char>, item: Option<EntryView>, ext: Seq<char>) -> Option<
    SearchResultView,
> {
    match item {
        Some(entry) => if is_substring(key, lowercase(entry.file_name)) {
            shortcut_of(entry, ext)
        } else {
            None
        },
        None => None,
    }
}

/// `select` with the key and the extension fixed.
pub open spec fn selector(key: Seq<char>, ext: Seq<char>) -> spec_fn(Option<EntryView>) -> Option<
    SearchResultView,
> {
    |item: Option<EntryView>| select(key, item, ext)
}

/// The results for all of `items` that `select` keeps, in the order of `items`.
pub open spec fn matches_in(key: Seq<char>, items: Seq<Option<EntryView>>, ext: Seq<char>) -> Seq<
    SearchResultView,
> {
    items.filter_map(selector(key, ext))
}

/// The matches of all roots: those of the first root, then those of the
/// second, and so on.
pub open spec fn all_matches(
    key: Seq<char>,
    roots: Seq<Seq<Option<EntryView>>>,
    ext: Seq<char>,
) -> Seq<SearchResultView> {
    matches_in(key, roots.flatten(), ext)
}

/// What a search returns.
pub open spec fn search_results(
    query: Seq<char>,
    roots: Seq<Seq<Option<EntryView>>>,
    ext: Seq<char>,
) -> Seq<SearchResultView> {
    first_up_to(all_matches(query_key(query), roots, ext), MAX_RESULTS as nat)
}

/// `result` stands for an entry that some walk read, that is a shortcut, and
/// whose lower-cased file name contains the key of `query`.
pub open spec fn from_matching_entry(
    result: SearchResultView,
    query: Seq<char>,
    roots: Seq<Seq<Option<EntryView>>>,
    ext: Seq<char>,
) -> bool {
    exists|i: int, j: int|
        0 <= i < roots.len() && 0 <= j < roots[i].len() && (#[trigger] roots[i][j] matches Some(
            entry,
        ) && has_extension(entry.file_name, ext) && is_substring(
            query_key(query),
            lowercase(entry.file_name),
        ) && result == result_for(entry, ext))
}

/// What one step of a walk contributes to a listing of all shortcuts.
pub open spec fn shortcut_picker(ext: Seq<char>) -> spec_fn(Option<EntryView>) -> Option<
    SearchResultView,
> {
    |item: Option<EntryView>|
        match item {
            Some(entry) => shortcut_of(entry, ext),
            None => None,
        }
}

/// The results for every shortcut that the walks read, whatever its name, in
/// the order of the walks.
pub open spec fn all_shortcuts(roots: Seq<Seq<Option<EntryView>>>, ext: Seq<char>) -> Seq<
    SearchResultView,
> {
    roots.flatten().filter_map(shortcut_picker(ext))
}

/// `filter_map` goes through a concatenation part by part.
pub proof fn lemma_filter_map_add<A, B>(a: Seq<A>, b: Seq<A>, f: spec_fn(A) -> Option<B>)
    ensures
        (a + b).filter_map(f) == a.filter_map(f) + b.filter_map(f),
    decreases b.len(),
{
    if b.len() == 0 {
        assert(a + b =~= a);
        assert(a.filter_map(f) + b.filter_map(f) =~= a.filter_map(f));
    } else {
        assert((a + b).drop_last() =~= a + b.drop_last());
        assert((a + b).last() == b.last());
        lemma_filter_map_add(a, b.drop_last(), f);
        match f(b.last()) {
            Some(r) => {
                assert((a.filter_map(f) + b.drop_last().filter_map(f)) + seq![r] =~= a.filter_map(f)
                    + (b.drop_last().filter_map(f) + seq![r]));
            },
            None => {},
        }
    }
}

/// Where the front part fits under the limit, the cut falls in the back part.
pub proof fn lemma_first_up_to_add<A>(a: Seq<A>, b: Seq<A>, limit: nat)
    requires
        a.len() <= limit,
    ensures
        first_up_to(a + b, limit) == a + first_up_to(b, (limit - a.len()) as nat),
{
    assert(first_up_to(a + b, limit) =~= a + first_up_to(b, (limit - a.len()) as nat));
}

/// Where the front part fills the limit, the back part does not count.
pub proof fn lemma_first_up_to_full<A>(a: Seq<A>, b: Seq<A>, limit: nat)
    requires
        a.len() >= limit,
    ensures
        first_up_to(a + b, limit) == first_up_to(a, limit),
{
    assert(first_up_to(a + b, limit) =~= first_up_to(a, limit));
}

/// Decides on one step of a walk: the result for the entry if it was read, is
/// a shortcut and matches `key`, nothing otherwise. `key` is compared with the
/// lower-cased file name as it stands.
pub fn examine(item: &WalkItem, key: &Vec<char>, ext: &Vec<char>) -> (result: Option<SearchResult>)
    ensures
        result.deep_view() == select(key@, item@, ext@),
{
    match item {
        WalkItem::Unreadable => None,
        WalkItem::Found(entry) => {
            let candidate = shortcut_result(entry, ext);
            if candidate.is_none() {
                return None;
            }
            if key.len() == 0 {
                assert(crate::text::occurs_at(key@, lowercase(entry@.file_name), 0)) by {
                    assert(lowercase(entry@.file_name).subrange(0, 0) =~= key@);
                }
                return candidate;
            }
            let lowered = to_lower(entry.file_name.as_str());
            let name = chars_of(lowered.as_str());
            if contains_chars(&name, key) {
                candidate
            } else {
                None
            }
        },
    }
}

/// Walks through `items` in order and collects the results of those that
/// `examine` keeps, until there are `room` of them or `items` ends.
pub fn collect_from(items: &Vec<WalkItem>, key: &Vec<char>, ext: &Vec<char>, room: usize) -> (found:
    Vec<SearchResult>)
    ensures
        found.deep_view() == first_up_to(matches_in(key@, items.deep_view(), ext@), room as nat),
{
    let mut found: Vec<SearchResult> = Vec::new();
    let mut j: usize = 0;
    let ghost all = items.deep_view();
    let ghost f = selector(key@, ext@);
    assert(found.deep_view() =~= all.take(0).filter_map(f));
    while j < items.len() && found.len() < room
        invariant
            all == items.deep_view(),
            f == selector(key@, ext@),
            j <= items.len(),
            found.len() <= room,
            found.deep_view() == first_up_to(all.take(j as int).filter_map(f), room as nat),
        decreases items.len() - j,
    {
        let ghost before = found.deep_view();
        let picked = examine(&items[j], key, ext);
        proof {
            assert(all[j as int] == items[j as int]@);
            all.lemma_filter_map_take_succ(f, j as int);
        }
        match picked {
            Some(result) => {
                found.push(result);
                assert(found.deep_view() =~= before + seq![result@]);
            },
            None => {
                assert(found.deep_view() =~= before + Seq::<SearchResultView>::empty());
            },
        }
        j += 1;
    }
    proof {
        let done = all.take(j as int);
        let rest = all.skip(j as int);
        assert(done + rest =~= all);
        lemma_filter_map_add(done, rest, f);
        if j < items.len() {
            lemma_first_up_to_full(done.filter_map(f), rest.filter_map(f), room as nat);
        } else {
            assert(done =~= all);
        }
    }
    found
}

/// The search for a key that is already in its lower-case form: the first
/// `MAX_RESULTS` matches of `key` over all roots.
pub fn search_by_key(key: &Vec<char>, roots: &Vec<Vec<WalkItem>>, ext: &Vec<char>) -> (results: Vec<
    SearchResult,
>)
    ensures
        results.deep_view() == first_up_to(
            all_matches(key@, roots.deep_view(), ext@),
            MAX_RESULTS as nat,
        ),
{
    let mut results: Vec<SearchResult> = Vec::new();
    let mut i: usize = 0;
    let ghost listed = roots.deep_view();
    assert(listed.take(0) =~= Seq::<Seq<Option<EntryView>>>::empty());
    assert(results.deep_view() =~= all_matches(key@, listed.take(0), ext@));
    while i < roots.len() && results.len() < MAX_RESULTS
        invariant
            listed == roots.deep_view(),
            i <= roots.len(),
            results.len() <= MAX_RESULTS,
            results.deep_view() == first_up_to(
                all_matches(key@, listed.take(i as int), ext@),
                MAX_RESULTS as nat,
            ),
        decreases roots.len() - i,
    {
        let ghost before = results.deep_view();
        let mut found = collect_from(&roots[i], key, ext, MAX_RESULTS - results.len());
        let ghost added = found.deep_view();
        results.append(&mut found);
        proof {
            assert(results.deep_view() =~= before + added);
            assert(listed[i as int] == roots[i as int].deep_view());
            assert(listed.take(i + 1) =~= listed.take(i as int).push(listed[i as int]));
            listed.take(i as int).lemma_flatten_push(listed[i as int]);
            lemma_filter_map_add(
                listed.take(i as int).flatten(),
                listed[i as int],
                selector(key@, ext@),
            );
            lemma_first_up_to_add(
                before,
                matches_in(key@, listed[i as int], ext@),
                MAX_RESULTS as nat,
            );
        }
        i += 1;
    }
    proof {
        let done = listed.take(i as int);
        let rest = listed.skip(i as int);
        assert(done + rest =~= listed);
        vstd::seq_lib::lemma_flatten_concat(done, rest);
        lemma_filter_map_add(done.flatten(), rest.flatten(), selector(key@, ext@));
        if i < roots.len() {
            lemma_first_up_to_full(
                all_matches(key@, done, ext@),
                all_matches(key@, rest, ext@),
                MAX_RESULTS as nat,
            );
        } else {
            assert(done =~= listed);
        }
    }
    results
}

/// The key by which `query` is compared.
pub fn key_of(query: &str) -> (key: Vec<char>)
    ensures
        key@ == query_key(query@),
{
    if query.is_empty() {
        let key: Vec<char> = Vec::new();
        assert(key@ =~= query@);
        key
    } else {
        let lowered = to_lower(query);
        chars_of(lowered.as_str())
    }
}

/// Searches what the walks of the root directories produced for shortcuts
/// whose names contain `query`, upper and lower case taken as one.
///
/// `roots` holds one walk for each configured root directory, in the order of
/// the roots; each walk lists its steps in the order in which the directory
/// tree was enumerated. `extension` is the shortcut extension without its dot.
///
/// The results are those of the first `MAX_RESULTS` matches in that order. A
/// step that could not be read contributes nothing, and neither does a root
/// without steps. The empty query keeps every shortcut.
pub fn search(query: &str, roots: &Vec<Vec<WalkItem>>, extension: &str) -> (results: Vec<
    SearchResult,
>)
    ensures
        results.deep_view() == search_results(query@, roots.deep_view(), extension@),
        results.len() <= MAX_RESULTS,
        roots.len() == 0 ==> results.len() == 0,
        query@.len() == 0 ==> results.deep_view() == first_up_to(
            all_shortcuts(roots.deep_view(), extension@),
            MAX_RESULTS as nat,
        ),
        forall|k: int|
            0 <= k < results.len() ==> from_matching_entry(
                #[trigger] results[k]@,
                query@,
                roots.deep_view(),
                extension@,
            ),
        forall|k: int| 0 <= k < results.len() ==> (#[trigger] results[k]@).well_formed(),
{
    let key = key_of(query);
    let ext = chars_of(extension);
    let results = search_by_key(&key, roots, &ext);
    proof {
        let listed = roots.deep_view();
        crate::laws::lemma_results_are_capped(query@, listed, extension@);
        crate::laws::lemma_no_roots_no_results(query@, extension@);
        crate::laws::lemma_empty_query_keeps_every_shortcut(listed, extension@);
        crate::laws::lemma_results_come_from_matches(query@, listed, extension@);
        assert(listed.len() == 0 ==> listed =~= Seq::empty());
        assert(query@.len() == 0 ==> query@ =~= Seq::empty());
        assert forall|k: int| 0 <= k < results.len() implies from_matching_entry(
            #[trigger] results[k]@,
            query@,
            listed,
            extension@,
        ) && results[k]@.well_formed() by {
            assert(results.deep_view()[k] == results[k]@);
        }
    }
    results
}

} // verus!
