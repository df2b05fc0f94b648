//! Which file names are shortcuts, and how a shortcut is shown.

use vstd::prelude::*;
use vstd::string::StrSliceExecFns;
use vstd::string::StringExecFns;
use crate::model::{Entry, EntryView, SearchResult, SearchResultView, ICON_PLACEHOLDER};

verus! {

/// What is left of `name` without a dot and `ext` at its end.
pub open spec fn stem(name: Seq<char>, ext: Seq<char>) -> Seq<char> {
    name.take(name.len() - ext.len() - 1)
}

/// `name` is a non-empty stem, a dot, and `ext`. The comparison is exact:
/// upper and lower case differ.
pub open spec fn has_extension(name: Seq<char>, ext: Seq<char>) -> bool {
    &&& name.len() > ext.len() + 1
    &&& name == stem(name, ext) + seq!['.'] + ext
}

/// The result that stands for the shortcut `entry`.
pub open spec fn result_for(entry: EntryView, ext: Seq<char>) -> SearchResultView {
    SearchResultView {
        display_name: stem(entry.file_name, ext),
        icon_ref: ICON_PLACEHOLDER@,
        location: entry.location,
    }
}

/// What the entry contributes to a listing of all shortcuts: its result if
/// its file name has the extension, nothing otherwise.
pub open spec fn shortcut_of(entry: EntryView, ext: Seq<char>) -> Option<SearchResultView> {
    if has_extension(entry.file_name, ext) {
        Some(result_for(entry, ext))
    } else {
        None
    }
}

/// Whether `name` ends in a dot and `ext`, with something before the dot.
pub fn ends_with_extension(name: &Vec<char>, ext: &Vec<char>) -> (yes: bool)
    ensures
        yes == has_extension(name@, ext@),
{
    let n: usize = name.len();
    let e: usize = ext.len();
    if n <= e || n - e < 2 {
        return false;
    }
    let dot: usize = n - e - 1;
    if name[dot] != '.' {
        assert((stem(name@, ext@) + seq!['.'] + ext@)[dot as int] == '.');
        return false;
    }
    let mut k: usize = 0;
    while k < e
        invariant
            n == name.len(),
            e == ext.len(),
            dot == n - e - 1,
            n > e + 1,
            k <= e,
            forall|j: int| 0 <= j < k ==> name@[dot + 1 + j] == ext@[j],
        decreases e - k,
    {
        if name[dot + 1 + k] != ext[k] {
            assert((stem(name@, ext@) + seq!['.'] + ext@)[dot + 1 + k] == ext@[k as int]);
            return false;
        }
        k += 1;
    }
    assert(name@ =~= stem(name@, ext@) + seq!['.'] + ext@);
    true
}

/// Builds the result for `entry` if its file name is a shortcut's, that is if
/// it has the extension `ext`.
pub fn shortcut_result(entry: &Entry, ext: &Vec<char>) -> (result: Option<SearchResult>)
    ensures
        result.deep_view() == shortcut_of(entry@, ext@),
{
    let name = crate::text::chars_of(entry.file_name.as_str());
    if !ends_with_extension(&name, ext) {
        return None;
    }
    let stem_len: usize = name.len() - ext.len() - 1;
    let display_name = String::from_str(entry.file_name.as_str().substring_char(0, stem_len));
    Some(
        SearchResult {
            display_name,
            icon_ref: String::from_str(ICON_PLACEHOLDER),
            location: entry.location.clone(),
        },
    )
}

} // verus!
