//! The values that a search takes and gives: what a walk of a root directory
//! produced, and the results built from it.

use vstd::prelude::*;

verus! {

/// The icon reference that every result carries.
pub const ICON_PLACEHOLDER: &'static str = "application";

/// One file-system entry that a walk of a root directory produced.
#[derive(Clone, Debug, PartialEq, Eq)]
pub struct Entry {
    /// The last component of the entry's path.
    pub file_name: String,
    /// The entry's absolute path.
    pub location: String,
}

/// An `Entry` as contracts see it.
pub struct EntryView {
    pub file_name: Seq<char>,
    pub location: Seq<char>,
}

impl View for Entry {
    type V = EntryView;

    open spec fn view(&self) -> EntryView {
        EntryView { file_name: self.file_name@, location: self.location@ }
    }
}

impl DeepView for Entry {
    type V = EntryView;

    open spec fn deep_view(&self) -> EntryView {
        self@
    }
}

/// One step of a walk: an entry that was read, or one that could not be.
#[derive(Clone, Debug, PartialEq, Eq)]
pub enum WalkItem {
    Found(Entry),
    Unreadable,
}

impl View for WalkItem {
    type V = Option<EntryView>;

    open spec fn view(&self) -> Option<EntryView> {
        match self {
            WalkItem::Found(entry) => Some(entry@),
            WalkItem::Unreadable => None,
        }
    }
}

impl DeepView for WalkItem {
    type V = Option<EntryView>;

    open spec fn deep_view(&self) -> Option<EntryView> {
        self@
    }
}

/// One shortcut that matched a query.
#[derive(Clone, Debug, PartialEq, Eq)]
pub struct SearchResult {
    /// The shortcut's file name without its extension.
    pub display_name: String,
    /// Names the icon to show beside the result.
    pub icon_ref: String,
    /// The absolute path of the shortcut file.
    pub location: String,
}

/// A `SearchResult` as contracts see it.
pub struct SearchResultView {
    pub display_name: Seq<char>,
    pub icon_ref: Seq<char>,
    pub location: Seq<char>,
}

impl SearchResultView {
    /// What holds of every result that a search builds: it has a name to
    /// show, and its icon is the placeholder.
    pub open spec fn well_formed(self) -> bool {
        &&& self.display_name.len() > 0
        &&& self.icon_ref == ICON_PLACEHOLDER@
    }
}

impl View for SearchResult {
    type V = SearchResultView;

    open spec fn view(&self) -> SearchResultView {
        SearchResultView {
            display_name: self.display_name@,
            icon_ref: self.icon_ref@,
            location: self.location@,
        }
    }
}

impl DeepView for SearchResult {
    type V = SearchResultView;

    open spec fn deep_view(&self) -> SearchResultView {
        self@
    }
}

} // verus!
