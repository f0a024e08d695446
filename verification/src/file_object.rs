//! A list item around a [`FileEntry`].
//!
//! The entry is replaced wholesale on refresh, which lets a re-scan reuse
//! existing objects instead of rebuilding the model and losing the selection.

use crate::entry::EntryView;
use crate::entry::FileEntry;
use crate::path::FilePath;
use crate::text;
use std::cmp::Ordering;
use vstd::prelude::*;
use vstd::string::*;

verus! {

/// A list item. One that has just been made by the toolkit holds no entry yet.
#[derive(Debug)]
pub struct FileObject {
    /// The entry.
    pub entry: Option<FileEntry>,
}

impl View for FileObject {
    type V = Option<EntryView>;

    open spec fn view(&self) -> Option<EntryView> {
        match self.entry {
            Some(entry) => Some(entry@),
            None => None,
        }
    }
}

/// Where an item is; one without an entry is at the empty path.
pub open spec fn object_path(object: Option<EntryView>) -> Seq<u8> {
    match object {
        Some(entry) => entry.path,
        None => Seq::empty(),
    }
}

impl FileObject {
    /// An item that holds `entry`.
    pub fn new(entry: FileEntry) -> (r: FileObject)
        ensures
            r.entry == Some(entry),
            r@ == Some(entry@),
    {
        FileObject { entry: Some(entry) }
    }

    /// A copy of the entry.
    pub fn entry(&self) -> (r: FileEntry)
        requires
            self.entry is Some,
        ensures
            self@ == Some(r@),
    {
        self.entry.as_ref().unwrap().copy()
    }

    /// A copy of the item.
    pub fn copy(&self) -> (r: FileObject)
        ensures
            r@ == self@,
    {
        match &self.entry {
            Some(entry) => FileObject { entry: Some(entry.copy()) },
            None => FileObject { entry: None },
        }
    }

    /// Where the item is.
    pub fn path(&self) -> (r: FilePath)
        ensures
            r@ == object_path(self@),
    {
        match &self.entry {
            Some(entry) => entry.path.copy(),
            None => {
                let r = FilePath::from_bytes(Vec::new());
                assert(r@ =~= Seq::<u8>::empty());
                r
            },
        }
    }

    /// Whether the item is a folder.
    pub fn is_dir(&self) -> (r: bool)
        ensures
            r == (self@ matches Some(entry) && entry.is_dir),
    {
        match &self.entry {
            Some(entry) => entry.is_dir,
            None => false,
        }
    }

    /// The name that is shown.
    pub fn display_name(&self) -> (r: String)
        ensures
            r@ == (match self@ {
                Some(entry) => entry.display_name,
                None => ""@,
            }),
    {
        match &self.entry {
            Some(entry) => text::copied(entry.display_name.as_str()),
            None => text::copied(""),
        }
    }

    /// Substring match against the precomputed lowercase name.
    pub fn matches_search(&self, lowercase_query: &str) -> (r: bool)
        ensures
            r == (self@ matches Some(entry) && text::contains_text(
                entry.search_key,
                lowercase_query@,
            )),
    {
        match &self.entry {
            Some(entry) => text::contains(entry.search_key.as_str(), lowercase_query),
            None => false,
        }
    }

    /// Orders two items by their entries, without copying either. Items of
    /// which one holds no entry are equal.
    pub fn compare_to<F: Fn(&FileEntry, &FileEntry) -> Ordering>(
        &self,
        other: &FileObject,
        compare: F,
    ) -> (r: Ordering)
        requires
            self.entry is Some && other.entry is Some ==> call_requires(
                compare,
                (&self.entry->0, &other.entry->0),
            ),
        ensures
            match (self.entry, other.entry) {
                (Some(a), Some(b)) => call_ensures(compare, (&a, &b), r),
                _ => r == Ordering::Equal,
            },
    {
        match (&self.entry, &other.entry) {
            (Some(a), Some(b)) => compare(a, b),
            _ => Ordering::Equal,
        }
    }

    /// Whether the item is hidden.
    pub fn is_hidden(&self) -> (r: bool)
        ensures
            r == (self@ matches Some(entry) && entry.is_hidden),
    {
        match &self.entry {
            Some(entry) => entry.is_hidden,
            None => false,
        }
    }

    /// Puts another entry in the item.
    pub fn replace(&mut self, entry: FileEntry)
        ensures
            final(self).entry == Some(entry),
            final(self)@ == Some(entry@),
    {
        self.entry = Some(entry);
    }
}

} // verus!
