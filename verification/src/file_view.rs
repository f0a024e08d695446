//! The two file presentations: an icon grid and a details list.
//!
//! Both are driven by one list, one filter, one sort order and one selection,
//! so switching views keeps them exactly as they were. The details list's sort
//! column is the single source of sort truth for *both* views, which is what
//! lets the grid follow a column header click.
//!
//! The toolkit sorts. What depends on the order takes it as an argument: the
//! positions of the listed items in the order in which the view shows them.

use crate::caption;
use crate::entry::EntryView;
use crate::entry::FileEntry;
use crate::entry::SortKey;
use crate::entry::ViewMode;
use crate::file_object;
use crate::file_object::FileObject;
use crate::outside;
use crate::path;
use crate::path::FilePath;
use crate::text;
use crate::thumbs;
use crate::thumbs::CacheKey;
use crate::thumbs::ThemedIcon;
use vstd::prelude::*;
use vstd::string::*;

verus! {

// ── the filter ─────────────────────────────────────────────────────────────

/// Whether an item passes the filter: hidden ones only where they are shown,
/// and with a search only those whose names hold what is searched for.
pub open spec fn passes(object: Option<EntryView>, show_hidden: bool, search: Seq<char>) -> bool {
    &&& (object matches Some(entry) && entry.is_hidden) ==> show_hidden
    &&& search.len() == 0 || (object matches Some(entry) && text::contains_text(
        entry.search_key,
        search,
    ))
}

/// Hidden-file and live-search filtering.
pub fn filter(object: &FileObject, show_hidden: bool, search: &str) -> (r: bool)
    ensures
        r == passes(object@, show_hidden, search@),
{
    if object.is_hidden() && !show_hidden {
        return false;
    }
    if text::chars_of(search).len() == 0 {
        return true;
    }
    object.matches_search(search)
}

/// How a filter has changed, which lets the toolkit re-test only the items that
/// can possibly have flipped.
#[derive(Clone, Copy, Debug, PartialEq, Eq, Structural)]
pub enum FilterChange {
    /// Matches can only have gone.
    MoreStrict,
    /// Matches can only have come.
    LessStrict,
    /// Both.
    Different,
}

/// How the filter changes from one search to another.
pub open spec fn change_of(previous: Seq<char>, query: Seq<char>) -> Option<FilterChange> {
    if query == previous {
        None
    } else if previous.is_prefix_of(query) {
        Some(FilterChange::MoreStrict)
    } else if query.is_prefix_of(previous) {
        Some(FilterChange::LessStrict)
    } else {
        Some(FilterChange::Different)
    }
}

/// What holds a text holds each text that begins it.
proof fn lemma_contains_prefix(hay: Seq<char>, needle: Seq<char>, prefix: Seq<char>)
    requires
        text::contains_text(hay, needle),
        prefix.is_prefix_of(needle),
    ensures
        text::contains_text(hay, prefix),
{
    let i = choose|i: int| text::stands_at(hay, needle, i);
    assert(text::stands_at(hay, needle, i));
    assert(hay.subrange(i, i + prefix.len()) =~= prefix) by {
        assert(prefix =~= needle.subrange(0, prefix.len() as int));
        assert forall|j: int| 0 <= j < prefix.len() implies hay.subrange(
            i,
            i + prefix.len(),
        )[j] == prefix[j] by {
            assert(hay.subrange(i, i + needle.len())[j] == needle[j]);
        }
    }
    assert(text::stands_at(hay, prefix, i));
}

/// Extending a query can only remove matches, shortening it can only add them.
pub proof fn law_filter_changes_are_told_truly(
    object: Option<EntryView>,
    show_hidden: bool,
    previous: Seq<char>,
    query: Seq<char>,
)
    ensures
        change_of(previous, query) is None ==> passes(object, show_hidden, query) == passes(
            object,
            show_hidden,
            previous,
        ),
        change_of(previous, query) == Some(FilterChange::MoreStrict) && passes(
            object,
            show_hidden,
            query,
        ) ==> passes(object, show_hidden, previous),
        change_of(previous, query) == Some(FilterChange::LessStrict) && passes(
            object,
            show_hidden,
            previous,
        ) ==> passes(object, show_hidden, query),
{
    match object {
        Some(entry) => {
            if previous.is_prefix_of(query) && text::contains_text(entry.search_key, query) {
                lemma_contains_prefix(entry.search_key, query, previous);
            }
            if query.is_prefix_of(previous) && text::contains_text(entry.search_key, previous) {
                lemma_contains_prefix(entry.search_key, previous, query);
            }
        },
        None => {},
    }
}

// ── the view ───────────────────────────────────────────────────────────────

/// A listed item and whether it is selected.
#[derive(Debug)]
pub struct Row {
    /// The item.
    pub object: FileObject,
    /// Whether it is selected.
    pub selected: bool,
}

/// The plain values of a row: what the item is, and whether it is selected.
pub type RowView = (Option<EntryView>, bool);

impl View for Row {
    type V = RowView;

    open spec fn view(&self) -> RowView {
        (self.object@, self.selected)
    }
}

/// The rows as plain values.
pub open spec fn row_views(rows: Seq<Row>) -> Seq<RowView> {
    rows.map_values(|row: Row| row@)
}

/// What a folder's view holds.
#[derive(Debug)]
pub struct FileView {
    /// The listed items, in the order in which they were listed.
    pub model: Vec<Row>,
    /// Lowercased live-search text; empty means "show everything".
    pub search: String,
    /// Whether hidden files are shown.
    pub show_hidden: bool,
    /// Which presentation is shown.
    pub mode: ViewMode,
}

/// The two presentations: which of them shows the list, and the name of the
/// visible one.
#[derive(Clone, Copy, Debug)]
pub struct ViewPlan {
    /// Whether the grid shows the list.
    pub grid_has_model: bool,
    /// Whether the details list shows the list.
    pub list_has_model: bool,
    /// The name of the visible page.
    pub visible_child: &'static str,
}

/// Where the keyboard focus goes.
#[derive(Clone, Copy, Debug, PartialEq, Eq, Structural)]
pub enum FocusTarget {
    /// The view as a whole.
    View,
    /// The first item of the grid.
    FirstInGrid,
    /// The first item of the details list.
    FirstInList,
}

/// The rows of a batch of entries: each in its order, none selected.
pub open spec fn fresh_rows(entries: Seq<FileEntry>) -> Seq<RowView> {
    entries.map_values(|entry: FileEntry| (Some(entry@), false))
}

/// The rows that are selected, in the given order.
pub open spec fn picked(rows: Seq<RowView>, order: Seq<usize>) -> Seq<Option<EntryView>>
    decreases order.len(),
{
    if order.len() == 0 {
        Seq::empty()
    } else {
        let front = picked(rows, order.drop_last());
        let i = order.last() as int;
        if i < rows.len() && rows[i].1 {
            front.push(rows[i].0)
        } else {
            front
        }
    }
}

/// The items of some objects.
pub open spec fn object_views(objects: Seq<FileObject>) -> Seq<Option<EntryView>> {
    objects.map_values(|object: FileObject| object@)
}

/// The bytes of some paths.
pub open spec fn path_views(paths: Seq<FilePath>) -> Seq<Seq<u8>> {
    paths.map_values(|p: FilePath| p@)
}

/// Where some items are.
pub open spec fn object_paths(objects: Seq<Option<EntryView>>) -> Seq<Seq<u8>> {
    objects.map_values(|object: Option<EntryView>| file_object::object_path(object))
}

/// Whether a path is among some others.
pub open spec fn among(p: Seq<u8>, paths: Seq<Seq<u8>>) -> bool {
    exists|i: int|
        0 <= i < paths.len() && path::components(#[trigger] paths[i]) == path::components(p)
}

/// The rows after a filter has changed: what is no longer shown is no longer
/// selected.
pub open spec fn still_selected(rows: Seq<RowView>, show_hidden: bool, search: Seq<char>) -> Seq<
    RowView,
> {
    rows.map_values(|row: RowView| (row.0, row.1 && passes(row.0, show_hidden, search)))
}

/// How many of the first `n` rows are shown.
pub open spec fn shown_count(
    rows: Seq<RowView>,
    n: nat,
    show_hidden: bool,
    search: Seq<char>,
) -> nat
    decreases n,
{
    if n == 0 {
        0
    } else {
        shown_count(rows, (n - 1) as nat, show_hidden, search) + (if passes(
            rows[n - 1].0,
            show_hidden,
            search,
        ) {
            1nat
        } else {
            0nat
        })
    }
}

/// How many of the first `n` rows are folders that are shown.
pub open spec fn shown_folders(
    rows: Seq<RowView>,
    n: nat,
    show_hidden: bool,
    search: Seq<char>,
) -> nat
    decreases n,
{
    if n == 0 {
        0
    } else {
        let row = rows[n - 1].0;
        shown_folders(rows, (n - 1) as nat, show_hidden, search) + (if passes(
            row,
            show_hidden,
            search,
        ) && (row matches Some(entry) && entry.is_dir) {
            1nat
        } else {
            0nat
        })
    }
}

/// The size of those of the first `n` rows that are shown and no folders.
pub open spec fn shown_bytes(
    rows: Seq<RowView>,
    n: nat,
    show_hidden: bool,
    search: Seq<char>,
) -> nat
    decreases n,
{
    if n == 0 {
        0
    } else {
        let row = rows[n - 1].0;
        shown_bytes(rows, (n - 1) as nat, show_hidden, search) + (match row {
            Some(entry) => if passes(row, show_hidden, search) && !entry.is_dir {
                entry.size as nat
            } else {
                0nat
            },
            None => 0nat,
        })
    }
}

impl FileView {
    /// The rows as plain values.
    pub open spec fn rows(&self) -> Seq<RowView> {
        row_views(self.model@)
    }

    /// Whether an item is shown.
    pub open spec fn shows(&self, object: Option<EntryView>) -> bool {
        passes(object, self.show_hidden, self.search@)
    }

    /// Every listed item holds an entry.
    pub open spec fn filled(&self) -> bool {
        forall|i: int| 0 <= i < self.model@.len() ==> (#[trigger] self.model@[i]).object@ is Some
    }

    /// Only what is shown is selected.
    pub open spec fn selects_shown(&self) -> bool {
        forall|i: int|
            0 <= i < self.model@.len() && self.model@[i].selected ==> self.shows(
                (#[trigger] self.model@[i]).object@,
            )
    }

    /// Every listed item holds an entry, and only what is shown is selected.
    pub open spec fn valid(&self) -> bool {
        self.filled() && self.selects_shown()
    }

    /// An empty view.
    pub fn new(show_hidden: bool, mode: ViewMode) -> (r: FileView)
        ensures
            r.valid(),
            r.model@.len() == 0,
            r.search@ == ""@,
            r.show_hidden == show_hidden,
            r.mode == mode,
    {
        FileView { model: Vec::new(), search: text::copied(""), show_hidden, mode }
    }

    /// Takes every item out.
    pub fn clear(&mut self)
        ensures
            final(self).valid(),
            final(self).model@.len() == 0,
            final(self).search == old(self).search,
            final(self).show_hidden == old(self).show_hidden,
            final(self).mode == old(self).mode,
    {
        self.model.clear();
    }

    /// Puts a batch of entries at the end of the list.
    pub fn append_batch(&mut self, entries: Vec<FileEntry>)
        requires
            old(self).valid(),
        ensures
            final(self).valid(),
            final(self).rows() == old(self).rows() + fresh_rows(entries@),
            final(self).search == old(self).search,
            final(self).show_hidden == old(self).show_hidden,
            final(self).mode == old(self).mode,
    {
        let ghost before = self.model@;
        let mut i: usize = 0;
        while i < entries.len()
            invariant
                i <= entries@.len(),
                self.model@.len() == before.len() + i,
                self.model@.take(before.len() as int) == before,
                forall|j: int|
                    0 <= j < i ==> (#[trigger] self.model@[before.len() + j])@ == (
                        Some(entries@[j]@),
                        false,
                    ),
                self.search == old(self).search,
                self.show_hidden == old(self).show_hidden,
                self.mode == old(self).mode,
            decreases entries@.len() - i,
        {
            let ghost was = self.model@;
            self.model.push(Row { object: FileObject::new(entries[i].copy()), selected: false });
            assert(self.model@.take(before.len() as int) =~= was.take(before.len() as int));
            assert forall|j: int| 0 <= j < i implies #[trigger] self.model@[before.len() + j]
                == was[before.len() + j] by {}
            i = i + 1;
        }
        proof {
            let after = self.rows();
            assert forall|j: int| 0 <= j < after.len() implies after[j] == (old(self).rows()
                + fresh_rows(entries@))[j] by {
                if j < before.len() {
                    assert(self.model@.take(before.len() as int)[j] == before[j]);
                } else {
                    assert(self.model@[before.len() + (j - before.len())]@ == (
                        Some(entries@[j - before.len()]@),
                        false,
                    ));
                }
            }
            assert(after =~= old(self).rows() + fresh_rows(entries@));
            assert forall|j: int| 0 <= j < self.model@.len() implies (
            #[trigger] self.model@[j]).object@ is Some by {
                if j < before.len() {
                    assert(self.model@.take(before.len() as int)[j] == before[j]);
                    assert(before[j].object@ is Some);
                } else {
                    assert(self.model@[before.len() + (j - before.len())]@.0 is Some);
                }
            }
            assert forall|j: int|
                0 <= j < self.model@.len() && self.model@[j].selected implies self.shows(
                (#[trigger] self.model@[j]).object@,
            ) by {
                if j < before.len() {
                    assert(self.model@.take(before.len() as int)[j] == before[j]);
                } else {
                    assert(self.model@[before.len() + (j - before.len())]@.1 == false);
                }
            }
        }
    }

    /// Items currently selected, in view order.
    pub fn selected(&self, order: &[usize]) -> (r: Vec<FileObject>)
        ensures
            object_views(r@) == picked(self.rows(), order@),
    {
        let mut out: Vec<FileObject> = Vec::new();
        let mut i: usize = 0;
        assert(object_views(out@) =~= picked(self.rows(), order@.take(0)));
        while i < order.len()
            invariant
                i <= order@.len(),
                object_views(out@) == picked(self.rows(), order@.take(i as int)),
            decreases order@.len() - i,
        {
            assert(order@.take(i as int + 1).drop_last() =~= order@.take(i as int));
            let ghost was = object_views(out@);
            let at: usize = order[i];
            if at < self.model.len() && self.model[at].selected {
                out.push(self.model[at].object.copy());
                assert(object_views(out@) =~= was.push(self.model@[at as int].object@));
            }
            i = i + 1;
        }
        assert(order@.take(order@.len() as int) =~= order@);
        out
    }

    /// Where the selected items are, in view order.
    pub fn selected_paths(&self, order: &[usize]) -> (r: Vec<FilePath>)
        ensures
            path_views(r@) == object_paths(picked(self.rows(), order@)),
    {
        let objects = self.selected(order);
        let ghost all = picked(self.rows(), order@);
        assert(all.len() == objects@.len());
        let mut out: Vec<FilePath> = Vec::new();
        let mut i: usize = 0;
        while i < objects.len()
            invariant
                i <= objects@.len(),
                all == object_views(objects@),
                all.len() == objects@.len(),
                path_views(out@) == object_paths(all.take(i as int)),
            decreases objects@.len() - i,
        {
            let ghost was = path_views(out@);
            out.push(objects[i].path());
            assert(object_paths(all.take(i as int + 1)) =~= object_paths(
                all.take(i as int),
            ).push(file_object::object_path(all[i as int])));
            assert(path_views(out@) =~= was.push(file_object::object_path(all[i as int])));
            i = i + 1;
        }
        assert(all.take(all.len() as int) =~= all);
        out
    }

    /// Selects everything that is shown.
    pub fn select_all(&mut self)
        requires
            old(self).valid(),
        ensures
            final(self).valid(),
            final(self).rows() == old(self).rows().map_values(
                |row: RowView| (row.0, old(self).shows(row.0)),
            ),
            final(self).search == old(self).search,
            final(self).show_hidden == old(self).show_hidden,
            final(self).mode == old(self).mode,
    {
        let ghost before = self.model@;
        let mut i: usize = 0;
        while i < self.model.len()
            invariant
                i <= self.model@.len(),
                self.model@.len() == before.len(),
                before == old(self).model@,
                old(self).filled(),
                self.search == old(self).search,
                self.show_hidden == old(self).show_hidden,
                self.mode == old(self).mode,
                forall|j: int|
                    0 <= j < before.len() ==> (#[trigger] self.model@[j]).object == before[j].object
                        && self.model@[j].selected == (if j < i {
                        old(self).shows(before[j].object@)
                    } else {
                        before[j].selected
                    }),
            decreases before.len() - i,
        {
            let pick = filter(&self.model[i].object, self.show_hidden, self.search.as_str());
            self.mark(i, pick);
            i = i + 1;
        }
        assert(self.rows() =~= old(self).rows().map_values(
            |row: RowView| (row.0, old(self).shows(row.0)),
        ));
    }

    /// Sets whether one item is selected.
    fn mark(&mut self, i: usize, selected: bool)
        requires
            i < old(self).model@.len(),
        ensures
            final(self).model@.len() == old(self).model@.len(),
            final(self).search == old(self).search,
            final(self).show_hidden == old(self).show_hidden,
            final(self).mode == old(self).mode,
            forall|j: int|
                0 <= j < final(self).model@.len() ==> (#[trigger] final(self).model@[j]).object
                    == old(self).model@[j].object && final(self).model@[j].selected == (if j == i {
                    selected
                } else {
                    old(self).model@[j].selected
                }),
    {
        let row = self.model.remove(i);
        self.model.insert(i, Row { object: row.object, selected });
    }

    /// Selects nothing.
    pub fn select_none(&mut self)
        requires
            old(self).valid(),
        ensures
            final(self).valid(),
            final(self).rows() == old(self).rows().map_values(|row: RowView| (row.0, false)),
            final(self).search == old(self).search,
            final(self).show_hidden == old(self).show_hidden,
            final(self).mode == old(self).mode,
    {
        let ghost before = self.model@;
        let mut i: usize = 0;
        while i < self.model.len()
            invariant
                i <= self.model@.len(),
                self.model@.len() == before.len(),
                before == old(self).model@,
                old(self).filled(),
                self.search == old(self).search,
                self.show_hidden == old(self).show_hidden,
                self.mode == old(self).mode,
                forall|j: int|
                    0 <= j < before.len() ==> (#[trigger] self.model@[j]).object == before[j].object
                        && self.model@[j].selected == (if j < i {
                        false
                    } else {
                        before[j].selected
                    }),
            decreases before.len() - i,
        {
            self.mark(i, false);
            i = i + 1;
        }
        assert(self.rows() =~= old(self).rows().map_values(|row: RowView| (row.0, false)));
    }

    /// Inverts the selection, which is genuinely useful for "everything but
    /// these three" and cheap to provide.
    pub fn invert_selection(&mut self)
        requires
            old(self).valid(),
        ensures
            final(self).valid(),
            final(self).rows() == old(self).rows().map_values(
                |row: RowView| (row.0, old(self).shows(row.0) && !row.1),
            ),
            final(self).search == old(self).search,
            final(self).show_hidden == old(self).show_hidden,
            final(self).mode == old(self).mode,
    {
        let ghost before = self.model@;
        let mut i: usize = 0;
        while i < self.model.len()
            invariant
                i <= self.model@.len(),
                self.model@.len() == before.len(),
                before == old(self).model@,
                old(self).filled(),
                self.search == old(self).search,
                self.show_hidden == old(self).show_hidden,
                self.mode == old(self).mode,
                forall|j: int|
                    0 <= j < before.len() ==> (#[trigger] self.model@[j]).object == before[j].object
                        && self.model@[j].selected == (if j < i {
                        old(self).shows(before[j].object@) && !before[j].selected
                    } else {
                        before[j].selected
                    }),
            decreases before.len() - i,
        {
            let pick = !self.model[i].selected && filter(
                &self.model[i].object,
                self.show_hidden,
                self.search.as_str(),
            );
            self.mark(i, pick);
            i = i + 1;
        }
        assert(self.rows() =~= old(self).rows().map_values(
            |row: RowView| (row.0, old(self).shows(row.0) && !row.1),
        ));
    }

    /// Selects the given paths and nothing else, and returns the place in view
    /// order of the first of them, to be scrolled to. Without paths nothing
    /// changes.
    ///
    /// Used after a paste or an extraction so the new files are obvious.
    pub fn select_paths(&mut self, paths: &[FilePath], order: &[usize]) -> (first: Option<usize>)
        requires
            old(self).valid(),
        ensures
            final(self).valid(),
            final(self).search == old(self).search,
            final(self).show_hidden == old(self).show_hidden,
            final(self).mode == old(self).mode,
            paths@.len() == 0 ==> final(self).rows() == old(self).rows() && first is None,
            paths@.len() > 0 ==> final(self).rows() == old(self).rows().map_values(
                |row: RowView|
                    (
                        row.0,
                        old(self).shows(row.0) && among(
                            file_object::object_path(row.0),
                            path_views(paths@),
                        ),
                    ),
            ),
            paths@.len() > 0 ==> match first {
                Some(n) => n < order@.len() && is_picked(final(self).rows(), order@[n as int])
                    && forall|j: int|
                    0 <= j < n ==> !is_picked(final(self).rows(), #[trigger] order@[j]),
                None => forall|j: int|
                    0 <= j < order@.len() ==> !is_picked(
                        final(self).rows(),
                        #[trigger] order@[j],
                    ),
            },
    {
        if paths.len() == 0 {
            return None;
        }
        let ghost before = self.model@;
        let mut i: usize = 0;
        while i < self.model.len()
            invariant
                i <= self.model@.len(),
                self.model@.len() == before.len(),
                before == old(self).model@,
                old(self).filled(),
                self.search == old(self).search,
                self.show_hidden == old(self).show_hidden,
                self.mode == old(self).mode,
                forall|j: int|
                    0 <= j < before.len() ==> (#[trigger] self.model@[j]).object == before[j].object
                        && self.model@[j].selected == (if j < i {
                        old(self).shows(before[j].object@) && among(
                            file_object::object_path(before[j].object@),
                            path_views(paths@),
                        )
                    } else {
                        before[j].selected
                    }),
            decreases before.len() - i,
        {
            let pick = filter(&self.model[i].object, self.show_hidden, self.search.as_str())
                && is_among(&self.model[i].object.path(), paths);
            self.mark(i, pick);
            i = i + 1;
        }
        assert(self.rows() =~= old(self).rows().map_values(
            |row: RowView|
                (
                    row.0,
                    old(self).shows(row.0) && among(
                        file_object::object_path(row.0),
                        path_views(paths@),
                    ),
                ),
        ));
        self.first_picked(order)
    }

    /// The place in view order of the first selected item.
    fn first_picked(&self, order: &[usize]) -> (first: Option<usize>)
        ensures
            match first {
                Some(n) => n < order@.len() && is_picked(self.rows(), order@[n as int])
                    && forall|j: int| 0 <= j < n ==> !is_picked(self.rows(), #[trigger] order@[j]),
                None => forall|j: int|
                    0 <= j < order@.len() ==> !is_picked(self.rows(), #[trigger] order@[j]),
            },
    {
        let mut n: usize = 0;
        while n < order.len()
            invariant
                n <= order@.len(),
                forall|j: int| 0 <= j < n ==> !is_picked(self.rows(), #[trigger] order@[j]),
            decreases order@.len() - n,
        {
            let at: usize = order[n];
            if at < self.model.len() && self.model[at].selected {
                return Some(n);
            }
            n = n + 1;
        }
        None
    }

    /// Number of items passing the current filter, their total size, and how
    /// many of them are folders.
    pub fn visible_stats(&self) -> (r: (u32, u64, u32))
        requires
            self.model@.len() <= u32::MAX,
            shown_bytes(self.rows(), self.model@.len(), self.show_hidden, self.search@)
                <= u64::MAX,
        ensures
            r.0 == shown_count(self.rows(), self.model@.len(), self.show_hidden, self.search@),
            r.1 == shown_bytes(self.rows(), self.model@.len(), self.show_hidden, self.search@),
            r.2 == shown_folders(self.rows(), self.model@.len(), self.show_hidden, self.search@),
    {
        let mut count: u32 = 0;
        let mut bytes: u64 = 0;
        let mut folders: u32 = 0;
        let mut i: usize = 0;
        while i < self.model.len()
            invariant
                i <= self.model@.len() <= u32::MAX,
                shown_bytes(self.rows(), self.model@.len(), self.show_hidden, self.search@)
                    <= u64::MAX,
                count <= i,
                folders <= i,
                count == shown_count(self.rows(), i as nat, self.show_hidden, self.search@),
                bytes == shown_bytes(self.rows(), i as nat, self.show_hidden, self.search@),
                folders == shown_folders(self.rows(), i as nat, self.show_hidden, self.search@),
            decreases self.model@.len() - i,
        {
            proof {
                lemma_bytes_grow(
                    self.rows(),
                    (i + 1) as nat,
                    self.model@.len(),
                    self.show_hidden,
                    self.search@,
                );
            }
            assert(self.rows()[i as int] == self.model@[i as int]@);
            let object = &self.model[i].object;
            if filter(object, self.show_hidden, self.search.as_str()) {
                count = count + 1;
                match &object.entry {
                    Some(entry) => {
                        if entry.is_dir {
                            folders = folders + 1;
                        } else {
                            bytes = bytes + entry.size;
                        }
                    },
                    None => {},
                }
            }
            i = i + 1;
        }
        (count, bytes, folders)
    }

    /// Shows the list in one of the two presentations. The other one is taken
    /// off the list: it stays alive while it is hidden, and would otherwise
    /// bind every row and request every thumbnail a second time.
    pub fn set_view_mode(&mut self, mode: ViewMode) -> (r: ViewPlan)
        ensures
            final(self).mode == mode,
            final(self).model == old(self).model,
            final(self).search == old(self).search,
            final(self).show_hidden == old(self).show_hidden,
            r.grid_has_model == (mode == ViewMode::Grid),
            r.list_has_model == (mode == ViewMode::List),
            r.visible_child@ == (if mode == ViewMode::Grid {
                "grid"@
            } else {
                "list"@
            }),
    {
        self.mode = mode;
        match mode {
            ViewMode::Grid => ViewPlan {
                grid_has_model: true,
                list_has_model: false,
                visible_child: "grid",
            },
            ViewMode::List => ViewPlan {
                grid_has_model: false,
                list_has_model: true,
                visible_child: "list",
            },
        }
    }

    /// Takes out of the selection what is no longer shown.
    fn drop_hidden(&mut self)
        requires
            old(self).filled(),
        ensures
            final(self).valid(),
            final(self).rows() == still_selected(
                old(self).rows(),
                old(self).show_hidden,
                old(self).search@,
            ),
            final(self).search == old(self).search,
            final(self).show_hidden == old(self).show_hidden,
            final(self).mode == old(self).mode,
    {
        let ghost before = self.model@;
        let mut i: usize = 0;
        while i < self.model.len()
            invariant
                i <= self.model@.len(),
                self.model@.len() == before.len(),
                before == old(self).model@,
                old(self).filled(),
                self.search == old(self).search,
                self.show_hidden == old(self).show_hidden,
                self.mode == old(self).mode,
                forall|j: int|
                    0 <= j < before.len() ==> (#[trigger] self.model@[j]).object == before[j].object
                        && self.model@[j].selected == (if j < i {
                        before[j].selected && old(self).shows(before[j].object@)
                    } else {
                        before[j].selected
                    }),
            decreases before.len() - i,
        {
            let keep = self.model[i].selected && filter(
                &self.model[i].object,
                self.show_hidden,
                self.search.as_str(),
            );
            self.mark(i, keep);
            i = i + 1;
        }
        assert(self.rows() =~= still_selected(
            old(self).rows(),
            old(self).show_hidden,
            old(self).search@,
        ));
    }

    /// Searches for a text, whatever its case. Returns how the filter changes,
    /// or nothing where it does not. What is no longer shown is no longer
    /// selected.
    pub fn set_search(&mut self, text: &str) -> (r: Option<FilterChange>)
        requires
            old(self).valid(),
        ensures
            final(self).valid(),
            r == change_of(old(self).search@, outside::lowercase(text@)),
            final(self).search@ == outside::lowercase(text@),
            final(self).show_hidden == old(self).show_hidden,
            final(self).mode == old(self).mode,
            final(self).rows() == still_selected(
                old(self).rows(),
                old(self).show_hidden,
                outside::lowercase(text@),
            ),
    {
        let query = outside::to_lowercase(text);
        let ghost before = self.rows();
        if query == self.search {
            assert(self.rows() =~= still_selected(
                before,
                old(self).show_hidden,
                outside::lowercase(text@),
            )) by {
                assert forall|j: int| 0 <= j < before.len() implies before[j].1 == (before[j].1
                    && passes(
                    before[j].0,
                    old(self).show_hidden,
                    outside::lowercase(text@),
                )) by {
                    assert(before[j] == self.model@[j]@);
                }
            }
            return None;
        }
        let change = if text::starts_with(query.as_str(), self.search.as_str()) {
            FilterChange::MoreStrict
        } else if text::starts_with(self.search.as_str(), query.as_str()) {
            FilterChange::LessStrict
        } else {
            FilterChange::Different
        };
        self.search = query;
        self.drop_hidden();
        assert(self.rows() =~= still_selected(
            before,
            old(self).show_hidden,
            outside::lowercase(text@),
        ));
        Some(change)
    }

    /// Filters anew after the setting for hidden files has changed.
    pub fn refilter(&mut self, show_hidden: bool) -> (r: FilterChange)
        requires
            old(self).valid(),
        ensures
            final(self).valid(),
            r == FilterChange::Different,
            final(self).show_hidden == show_hidden,
            final(self).search == old(self).search,
            final(self).mode == old(self).mode,
            final(self).rows() == still_selected(old(self).rows(), show_hidden, old(self).search@),
    {
        let ghost before = self.rows();
        self.show_hidden = show_hidden;
        self.drop_hidden();
        assert(self.rows() =~= still_selected(before, show_hidden, old(self).search@));
        FilterChange::Different
    }

    /// Where the keyboard focus goes in a freshly filled view: to the first
    /// item, explicitly. A plain focus lands on whichever item the widget last
    /// tracked — after 50,000 appends that is the *last* one.
    pub fn focus_first(&self) -> (r: FocusTarget)
        ensures
            r == (if shown_count(
                self.rows(),
                self.model@.len(),
                self.show_hidden,
                self.search@,
            ) == 0 {
                FocusTarget::View
            } else if self.mode == ViewMode::List {
                FocusTarget::FirstInList
            } else {
                FocusTarget::FirstInGrid
            }),
    {
        let mut i: usize = 0;
        while i < self.model.len()
            invariant
                i <= self.model@.len(),
                shown_count(self.rows(), i as nat, self.show_hidden, self.search@) == 0,
            decreases self.model@.len() - i,
        {
            assert(self.rows()[i as int] == self.model@[i as int]@);
            if filter(&self.model[i].object, self.show_hidden, self.search.as_str()) {
                proof {
                    lemma_count_grows(
                        self.rows(),
                        (i + 1) as nat,
                        self.model@.len(),
                        self.show_hidden,
                        self.search@,
                    );
                }
                return match self.mode {
                    ViewMode::List => FocusTarget::FirstInList,
                    ViewMode::Grid => FocusTarget::FirstInGrid,
                };
            }
            i = i + 1;
        }
        FocusTarget::View
    }

    /// Everything that a new icon size changes: the grid's tiles, the icons of
    /// the details list, and which presentation shows the list.
    pub fn refresh_items(&mut self, icon_size: i32, mode: ViewMode) -> (r: (
        TileMetrics,
        i32,
        ViewPlan,
    ))
        requires
            icon_size <= i32::MAX - 56,
        ensures
            final(self).mode == mode,
            final(self).model == old(self).model,
            final(self).search == old(self).search,
            final(self).show_hidden == old(self).show_hidden,
            r.0.icon_size == icon_size,
            r.0.width == caption::tile_width(icon_size as int),
            r.0.caption_chars == caption::caption_chars(r.0.width as int),
            r.0.name_budget == budget_for(icon_size as int),
            r.1 == (if icon_size <= caption::LIST_ICON_MAX {
                icon_size
            } else {
                caption::LIST_ICON_MAX
            }),
            r.2.grid_has_model == (mode == ViewMode::Grid),
            r.2.list_has_model == (mode == ViewMode::List),
            r.2.visible_child@ == (if mode == ViewMode::Grid {
                "grid"@
            } else {
                "list"@
            }),
    {
        let plan = self.set_view_mode(mode);
        (grid_metrics(icon_size), caption::list_icon_size(icon_size), plan)
    }

    /// The column that the settings sort by, and whether downwards.
    pub fn apply_sort_from_config(&self, sort_key: SortKey, sort_descending: bool) -> (r: (
        Column,
        bool,
    ))
        ensures
            r == (column_of(sort_key), sort_descending),
    {
        let column = match sort_key {
            SortKey::Name => Column::Name,
            SortKey::Size => Column::Size,
            SortKey::Modified => Column::Modified,
            SortKey::Kind => Column::Kind,
        };
        (column, sort_descending)
    }

    /// A click on the view has ended. Clicking blank space clears the
    /// selection, the way every file manager behaves. A rubber-band drag also
    /// ends over blank space, and clearing then would throw away the selection
    /// it just made.
    pub fn click_released(&mut self, dragged: bool, over_item: bool)
        requires
            old(self).valid(),
        ensures
            final(self).valid(),
            final(self).rows() == (if !dragged && !over_item {
                old(self).rows().map_values(|row: RowView| (row.0, false))
            } else {
                old(self).rows()
            }),
            final(self).search == old(self).search,
            final(self).show_hidden == old(self).show_hidden,
            final(self).mode == old(self).mode,
    {
        if !dragged && !over_item {
            self.select_none();
        }
    }
}

/// Whether the row at a position is selected.
pub open spec fn is_picked(rows: Seq<RowView>, at: usize) -> bool {
    at < rows.len() && rows[at as int].1
}

/// Whether a path is among some others.
pub fn is_among(p: &FilePath, paths: &[FilePath]) -> (r: bool)
    ensures
        r == among(p@, path_views(paths@)),
{
    let mut i: usize = 0;
    while i < paths.len()
        invariant
            i <= paths@.len(),
            forall|j: int|
                0 <= j < i ==> path::components(#[trigger] path_views(paths@)[j])
                    != path::components(p@),
        decreases paths@.len() - i,
    {
        assert(path_views(paths@)[i as int] == paths@[i as int]@);
        if paths[i].same_as(p) {
            return true;
        }
        i = i + 1;
    }
    false
}

/// More rows hold no fewer bytes.
proof fn lemma_bytes_grow(
    rows: Seq<RowView>,
    m: nat,
    n: nat,
    show_hidden: bool,
    search: Seq<char>,
)
    requires
        m <= n,
    ensures
        shown_bytes(rows, m, show_hidden, search) <= shown_bytes(rows, n, show_hidden, search),
    decreases n,
{
    if m < n {
        lemma_bytes_grow(rows, m, (n - 1) as nat, show_hidden, search);
    }
}

/// More rows are no fewer.
proof fn lemma_count_grows(
    rows: Seq<RowView>,
    m: nat,
    n: nat,
    show_hidden: bool,
    search: Seq<char>,
)
    requires
        m <= n,
    ensures
        shown_count(rows, m, show_hidden, search) <= shown_count(rows, n, show_hidden, search),
    decreases n,
{
    if m < n {
        lemma_count_grows(rows, m, (n - 1) as nat, show_hidden, search);
    }
}

/// What is picked out of items that hold entries holds entries.
pub proof fn lemma_picked_filled(rows: Seq<RowView>, order: Seq<usize>)
    requires
        forall|i: int| 0 <= i < rows.len() ==> (#[trigger] rows[i]).0 is Some,
    ensures
        forall|i: int| 0 <= i < picked(rows, order).len() ==> #[trigger] picked(rows, order)[i] is Some,
    decreases order.len(),
{
    if order.len() > 0 {
        lemma_picked_filled(rows, order.drop_last());
        let front = picked(rows, order.drop_last());
        let all = picked(rows, order);
        assert forall|i: int| 0 <= i < all.len() implies #[trigger] all[i] is Some by {
            if i < front.len() {
                assert(all[i] == front[i]);
            } else {
                assert(all[i] == rows[order.last() as int].0);
            }
        }
    }
}

/// Inverting the selection twice gives it back.
pub proof fn law_inverting_twice_changes_nothing(
    rows: Seq<RowView>,
    show_hidden: bool,
    search: Seq<char>,
)
    requires
        forall|i: int|
            0 <= i < rows.len() && (#[trigger] rows[i]).1 ==> passes(
                rows[i].0,
                show_hidden,
                search,
            ),
    ensures
        ({
            let invert = |row: RowView| (row.0, passes(row.0, show_hidden, search) && !row.1);
            rows.map_values(invert).map_values(invert) == rows
        }),
{
    let invert = |row: RowView| (row.0, passes(row.0, show_hidden, search) && !row.1);
    assert forall|i: int| 0 <= i < rows.len() implies rows.map_values(invert).map_values(invert)[i]
        == rows[i] by {
        assert(rows[i].1 ==> passes(rows[i].0, show_hidden, search));
    }
    assert(rows.map_values(invert).map_values(invert) =~= rows);
}

// ── columns and sorting ────────────────────────────────────────────────────

/// The columns of the details list.
#[derive(Clone, Copy, Debug, PartialEq, Eq, Structural)]
pub enum Column {
    /// Name.
    Name,
    /// Size.
    Size,
    /// Modified.
    Modified,
    /// Type.
    Kind,
}

/// The column that a key sorts by.
pub open spec fn column_of(key: SortKey) -> Column {
    match key {
        SortKey::Name => Column::Name,
        SortKey::Size => Column::Size,
        SortKey::Modified => Column::Modified,
        SortKey::Kind => Column::Kind,
    }
}

/// The sort setting after the user clicked a column header, so the grid and the
/// sort menu agree with the list.
pub fn sort_from_column(column: Column, descending: bool) -> (r: (SortKey, bool))
    ensures
        column_of(r.0) == column,
        r.1 == descending,
{
    let key = match column {
        Column::Size => SortKey::Size,
        Column::Modified => SortKey::Modified,
        Column::Kind => SortKey::Kind,
        Column::Name => SortKey::Name,
    };
    (key, descending)
}

/// A column's heading and its width, where that is fixed.
pub fn column_heading(column: Column) -> (r: (&'static str, Option<i32>))
    ensures
        match column {
            Column::Name => r.0@ == "Name"@ && r.1 is None,
            Column::Size => r.0@ == "Size"@ && r.1 == Some(110i32),
            Column::Modified => r.0@ == "Modified"@ && r.1 == Some(170i32),
            Column::Kind => r.0@ == "Type"@ && r.1 == Some(160i32),
        },
{
    match column {
        Column::Name => ("Name", None),
        Column::Size => ("Size", Some(110i32)),
        Column::Modified => ("Modified", Some(170i32)),
        Column::Kind => ("Type", Some(160i32)),
    }
}

// ── tiles and icons ────────────────────────────────────────────────────────

/// The measures of a grid tile.
#[derive(Clone, Copy, Debug, PartialEq, Eq, Structural)]
pub struct TileMetrics {
    /// The icon's size.
    pub icon_size: i32,
    /// The tile's width.
    pub width: i32,
    /// Characters on one caption line.
    pub caption_chars: i32,
    /// Columns that a name may take.
    pub name_budget: usize,
}

/// The columns that a name may take under an icon.
pub open spec fn budget_for(icon_size: int) -> int {
    let chars = caption::caption_chars(caption::tile_width(icon_size));
    if 2 * chars - 4 >= 8 {
        2 * chars - 4
    } else {
        8
    }
}

/// The measures of the tiles for an icon size.
///
/// Tiles are a fixed width derived from the icon size, and the caption is
/// pinned to match so one long filename cannot widen every column.
pub fn grid_metrics(icon_size: i32) -> (r: TileMetrics)
    requires
        icon_size <= i32::MAX - 56,
    ensures
        r.icon_size == icon_size,
        r.width == caption::tile_width(icon_size as int),
        r.caption_chars == caption::caption_chars(r.width as int),
        r.name_budget == budget_for(icon_size as int),
{
    let width: i32 = caption::tile_width_for(icon_size);
    let caption_chars: i32 = caption::caption_chars_for(width);
    let name_budget: usize = caption::name_budget_for(caption_chars);
    TileMetrics { icon_size, width, caption_chars, name_budget }
}

/// What a tile or a row shows of an entry.
#[derive(Debug)]
pub struct ItemText {
    /// The caption.
    pub label: String,
    /// The tooltip.
    pub tooltip: Option<String>,
    /// Whether it is drawn dimmed.
    pub dimmed: bool,
}

/// What a grid tile shows of an entry. The full name is only ever partly
/// visible in a tile, so the tooltip carries the whole path rather than
/// repeating the truncated name.
pub fn tile_text(entry: &FileEntry, metrics: &TileMetrics) -> (r: ItemText)
    ensures
        r.label@ == caption::elided(entry.display_name@, metrics.name_budget as nat),
        r.tooltip matches Some(t) && t@ == outside::lossy(entry.path@),
        r.dimmed == entry.is_hidden,
{
    ItemText {
        label: caption::elide_name(entry.display_name.as_str(), metrics.name_budget),
        tooltip: Some(entry.path.display()),
        dimmed: entry.is_hidden,
    }
}

/// What the name cell of the details list shows of an entry.
pub fn name_cell_text(entry: &FileEntry) -> (r: ItemText)
    ensures
        r.label@ == entry.display_name@,
        r.tooltip is None,
        r.dimmed == entry.is_hidden,
{
    ItemText {
        label: text::copied(entry.display_name.as_str()),
        tooltip: None,
        dimmed: entry.is_hidden,
    }
}

/// Whether an entry gets a thumbnail.
pub open spec fn wants_thumbnail(entry: EntryView, show_thumbnails: bool, max_bytes: u64) -> bool {
    show_thumbnails && !entry.is_dir && entry.size <= max_bytes && thumbs::thumbnailed(
        entry.content_type,
    )
}

/// The themed icon that is set immediately, and the thumbnail it is upgraded to
/// if one is warranted and can be decoded. An entry without a modification time
/// counts as modified at the epoch.
pub fn apply_icon(
    entry: &FileEntry,
    show_thumbnails: bool,
    thumbnail_max_bytes: u64,
    size: i32,
) -> (r: (ThemedIcon, Option<CacheKey>))
    ensures
        match r.0 {
            ThemedIcon::Named(name) => entry.is_dir && name@ == (if entry.is_symlink {
                "folder-symbolic"@
            } else {
                "folder"@
            }),
            ThemedIcon::ForContentType(t) => !entry.is_dir && t@ == entry.content_type@,
        },
        r.1 is Some <==> wants_thumbnail(entry@, show_thumbnails, thumbnail_max_bytes),
        r.1 matches Some(key) ==> key.path@ == entry.path@ && key.size == size && key.mtime == (
        match entry.modified {
            Some(t) => t,
            None => 0,
        }),
{
    let icon = thumbs::icon_for(entry.content_type.as_str(), entry.is_dir, entry.is_symlink);
    if !show_thumbnails || entry.is_dir || entry.size > thumbnail_max_bytes
        || !thumbs::can_thumbnail(entry.content_type.as_str()) {
        return (icon, None);
    }
    let mtime: i64 = match entry.modified {
        Some(t) => t,
        None => 0,
    };
    (icon, Some(CacheKey::new(&entry.path, mtime, size)))
}

// ── keys, drags and drops ──────────────────────────────────────────────────

/// Whether a key opens the context menu for keyboard users: the Menu key, or
/// F10 with Shift.
pub fn opens_menu(menu: bool, f10: bool, shift: bool) -> (r: bool)
    ensures
        r == (menu || (f10 && shift)),
{
    menu || (f10 && shift)
}

/// What a drop means: the dropped files, and the folder they were dropped onto
/// where it was one. Nothing dropped is no drop.
pub fn dropped(paths: Vec<FilePath>, under: Option<&FileObject>) -> (r: Option<
    (Vec<FilePath>, Option<FilePath>),
>)
    ensures
        r is Some <==> paths@.len() > 0,
        r matches Some((files, onto)) ==> files == paths && match under {
            Some(object) => match object@ {
                Some(entry) => if entry.is_dir {
                    onto matches Some(folder) && folder@ == entry.path
                } else {
                    onto is None
                },
                None => onto is None,
            },
            None => onto is None,
        },
{
    if paths.len() == 0 {
        return None;
    }
    // Dropping directly onto a folder row means "into that folder"; anywhere
    // else means "into the folder being viewed".
    let onto: Option<FilePath> = match under {
        Some(object) => if object.is_dir() {
            Some(object.path())
        } else {
            None
        },
        None => None,
    };
    Some((paths, onto))
}

/// An item that may be seen passes the filter when its lower-case name is the
/// query between two other texts, whatever else it is: a file or a folder, a
/// link, readable or not. With nothing searched for, it passes.
pub proof fn law_the_filter_finds_names(
    entry: EntryView,
    show_hidden: bool,
    before: Seq<char>,
    query: Seq<char>,
    behind: Seq<char>,
)
    requires
        !entry.is_hidden || show_hidden,
    ensures
        entry.search_key == before + query + behind ==> passes(Some(entry), show_hidden, query),
        passes(Some(entry), show_hidden, Seq::empty()),
{
    if entry.search_key == before + query + behind {
        let i = before.len() as int;
        assert(entry.search_key.subrange(i, i + query.len()) =~= query);
        assert(text::stands_at(entry.search_key, query, i));
    }
}

/// What passes the filter holds the query in its lower-case name, and is hidden
/// only where hidden items are shown.
pub proof fn law_the_filter_finds_nothing_else(
    entry: EntryView,
    show_hidden: bool,
    query: Seq<char>,
) -> (at: int)
    requires
        passes(Some(entry), show_hidden, query),
    ensures
        entry.is_hidden ==> show_hidden,
        0 <= at && at + query.len() <= entry.search_key.len(),
        entry.search_key.take(at) + query + entry.search_key.skip(at + query.len())
            == entry.search_key,
{
    if query.len() == 0 {
        assert(entry.search_key.take(0) + query + entry.search_key.skip(0) =~= entry.search_key);
        0
    } else {
        let at = choose|i: int| text::stands_at(entry.search_key, query, i);
        let key = entry.search_key;
        assert(key.take(at) + key.subrange(at, at + query.len()) + key.skip(at + query.len())
            =~= key);
        at
    }
}

/// Of two items with the same lower-case name, both hidden or neither, both pass
/// the filter or neither does.
pub proof fn law_the_filter_goes_by_the_name_alone(
    a: EntryView,
    b: EntryView,
    show_hidden: bool,
    query: Seq<char>,
)
    requires
        a.search_key == b.search_key,
        a.is_hidden == b.is_hidden,
    ensures
        passes(Some(a), show_hidden, query) == passes(Some(b), show_hidden, query),
{
}

/// The selection in view order is every selected item that the view shows, in
/// the order of the view: the result gives the place of each in the order.
pub proof fn law_the_selection_is_in_view_order(rows: Seq<RowView>, order: Seq<usize>) -> (at: Seq<
    int,
>)
    ensures
        at.len() == picked(rows, order).len(),
        forall|k: int|
            0 <= k < at.len() ==> 0 <= #[trigger] at[k] < order.len() && order[at[k]] < rows.len()
                && rows[order[at[k]] as int].1 && picked(rows, order)[k]
                == rows[order[at[k]] as int].0,
        forall|j: int, k: int| 0 <= j < k < at.len() ==> #[trigger] at[j] < #[trigger] at[k],
        forall|i: int|
            0 <= i < order.len() && (#[trigger] order[i]) < rows.len() && rows[order[i] as int].1
                ==> at.contains(i),
    decreases order.len(),
{
    if order.len() == 0 {
        Seq::empty()
    } else {
        let less = order.drop_last();
        let n = order.len() - 1;
        let front = law_the_selection_is_in_view_order(rows, less);
        assert forall|i: int| 0 <= i < n implies #[trigger] order[i] == less[i] by {}
        let i = order[n] as int;
        if i < rows.len() && rows[i].1 {
            let at = front.push(n);
            assert forall|k: int| 0 <= k < at.len() implies 0 <= #[trigger] at[k] < order.len()
                && order[at[k]] < rows.len() && rows[order[at[k]] as int].1 && picked(
                rows,
                order,
            )[k] == rows[order[at[k]] as int].0 by {
                if k < front.len() {
                    assert(at[k] == front[k]);
                    assert(order[front[k]] == less[front[k]]);
                }
            }
            assert forall|i: int|
                0 <= i < order.len() && (#[trigger] order[i]) < rows.len()
                    && rows[order[i] as int].1 implies at.contains(i) by {
                if i < n {
                    assert(front.contains(i));
                    let k = choose|k: int| 0 <= k < front.len() && front[k] == i;
                    assert(at[k] == i);
                } else {
                    assert(at[front.len() as int] == i);
                }
            }
            at
        } else {
            assert forall|k: int| 0 <= k < front.len() implies order[#[trigger] front[k]]
                == less[front[k]] by {}
            assert forall|i: int|
                0 <= i < order.len() && (#[trigger] order[i]) < rows.len()
                    && rows[order[i] as int].1 implies front.contains(i) by {
                assert(less[i] == order[i]);
            }
            front
        }
    }
}

/// What the status bar counts: with one more item that may be seen and that the
/// search finds, one more item, and one more folder or its size more in bytes;
/// an item that is not shown changes nothing.
pub proof fn law_shown_items_are_counted(
    rows: Seq<RowView>,
    entry: EntryView,
    picked: bool,
    show_hidden: bool,
    search: Seq<char>,
)
    ensures
        ({
            let all = rows.push((Some(entry), picked));
            let n = rows.len();
            let shown = passes(Some(entry), show_hidden, search);
            &&& shown_count(all, n + 1, show_hidden, search) == shown_count(
                rows,
                n,
                show_hidden,
                search,
            ) + (if shown {
                1int
            } else {
                0int
            })
            &&& shown_folders(all, n + 1, show_hidden, search) == shown_folders(
                rows,
                n,
                show_hidden,
                search,
            ) + (if shown && entry.is_dir {
                1int
            } else {
                0int
            })
            &&& shown_bytes(all, n + 1, show_hidden, search) == shown_bytes(
                rows,
                n,
                show_hidden,
                search,
            ) + (if shown && !entry.is_dir {
                entry.size as int
            } else {
                0int
            })
        }),
        shown_count(rows, 0, show_hidden, search) == 0,
        shown_folders(rows, 0, show_hidden, search) == 0,
        shown_bytes(rows, 0, show_hidden, search) == 0,
{
    let all = rows.push((Some(entry), picked));
    lemma_counts_of_the_front(rows, all, rows.len(), show_hidden, search);
}

/// The counts of the first rows depend on these alone.
proof fn lemma_counts_of_the_front(
    a: Seq<RowView>,
    b: Seq<RowView>,
    n: nat,
    show_hidden: bool,
    search: Seq<char>,
)
    requires
        n <= a.len(),
        n <= b.len(),
        forall|i: int| 0 <= i < n ==> a[i] == b[i],
    ensures
        shown_count(a, n, show_hidden, search) == shown_count(b, n, show_hidden, search),
        shown_folders(a, n, show_hidden, search) == shown_folders(b, n, show_hidden, search),
        shown_bytes(a, n, show_hidden, search) == shown_bytes(b, n, show_hidden, search),
    decreases n,
{
    if n > 0 {
        lemma_counts_of_the_front(a, b, (n - 1) as nat, show_hidden, search);
        assert(a[n - 1] == b[n - 1]);
    }
}

/// A search that goes on from the one before can only lose matches, one that
/// goes back can only gain them, and the toolkit is told which.
pub proof fn law_longer_searches_are_stricter(query: Seq<char>, more: Seq<char>)
    requires
        more.len() > 0,
    ensures
        change_of(query, query) is None,
        change_of(query, query + more) == Some(FilterChange::MoreStrict),
        change_of(query + more, query) == Some(FilterChange::LessStrict),
{
    assert(query =~= (query + more).subrange(0, query.len() as int));
    assert((query + more).len() != query.len());
}

/// What no longer passes the filter is no longer selected; everything else is
/// selected or not as it was, and every item stays.
pub proof fn law_a_filter_keeps_what_it_shows(
    rows: Seq<RowView>,
    show_hidden: bool,
    search: Seq<char>,
    i: int,
)
    requires
        0 <= i < rows.len(),
    ensures
        still_selected(rows, show_hidden, search).len() == rows.len(),
        still_selected(rows, show_hidden, search)[i].0 == rows[i].0,
        still_selected(rows, show_hidden, search)[i].1 <==> rows[i].1 && passes(
            rows[i].0,
            show_hidden,
            search,
        ),
{
}

/// A path is among others exactly when one of them has the same components.
pub proof fn law_a_path_is_among_its_like(p: Seq<u8>, paths: Seq<Seq<u8>>, i: int)
    ensures
        0 <= i < paths.len() && paths[i] == p ==> among(p, paths),
        0 <= i < paths.len() && path::components(paths[i]) == path::components(p) ==> among(
            p,
            paths,
        ),
        (forall|j: int|
            0 <= j < paths.len() ==> path::components(#[trigger] paths[j]) != path::components(p))
            ==> !among(p, paths),
{
}

/// A thumbnail is made of every picture within the limit where thumbnails are
/// shown, and of nothing else.
pub proof fn law_thumbnails_are_of_small_pictures(entry: EntryView, max_bytes: u64)
    ensures
        wants_thumbnail(entry, true, max_bytes) <==> !entry.is_dir && entry.size <= max_bytes
            && thumbs::thumbnailed(entry.content_type),
        !wants_thumbnail(entry, false, max_bytes),
{
}

/// New entries are listed in their order, as they are, and none is selected.
pub proof fn law_new_entries_are_listed(entries: Seq<FileEntry>, i: int)
    requires
        0 <= i < entries.len(),
    ensures
        fresh_rows(entries).len() == entries.len(),
        fresh_rows(entries)[i] == (Some(entries[i]@), false),
{
}

/// The budget of a name is two lines of its tile, less four columns.
pub proof fn law_a_name_has_two_lines(icon_size: int)
    ensures
        budget_for(icon_size) == 2 * caption::caption_chars(caption::tile_width(icon_size)) - 4,
        budget_for(icon_size) >= 22,
{
}

/// Each column sorts by its own key.
pub proof fn law_columns_sort_by_their_keys(key: SortKey)
    ensures
        column_of(SortKey::Name) == Column::Name,
        column_of(SortKey::Size) == Column::Size,
        column_of(SortKey::Modified) == Column::Modified,
        column_of(SortKey::Kind) == Column::Kind,
{
}

/// The paths of the selection are those of its items, in order, and the views of
/// paths and items are taken one by one.
pub proof fn law_paths_are_those_of_the_items(
    objects: Seq<Option<EntryView>>,
    entry: EntryView,
    paths: Seq<FilePath>,
    i: int,
)
    ensures
        0 <= i < objects.len() && objects[i] == Some(entry) ==> object_paths(objects)[i]
            == entry.path,
        object_paths(objects).len() == objects.len(),
        0 <= i < paths.len() ==> path_views(paths)[i] == paths[i]@,
        path_views(paths).len() == paths.len(),
{
}

/// A view shows what passes its own filter, and whatever it has selected it
/// shows.
pub proof fn law_views_show_what_passes(view: FileView, i: int)
    ensures
        view.valid() && 0 <= i < view.model@.len() && view.model@[i].selected ==> passes(
            view.model@[i].object@,
            view.show_hidden,
            view.search@,
        ),
        0 <= i < view.model@.len() ==> view.rows()[i] == (
            view.model@[i].object@,
            view.model@[i].selected,
        ),
        0 <= i < view.model@.len() ==> (view.shows(view.model@[i].object@) <==> passes(
            view.model@[i].object@,
            view.show_hidden,
            view.search@,
        )),
        view.rows().len() == view.model@.len(),
{
}

} // verus!
