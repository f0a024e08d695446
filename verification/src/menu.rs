//! The context menu: rows, group boundaries, and where it is shown.

use crate::text;
use vstd::prelude::*;
use vstd::string::*;

verus! {

/// What the menu's own frame and shadow take.
pub const FRAME: i32 = 18;

/// How far the menu stays from the window's edge.
pub const EDGE: i32 = 8;

/// A row of the menu.
#[derive(Debug)]
pub enum MenuRow {
    /// A line between two groups.
    Separator,
    /// An item: its text, the action it activates on the window and the
    /// accelerator shown beside it.
    Item { label: String, action: &'static str, accel: Option<&'static str> },
}

impl MenuRow {
    /// Whether the row is an item with the given text, action and accelerator.
    pub open spec fn is_item(
        &self,
        text: Seq<char>,
        name: Seq<char>,
        key: Option<Seq<char>>,
    ) -> bool {
        match *self {
            MenuRow::Separator => false,
            MenuRow::Item { label, action, accel } => label@ == text && action@ == name && match (
                accel,
                key,
            ) {
                (Some(a), Some(b)) => a@ == b,
                (None, None) => true,
                _ => false,
            },
        }
    }
}

/// What an item shows and does: its text, its action and its accelerator.
pub type ItemView = (Seq<char>, Seq<char>, Option<Seq<char>>);

/// An item to be put in the menu.
#[derive(Clone, Copy, Debug)]
pub struct MenuItem {
    /// Its text.
    pub label: &'static str,
    /// The action it activates on the window.
    pub action: &'static str,
    /// The accelerator shown beside it.
    pub accel: Option<&'static str>,
}

/// What some items show and do.
pub open spec fn item_views(items: Seq<MenuItem>) -> Seq<Option<ItemView>> {
    items.map_values(|item: MenuItem| Some((item.label@, item.action@, accel_view(item.accel))))
}

/// The rows as plain values; a separator is no item.
pub open spec fn row_views(rows: Seq<MenuRow>) -> Seq<Option<ItemView>> {
    rows.map_values(
        |row: MenuRow|
            match row {
                MenuRow::Separator => None,
                MenuRow::Item { label, action, accel } => Some(
                    (label@, action@, accel_view(accel)),
                ),
            },
    )
}

/// Some rows with a group behind them: a separator stands between the two
/// unless one of them is empty.
pub open spec fn with_group(
    rows: Seq<Option<ItemView>>,
    group: Seq<Option<ItemView>>,
) -> Seq<Option<ItemView>> {
    if group.len() == 0 {
        rows
    } else if rows.len() == 0 {
        group
    } else {
        rows.push(None) + group
    }
}

/// The context menu.
#[derive(Debug)]
pub struct ContextMenu {
    /// The rows.
    pub rows: Vec<MenuRow>,
    /// Whether the next item is to be preceded by a separator.
    pub pending_separator: bool,
}

/// No separator at either end, and no two of them in a row.
pub open spec fn tidy(rows: Seq<MenuRow>) -> bool {
    &&& rows.len() > 0 ==> !(rows[0] is Separator) && !(rows.last() is Separator)
    &&& forall|i: int|
        0 < i < rows.len() && (#[trigger] rows[i]) is Separator ==> !(rows[i - 1] is Separator)
}

/// A coordinate of the menu's anchor, moved so that the menu ends inside the
/// window, but not closer to its start than the edge.
pub open spec fn clamped(at: int, length: int, window: int) -> int {
    let room = window - length - FRAME - EDGE;
    let limit = if room >= EDGE {
        room
    } else {
        EDGE as int
    };
    if window > 0 && at > limit {
        limit
    } else {
        at
    }
}

/// A coordinate of the menu's anchor, moved so that the menu stays inside.
fn clamp(at: i32, length: i32, window: i32) -> (r: i32)
    requires
        0 <= length <= i32::MAX - FRAME - EDGE,
    ensures
        r == clamped(at as int, length as int, window as int),
{
    if window <= 0 {
        return at;
    }
    let room: i32 = window - length - FRAME - EDGE;
    let limit: i32 = if room >= EDGE {
        room
    } else {
        EDGE
    };
    if at > limit {
        limit
    } else {
        at
    }
}

impl ContextMenu {
    /// Separators stand only between items, and one is only pending once there
    /// are items.
    pub open spec fn valid(&self) -> bool {
        tidy(self.rows@) && (self.pending_separator ==> self.rows@.len() > 0)
    }

    /// An empty menu.
    pub fn new() -> (r: ContextMenu)
        ensures
            r.valid(),
            r.rows@.len() == 0,
            !r.pending_separator,
    {
        ContextMenu { rows: Vec::new(), pending_separator: false }
    }

    /// Empties the menu, ready to be rebuilt for the current selection.
    pub fn begin(&mut self)
        ensures
            final(self).valid(),
            final(self).rows@.len() == 0,
            !final(self).pending_separator,
    {
        self.rows.clear();
        self.pending_separator = false;
    }

    /// Marks a group boundary. The separator is only drawn once an item
    /// actually follows, so a group that turns out to be empty leaves no gap.
    pub fn section(&mut self)
        requires
            old(self).valid(),
        ensures
            final(self).valid(),
            final(self).rows == old(self).rows,
            final(self).pending_separator == (old(self).rows@.len() > 0),
    {
        if self.rows.len() > 0 {
            self.pending_separator = true;
        }
    }

    /// Adds an item that activates `action` on the window.
    pub fn item(&mut self, label: &str, action: &'static str, accel: Option<&'static str>)
        requires
            old(self).valid(),
        ensures
            final(self).valid(),
            !final(self).pending_separator,
            final(self).rows@.len() == old(self).rows@.len() + (if old(self).pending_separator {
                2int
            } else {
                1int
            }),
            final(self).rows@.take(old(self).rows@.len() as int) == old(self).rows@,
            old(self).pending_separator ==> final(self).rows@[old(self).rows@.len() as int]
                is Separator,
            final(self).rows@.last().is_item(label@, action@, accel_view(accel)),
    {
        let ghost before = self.rows@;
        if self.pending_separator {
            self.pending_separator = false;
            self.rows.push(MenuRow::Separator);
        }
        let ghost middle = self.rows@;
        self.rows.push(MenuRow::Item { label: text::copied(label), action, accel });
        assert(self.rows@.take(before.len() as int) =~= before);
        assert forall|i: int|
            0 < i < self.rows@.len() && (#[trigger] self.rows@[i]) is Separator implies !(
        self.rows@[i - 1] is Separator) by {
            if i < before.len() {
                assert(self.rows@[i] == before[i]);
                assert(self.rows@[i - 1] == before[i - 1]);
            } else if i == before.len() {
                assert(self.rows@[i - 1] == before.last());
            }
        }
        assert(before.len() > 0 ==> self.rows@[0] == before[0]);
    }

    /// Adds a group of items, with a separator before it where both it and what
    /// stands before it are not empty.
    pub fn group(&mut self, items: &[MenuItem])
        requires
            old(self).valid(),
        ensures
            final(self).valid(),
            row_views(final(self).rows@) == with_group(
                row_views(old(self).rows@),
                item_views(items@),
            ),
            final(self).pending_separator == (items@.len() == 0 && old(self).rows@.len() > 0),
    {
        let ghost before = row_views(self.rows@);
        self.section();
        let mut i: usize = 0;
        while i < items.len()
            invariant
                i <= items@.len(),
                self.valid(),
                i == 0 ==> row_views(self.rows@) == before && self.pending_separator == (
                before.len() > 0),
                i > 0 ==> !self.pending_separator && row_views(self.rows@) == with_group(
                    before,
                    item_views(items@.take(i as int)),
                ),
            decreases items@.len() - i,
        {
            let ghost was = row_views(self.rows@);
            let ghost had = self.rows@;
            let ghost pending = self.pending_separator;
            self.item(items[i].label, items[i].action, items[i].accel);
            let ghost now = row_views(self.rows@);
            let ghost shown: Option<ItemView> = Some(
                (items@[i as int].label@, items@[i as int].action@, accel_view(
                    items@[i as int].accel,
                )),
            );
            proof {
                assert(now.last() == shown);
                assert forall|j: int| 0 <= j < was.len() implies now[j] == was[j] by {
                    assert(self.rows@.take(had.len() as int)[j] == had[j]);
                }
                let one = item_views(items@.take(i as int));
                let two = item_views(items@.take(i as int + 1));
                assert(two =~= one.push(shown));
                if pending {
                    assert(now =~= was.push(None).push(shown));
                } else {
                    assert(now =~= was.push(shown));
                }
                assert(now =~= with_group(before, two));
            }
            i = i + 1;
        }
        assert(items@.take(items@.len() as int) =~= items@);
    }

    /// Where the menu is shown when it is asked for at `(x, y)`, in the
    /// coordinate space of the window, whose size is `window` where there is
    /// one; `width` and `height` are those of the menu's contents.
    ///
    /// The anchor is clamped so the menu stays inside the window. Right-clicking
    /// an item near the right or bottom edge would otherwise put half the menu
    /// outside the app, which on a tiling compositor means over another window.
    pub fn show_at(
        &self,
        x: i32,
        y: i32,
        width: i32,
        height: i32,
        window: Option<(i32, i32)>,
    ) -> (r: (i32, i32))
        requires
            0 <= width <= i32::MAX - FRAME - EDGE,
            0 <= height <= i32::MAX - FRAME - EDGE,
        ensures
            match window {
                Some((w, h)) => r.0 == clamped(x as int, width as int, w as int) && r.1 == clamped(
                    y as int,
                    height as int,
                    h as int,
                ),
                None => r == (x, y),
            },
    {
        match window {
            Some((w, h)) => (clamp(x, width, w), clamp(y, height, h)),
            None => (x, y),
        }
    }

    /// Whether the menu has no rows.
    pub fn is_empty(&self) -> (r: bool)
        ensures
            r == (self.rows@.len() == 0),
    {
        self.rows.len() == 0
    }
}

/// The text of an accelerator.
pub open spec fn accel_view(accel: Option<&'static str>) -> Option<Seq<char>> {
    match accel {
        Some(a) => Some(a@),
        None => None,
    }
}

/// A menu that fits in the window beside its frame and both edges ends inside
/// the window, and asking for it further in leaves it where it was asked for.
pub proof fn law_the_menu_stays_inside(at: int, length: int, window: int)
    requires
        0 <= at,
        0 <= length,
        length + FRAME + 2 * EDGE <= window,
    ensures
        0 <= clamped(at, length, window) <= at,
        clamped(at, length, window) + length + FRAME + EDGE <= window,
        at + length + FRAME + EDGE <= window ==> clamped(at, length, window) == at,
{
}

/// A menu that is too large for the window begins at its edge, unless it was
/// asked for nearer to it, and without a window it stays where it was asked for.
pub proof fn law_large_menus_begin_at_the_edge(at: int, length: int, window: int)
    ensures
        window > 0 && length + FRAME + 2 * EDGE > window && at > EDGE ==> clamped(
            at,
            length,
            window,
        ) == EDGE,
        at <= EDGE ==> clamped(at, length, window) == at,
        window <= 0 ==> clamped(at, length, window) == at,
{
}

/// Groups of items stand one behind the other with one separator between each
/// two, and no separator begins or ends a menu; an empty group leaves it as it
/// is.
pub proof fn law_one_separator_between_groups(
    rows: Seq<Option<ItemView>>,
    group: Seq<Option<ItemView>>,
)
    ensures
        with_group(rows, Seq::empty()) == rows,
        with_group(Seq::empty(), group) == group,
        rows.len() > 0 && group.len() > 0 ==> with_group(rows, group) == rows + seq![None] + group,
{
    assert(rows.push(None) + group =~= rows + seq![None] + group);
    if group.len() == 0 {
        assert(group =~= Seq::<Option<ItemView>>::empty());
    }
}

/// A menu begins and ends with an item, and two separators never meet; its rows
/// are what they show.
pub proof fn law_menus_are_tidy(menu: ContextMenu, i: int)
    requires
        menu.valid(),
        0 <= i < menu.rows@.len(),
    ensures
        i == 0 || i == menu.rows@.len() - 1 ==> menu.rows@[i] is Item,
        i > 0 && menu.rows@[i] is Separator ==> menu.rows@[i - 1] is Item,
        menu.rows@[i] is Separator <==> row_views(menu.rows@)[i] is None,
        menu.rows@[i] is Item ==> (row_views(menu.rows@)[i] matches Some(item) && item.0
            == menu.rows@[i]->label@ && item.1 == menu.rows@[i]->action@),
{
}

} // verus!
