//! What stands around the files: the status bar, the navigation buttons, the
//! menus, the zoom readout, and the decisions that their clicks lead to.

use crate::entry::EntryView;
use crate::entry::FileEntry;
use crate::entry::Theme;
use crate::entry::ViewMode;
use crate::file_object::FileObject;
use crate::file_view;
use crate::outside;
use crate::path;
use crate::path::FilePath;
use crate::pathbar;
use crate::sidebar;
use crate::text;
use crate::window;
use crate::window::BannerAction;
use crate::window::Location;
use crate::window::LocationView;
use crate::window::Navigation;
use crate::window::Window;
use vstd::prelude::*;
use vstd::string::*;

verus! {

// ── opening paths and items ────────────────────────────────────────────────

/// What stands at a path.
#[derive(Clone, Copy, Debug, PartialEq, Eq, Structural)]
pub enum PathKind {
    /// A directory.
    Directory,
    /// A file.
    File,
    /// Nothing.
    Missing,
}

/// What opening a path means.
#[derive(Debug)]
pub enum OpenPlan {
    /// Go to a directory.
    Enter(FilePath),
    /// Go to a directory and select a file in it: typing a file's path should
    /// reveal it, not silently do nothing.
    Reveal { folder: FilePath, file: FilePath },
    /// Say that nothing is there.
    Toast(String),
    /// Nothing.
    Nothing,
}

/// Navigates to a path, or reveals it if it turns out to be a file.
pub fn open_path(path: &FilePath, kind: PathKind) -> (r: OpenPlan)
    ensures
        match kind {
            PathKind::Directory => r matches OpenPlan::Enter(p) && p@ == path@,
            PathKind::File => match path::parent(path@) {
                Some(parent) => r matches OpenPlan::Reveal { folder, file } && folder@ == parent
                    && file@ == path@,
                None => r is Nothing,
            },
            PathKind::Missing => r matches OpenPlan::Toast(t) && t@ == "“"@ + outside::lossy(
                path@,
            ) + "” does not exist"@,
        },
{
    match kind {
        PathKind::Directory => OpenPlan::Enter(path.copy()),
        PathKind::File => match path.parent() {
            Some(folder) => OpenPlan::Reveal { folder, file: path.copy() },
            None => OpenPlan::Nothing,
        },
        PathKind::Missing => {
            let mut message = text::copied("“");
            message.append(path.display().as_str());
            message.append("” does not exist");
            OpenPlan::Toast(message)
        },
    }
}

/// What activating an item means.
#[derive(Debug)]
pub enum Activation {
    /// Go to a directory.
    Enter(FilePath),
    /// Say why nothing happens.
    Toast(&'static str),
    /// Open a file with its default application.
    Launch(FilePath),
}

/// What is said when a file could not be opened. A dismissed "choose an
/// application" prompt reports as cancelled; that isn't an error worth shouting
/// about.
pub fn launch_failed(cancelled: bool, message: &str) -> (r: Option<String>)
    ensures
        r is Some <==> !cancelled,
        r matches Some(t) ==> t@ == "Could not open: "@ + message@,
{
    if cancelled {
        return None;
    }
    let mut out = text::copied("Could not open: ");
    out.append(message);
    Some(out)
}

/// What the path bar and the sidebar show for the tab in front.
#[derive(Debug)]
pub struct SyncPlan {
    /// The path to show in the path bar.
    pub pathbar: Option<FilePath>,
    /// The place without a path to show there: its name and its icon.
    pub virtual_place: Option<(&'static str, &'static str)>,
    /// The place to highlight in the sidebar, and whose capacity to show.
    pub place: Option<FilePath>,
}

/// How a folder is loaded again.
#[derive(Debug)]
pub enum ReloadPlan {
    /// The directory itself is gone.
    Recover(FilePath),
    /// Go to the same place again, and select the same items once the new
    /// listing has had a chance to load.
    Again { location: Location, reselect: Vec<FilePath> },
}

// ── navigation buttons ─────────────────────────────────────────────────────

/// What the history of a tab offers.
#[derive(Debug)]
pub struct HistoryFacts {
    /// Where going back leads.
    pub previous: Option<FilePath>,
    /// Where going forward leads.
    pub next: Option<FilePath>,
}

/// A button: whether it can be clicked, and its tooltip.
#[derive(Debug)]
pub struct NavButton {
    /// Whether it can be clicked.
    pub sensitive: bool,
    /// Its tooltip.
    pub tooltip: String,
}

/// The three navigation buttons.
#[derive(Debug)]
pub struct NavButtons {
    /// Back.
    pub back: NavButton,
    /// Forward.
    pub forward: NavButton,
    /// Up.
    pub up: NavButton,
}

/// Whether a button leads somewhere and says where. Back and Up land in the same
/// place whenever you just came from the parent, which makes them look
/// redundant; naming the destination is what actually distinguishes them.
pub open spec fn leads(
    button: NavButton,
    target: Option<Seq<u8>>,
    verb: Seq<char>,
    keys: Seq<char>,
    home: Option<Seq<u8>>,
) -> bool {
    &&& button.sensitive == (target is Some)
    &&& button.tooltip@ == (match target {
        Some(p) => verb + " to “"@ + window::title_of(p, home) + "”  ("@ + keys + ")"@,
        None => verb + "  ("@ + keys + ")"@,
    })
}

/// A navigation button.
fn nav_button(target: Option<&FilePath>, verb: &str, keys: &str, home: Option<&FilePath>) -> (r:
    NavButton)
    ensures
        leads(r, sidebar::path_of(target), verb@, keys@, pathbar::home_view(home)),
{
    let mut tooltip = text::copied(verb);
    match target {
        Some(p) => {
            tooltip.append(" to “");
            tooltip.append(window::display_title_from(p, home).as_str());
            tooltip.append("”  (");
        },
        None => tooltip.append("  ("),
    }
    tooltip.append(keys);
    tooltip.append(")");
    NavButton { sensitive: target.is_some(), tooltip }
}

// ── the status bar ─────────────────────────────────────────────────────────

/// A count with a noun.
pub open spec fn counted(n: nat, noun: Seq<char>) -> Seq<char> {
    text::decimal(n) + noun + text::plural_ending(n)
}

/// The parts of the status while nothing is selected.
pub open spec fn folder_parts(visible: nat, bytes: u64, folders: nat) -> Seq<Seq<char>> {
    let files = if visible >= folders {
        (visible - folders) as nat
    } else {
        0
    };
    let first: Seq<Seq<char>> = if folders > 0 {
        seq![counted(folders, " folder"@)]
    } else {
        seq![]
    };
    let second: Seq<Seq<char>> = if files > 0 || folders == 0 {
        seq![counted(files, " file"@)]
    } else {
        seq![]
    };
    let third: Seq<Seq<char>> = if bytes > 0 {
        seq![outside::size_text(bytes)]
    } else {
        seq![]
    };
    first + second + third
}

/// The bytes of the selected files; folders count for nothing.
pub open spec fn selected_bytes(objects: Seq<Option<EntryView>>) -> nat
    decreases objects.len(),
{
    if objects.len() == 0 {
        0
    } else {
        selected_bytes(objects.drop_last()) + (match objects.last() {
            Some(entry) => if entry.is_dir {
                0nat
            } else {
                entry.size as nat
            },
            None => 0nat,
        })
    }
}

/// The status while something is selected.
pub open spec fn selection_text(objects: Seq<Option<EntryView>>) -> Seq<char> {
    if objects.len() == 1 {
        let entry = objects[0]->0;
        if entry.is_dir {
            "“"@ + entry.display_name + "” selected (folder)"@
        } else {
            "“"@ + entry.display_name + "” selected ("@ + outside::size_text(entry.size) + ")"@
        }
    } else {
        text::decimal(objects.len()) + " items selected ("@ + outside::size_text(
            selected_bytes(objects) as u64,
        ) + ")"@
    }
}

/// A count with a noun.
pub fn counted_label(n: u64, noun: &str) -> (r: String)
    ensures
        r@ == counted(n as nat, noun@),
{
    let mut out = text::decimal_of(n);
    out.append(noun);
    out.append(text::plural(n));
    out
}

/// The status of a folder in which nothing is selected.
pub fn folder_status(visible: u32, bytes: u64, folders: u32) -> (r: String)
    ensures
        r@ == text::joined(folder_parts(visible as nat, bytes, folders as nat), ", "@),
{
    let files: u32 = if visible >= folders {
        visible - folders
    } else {
        0
    };
    let mut parts: Vec<String> = Vec::new();
    let ghost mut said: Seq<Seq<char>> = seq![];
    if folders > 0 {
        let part = counted_label(folders as u64, " folder");
        proof {
            said = said.push(part@);
        }
        parts.push(part);
    }
    assert(text::views(parts@) =~= said);
    if files > 0 || folders == 0 {
        let part = counted_label(files as u64, " file");
        proof {
            said = said.push(part@);
        }
        parts.push(part);
    }
    assert(text::views(parts@) =~= said);
    if bytes > 0 {
        let part = outside::format_size(bytes);
        proof {
            said = said.push(part@);
        }
        parts.push(part);
    }
    assert(text::views(parts@) =~= said);
    assert(said =~= folder_parts(visible as nat, bytes, folders as nat));
    text::join(&parts, ", ")
}

/// More items are no smaller.
proof fn lemma_selected_bytes_grow(objects: Seq<Option<EntryView>>, n: int)
    requires
        0 <= n <= objects.len(),
    ensures
        selected_bytes(objects.take(n)) <= selected_bytes(objects),
    decreases objects.len(),
{
    if n == objects.len() {
        assert(objects.take(n) =~= objects);
    } else {
        lemma_selected_bytes_grow(objects.drop_last(), n);
        assert(objects.drop_last().take(n) =~= objects.take(n));
    }
}

/// The status of a selection.
pub fn selection_status(selected: &Vec<FileObject>) -> (r: String)
    requires
        selected@.len() > 0,
        forall|i: int| 0 <= i < selected@.len() ==> (#[trigger] selected@[i]).entry is Some,
        selected_bytes(file_view::object_views(selected@)) <= u64::MAX,
    ensures
        r@ == selection_text(file_view::object_views(selected@)),
{
    let ghost all = file_view::object_views(selected@);
    if selected.len() == 1 {
        assert(all[0] == selected@[0]@);
        let entry = selected[0].entry();
        let mut out = text::copied("“");
        out.append(entry.display_name.as_str());
        if entry.is_dir {
            out.append("” selected (folder)");
        } else {
            out.append("” selected (");
            out.append(outside::format_size(entry.size).as_str());
            out.append(")");
        }
        return out;
    }
    let mut bytes: u64 = 0;
    let mut i: usize = 0;
    while i < selected.len()
        invariant
            i <= selected@.len(),
            all == file_view::object_views(selected@),
            all.len() == selected@.len(),
            selected_bytes(all) <= u64::MAX,
            bytes == selected_bytes(all.take(i as int)),
        decreases selected@.len() - i,
    {
        proof {
            lemma_selected_bytes_grow(all, i as int + 1);
            assert(all.take(i as int + 1).drop_last() =~= all.take(i as int));
            assert(all[i as int] == selected@[i as int]@);
        }
        match &selected[i].entry {
            Some(entry) => {
                if !entry.is_dir {
                    bytes = bytes + entry.size;
                }
            },
            None => {},
        }
        i = i + 1;
    }
    assert(all.take(all.len() as int) =~= all);
    let mut out = text::decimal_of(selected.len() as u64);
    out.append(" items selected (");
    out.append(outside::format_size(bytes).as_str());
    out.append(")");
    out
}

/// How much room there is on the file system that is shown; nothing where that
/// is not known.
pub fn update_capacity(usage: Option<(u64, u64)>) -> (r: String)
    ensures
        r@ == (match usage {
            Some((free, total)) => outside::size_text(free) + " free of "@ + outside::size_text(
                total,
            ),
            None => ""@,
        }),
{
    match usage {
        Some((free, total)) => {
            let mut out = outside::format_size(free);
            out.append(" free of ");
            out.append(outside::format_size(total).as_str());
            out
        },
        None => text::copied(""),
    }
}

// ── decisions of the window ────────────────────────────────────────────────

/// What a click on the banner's button means.
#[derive(Clone, Copy, Debug, PartialEq, Eq, Structural)]
pub enum BannerClick {
    /// Ask whether to empty the trash.
    EmptyTrash,
    /// The search has been stopped.
    Stopped,
    /// Empty the recent-files list, and load it again.
    ClearRecent,
    /// Nothing.
    Nothing,
}

impl Window {
    /// What the path bar and the sidebar show for the tab that is now in front.
    pub fn sync_to_active_tab(&self) -> (r: SyncPlan)
        requires
            self.valid(),
        ensures
            window::bytes_of(r.pathbar) == window::directory_of(self.front().location@),
            window::bytes_of(r.place) == window::directory_of(self.front().location@),
            match self.front().location@ {
                LocationView::Directory(_) => r.virtual_place is None,
                LocationView::Trash => r.virtual_place matches Some(v) && v.0@ == "Trash"@ && v.1@
                    == "user-trash-symbolic"@,
                LocationView::Recent => r.virtual_place matches Some(v) && v.0@ == "Recent"@
                    && v.1@ == "document-open-recent-symbolic"@,
            },
    {
        match &self.tabs[self.active].location {
            Location::Directory(p) => SyncPlan {
                pathbar: Some(p.copy()),
                virtual_place: None,
                place: Some(p.copy()),
            },
            Location::Trash => SyncPlan {
                pathbar: None,
                virtual_place: Some(("Trash", "user-trash-symbolic")),
                place: None,
            },
            Location::Recent => SyncPlan {
                pathbar: None,
                virtual_place: Some(("Recent", "document-open-recent-symbolic")),
                place: None,
            },
        }
    }

    /// Loads the folder again. After a delete the directory itself may be gone.
    /// `order` is the order in which the view shows its items.
    pub fn reload(&self, directory_exists: bool, order: &[usize]) -> (r: ReloadPlan)
        requires
            self.valid(),
        ensures
            match window::directory_of(self.front().location@) {
                Some(p) if !directory_exists => r matches ReloadPlan::Recover(gone) && gone@ == p,
                _ => r matches ReloadPlan::Again { location, reselect } && location@
                    == self.front().location@ && file_view::path_views(reselect@)
                    == file_view::object_paths(
                    file_view::picked(self.front().view.rows(), order@),
                ),
            },
    {
        match self.current_dir() {
            Some(current) if !directory_exists => ReloadPlan::Recover(current),
            _ => ReloadPlan::Again {
                location: self.tabs[self.active].location.copy(),
                reselect: self.tabs[self.active].view.selected_paths(order),
            },
        }
    }

    /// Goes back to where the history leads, if it leads anywhere.
    pub fn go_back(
        &mut self,
        to: Option<FilePath>,
        show_hidden: bool,
        home: Option<&FilePath>,
    ) -> (r: Option<Navigation>)
        requires
            old(self).valid(),
            old(self).front().scan_generation < u64::MAX,
            old(self).search_generation < u64::MAX,
        ensures
            final(self).valid(),
            match to {
                Some(p) => {
                    &&& r matches Some(n) && window::navigation_plan(
                        n,
                        LocationView::Directory(p@),
                        false,
                        final(self).front().scan_generation,
                        pathbar::home_view(home),
                    )
                    &&& window::arrived(
                        final(self).front(),
                        old(self).front(),
                        LocationView::Directory(p@),
                        show_hidden,
                    )
                    &&& final(self).others_kept(*old(self))
                    &&& final(self).search_dropped(*old(self))
                    &&& final(self).banner@ == window::banner_cleared(old(self).banner@)
                },
                None => r is None && *final(self) == *old(self),
            },
    {
        match to {
            Some(p) => Some(self.navigate_from(Location::Directory(p), false, show_hidden, home)),
            None => None,
        }
    }

    /// Goes forward to where the history leads, if it leads anywhere.
    pub fn go_forward(
        &mut self,
        to: Option<FilePath>,
        show_hidden: bool,
        home: Option<&FilePath>,
    ) -> (r: Option<Navigation>)
        requires
            old(self).valid(),
            old(self).front().scan_generation < u64::MAX,
            old(self).search_generation < u64::MAX,
        ensures
            final(self).valid(),
            match to {
                Some(p) => {
                    &&& r matches Some(n) && window::navigation_plan(
                        n,
                        LocationView::Directory(p@),
                        false,
                        final(self).front().scan_generation,
                        pathbar::home_view(home),
                    )
                    &&& window::arrived(
                        final(self).front(),
                        old(self).front(),
                        LocationView::Directory(p@),
                        show_hidden,
                    )
                    &&& final(self).others_kept(*old(self))
                    &&& final(self).search_dropped(*old(self))
                    &&& final(self).banner@ == window::banner_cleared(old(self).banner@)
                },
                None => r is None && *final(self) == *old(self),
            },
    {
        self.go_back(to, show_hidden, home)
    }

    /// Navigates away from a directory that has disappeared, to where the
    /// history falls back to once it has been forgotten.
    pub fn recover_from_missing_directory(
        &mut self,
        gone: &FilePath,
        fallback: FilePath,
        show_hidden: bool,
        home: Option<&FilePath>,
    ) -> (r: (String, Navigation))
        requires
            old(self).valid(),
            old(self).front().scan_generation < u64::MAX,
            old(self).search_generation < u64::MAX,
        ensures
            final(self).valid(),
            r.0@ == "“"@ + outside::lossy(gone@) + "” is no longer available"@,
            window::navigation_plan(
                r.1,
                LocationView::Directory(fallback@),
                false,
                final(self).front().scan_generation,
                pathbar::home_view(home),
            ),
            window::arrived(
                final(self).front(),
                old(self).front(),
                LocationView::Directory(fallback@),
                show_hidden,
            ),
            final(self).others_kept(*old(self)),
            final(self).search_dropped(*old(self)),
            final(self).banner@ == window::banner_cleared(old(self).banner@),
    {
        let mut message = text::copied("“");
        message.append(gone.display().as_str());
        message.append("” is no longer available");
        let plan = self.navigate_from(Location::Directory(fallback), false, show_hidden, home);
        (message, plan)
    }

    /// The navigation buttons of the tab in front.
    pub fn update_nav_buttons(&self, history: &HistoryFacts, home: Option<&FilePath>) -> (r:
        NavButtons)
        requires
            self.valid(),
        ensures
            leads(
                r.back,
                window::bytes_of(history.previous),
                "Back"@,
                "Alt+Left"@,
                pathbar::home_view(home),
            ),
            leads(
                r.forward,
                window::bytes_of(history.next),
                "Forward"@,
                "Alt+Right"@,
                pathbar::home_view(home),
            ),
            leads(
                r.up,
                window::parent_of(self.front().location@),
                "Up"@,
                "Alt+Up"@,
                pathbar::home_view(home),
            ),
    {
        let parent: Option<FilePath> = match self.current_dir() {
            Some(current) => current.parent(),
            None => None,
        };
        NavButtons {
            back: nav_button(history.previous.as_ref(), "Back", "Alt+Left", home),
            forward: nav_button(history.next.as_ref(), "Forward", "Alt+Right", home),
            up: nav_button(parent.as_ref(), "Up", "Alt+Up", home),
        }
    }

    /// Opens a file with its default application, or enters a directory. What
    /// is in the trash is not opened.
    pub fn activate_item(&self, entry: &FileEntry) -> (r: Activation)
        requires
            self.valid(),
        ensures
            if entry.is_dir {
                r matches Activation::Enter(p) && p@ == entry.path@
            } else if self.front().location@ is Trash {
                r matches Activation::Toast(t) && t@ == "Restore this item before opening it"@
            } else {
                r matches Activation::Launch(p) && p@ == entry.path@
            },
    {
        if entry.is_dir {
            return Activation::Enter(entry.path.copy());
        }
        if self.in_trash() {
            return Activation::Toast("Restore this item before opening it");
        }
        Activation::Launch(entry.path.copy())
    }

    /// Where files that are dropped onto the view go: into the folder below, or
    /// into the one that is shown.
    pub fn drop_destination(&self, onto: Option<FilePath>) -> (r: Option<FilePath>)
        requires
            self.valid(),
        ensures
            match onto {
                Some(p) => r == Some(p),
                None => window::bytes_of(r) == window::directory_of(self.front().location@),
            },
    {
        match onto {
            Some(p) => Some(p),
            None => self.current_dir(),
        }
    }

    /// The status of the tab in front. `order` is the order in which the view
    /// shows its items.
    pub fn update_status(&self, order: &[usize]) -> (r: String)
        requires
            self.valid(),
            self.front().view.model@.len() <= u32::MAX,
            file_view::shown_bytes(
                self.front().view.rows(),
                self.front().view.model@.len(),
                self.front().view.show_hidden,
                self.front().view.search@,
            ) <= u64::MAX,
            selected_bytes(file_view::picked(self.front().view.rows(), order@)) <= u64::MAX,
        ensures
            ({
                let view = self.front().view;
                let n = view.model@.len();
                let picked = file_view::picked(view.rows(), order@);
                r@ == (if picked.len() == 0 {
                    text::joined(
                        folder_parts(
                            file_view::shown_count(view.rows(), n, view.show_hidden, view.search@),
                            file_view::shown_bytes(
                                view.rows(),
                                n,
                                view.show_hidden,
                                view.search@,
                            ) as u64,
                            file_view::shown_folders(
                                view.rows(),
                                n,
                                view.show_hidden,
                                view.search@,
                            ),
                        ),
                        ", "@,
                    )
                } else {
                    selection_text(picked)
                })
            }),
    {
        let view = &self.tabs[self.active].view;
        let selected = view.selected(order);
        let ghost picked = file_view::picked(view.rows(), order@);
        assert(picked.len() == selected@.len());
        if selected.len() == 0 {
            let (visible, bytes, folders) = view.visible_stats();
            return folder_status(visible, bytes, folders);
        }
        proof {
            assert forall|i: int| 0 <= i < view.rows().len() implies (
            #[trigger] view.rows()[i]).0 is Some by {
                assert(view.model@[i].object@ is Some);
            }
            file_view::lemma_picked_filled(view.rows(), order@);
            assert forall|i: int| 0 <= i < selected@.len() implies (
            #[trigger] selected@[i]).entry is Some by {
                assert(picked[i] is Some);
                assert(picked[i] == selected@[i]@);
            }
        }
        selection_status(&selected)
    }

    /// The banner's button has been clicked.
    pub fn banner_clicked(&mut self) -> (r: BannerClick)
        requires
            old(self).valid(),
            old(self).search_generation < u64::MAX,
        ensures
            final(self).valid(),
            r == (match old(self).banner.action {
                BannerAction::EmptyTrash => BannerClick::EmptyTrash,
                BannerAction::StopSearch => BannerClick::Stopped,
                BannerAction::ClearRecent => BannerClick::ClearRecent,
                BannerAction::Nothing => BannerClick::Nothing,
            }),
            r == BannerClick::Stopped ==> {
                &&& !final(self).searching
                &&& final(self).search_generation == old(self).search_generation + 1
                &&& final(self).search_open == old(self).search_open
                &&& final(self).search_text == old(self).search_text
                &&& final(self).banner@ == window::banner_cleared(old(self).banner@)
                &&& final(self).tabs == old(self).tabs
                &&& final(self).active == old(self).active
                &&& final(self).clipboard == old(self).clipboard
            },
            r != BannerClick::Stopped ==> *final(self) == *old(self),
    {
        match self.banner.action {
            BannerAction::EmptyTrash => BannerClick::EmptyTrash,
            BannerAction::StopSearch => {
                self.stop_search();
                BannerClick::Stopped
            },
            BannerAction::ClearRecent => BannerClick::ClearRecent,
            BannerAction::Nothing => BannerClick::Nothing,
        }
    }
}

// ── appearance ─────────────────────────────────────────────────────────────

/// How the desktop's colour scheme is followed.
#[derive(Clone, Copy, Debug, PartialEq, Eq, Structural)]
pub enum ColorScheme {
    /// As the desktop says.
    Default,
    /// Light, whatever it says.
    ForceLight,
    /// Dark, whatever it says.
    ForceDark,
}

/// The colour scheme for a theme.
pub fn apply_theme(theme: Theme) -> (r: ColorScheme)
    ensures
        r == (match theme {
            Theme::System => ColorScheme::Default,
            Theme::Light => ColorScheme::ForceLight,
            Theme::Dark => ColorScheme::ForceDark,
        }),
{
    match theme {
        Theme::System => ColorScheme::Default,
        Theme::Light => ColorScheme::ForceLight,
        Theme::Dark => ColorScheme::ForceDark,
    }
}

/// The icon of the button that switches the presentation: that of the one it
/// switches to.
pub fn view_icon(mode: ViewMode) -> (r: &'static str)
    ensures
        r@ == (match mode {
            ViewMode::Grid => "view-list-symbolic"@,
            ViewMode::List => "view-grid-symbolic"@,
        }),
{
    match mode {
        ViewMode::Grid => "view-list-symbolic",
        ViewMode::List => "view-grid-symbolic",
    }
}

/// The size of an icon in words.
pub open spec fn pixels(size: int) -> Seq<char> {
    text::signed_decimal(size) + "px"@
}

/// What a new icon size shows: the readout, which must keep up with every way
/// of changing the size, and the passing message.
pub fn zoom_texts(size: i32) -> (r: (String, String))
    ensures
        r.0@ == pixels(size as int),
        r.1@ == "Icon size: "@ + pixels(size as int),
{
    let mut readout = text::signed_decimal_of(size as i64);
    readout.append("px");
    let mut message = text::copied("Icon size: ");
    message.append(readout.as_str());
    (readout, message)
}

/// What a change of the icon size asks for.
#[derive(Debug)]
pub struct ZoomPlan {
    /// The new size, which the settings remember.
    pub size: i32,
    /// The readout.
    pub readout: String,
    /// The passing message, where there is one.
    pub message: Option<String>,
    /// Whether the thumbnails at hand are dropped: they are kept by size, so the
    /// old ones are dead weight.
    pub clear_thumbnails: bool,
    /// Whether the rows are built anew.
    pub refresh_items: bool,
    /// Whether the settings are saved.
    pub save: bool,
}

/// The icon size is changed by a step. `stepped` is the size that the step leads
/// to, where there is one further on; otherwise nothing changes.
pub fn zoom(stepped: Option<i32>) -> (r: Option<ZoomPlan>)
    ensures
        match stepped {
            Some(size) => {
                &&& r matches Some(plan) && changes_icon_size(plan, size)
                &&& r->0.message matches Some(t) && t@ == "Icon size: "@ + pixels(size as int)
            },
            None => r is None,
        },
{
    match stepped {
        Some(size) => {
            let texts = zoom_texts(size);
            let mut plan = icon_size_changed(size);
            plan.message = Some(texts.1);
            Some(plan)
        },
        None => None,
    }
}

/// Whether a plan makes the icons that large, everywhere the size shows.
pub open spec fn changes_icon_size(plan: ZoomPlan, size: i32) -> bool {
    &&& plan.size == size
    &&& plan.readout@ == pixels(size as int)
    &&& plan.clear_thumbnails
    &&& plan.refresh_items
    &&& plan.save
}

/// The icon size is set, as resetting it does, which no message announces.
pub fn icon_size_changed(size: i32) -> (r: ZoomPlan)
    ensures
        changes_icon_size(r, size),
        r.message is None,
{
    ZoomPlan {
        size,
        readout: zoom_texts(size).0,
        message: None,
        clear_thumbnails: true,
        refresh_items: true,
        save: true,
    }
}

/// Which way the wheel zooms while Ctrl is held: away from the user is larger.
/// Without Ctrl it scrolls.
pub fn scroll_zoom(ctrl: bool, up: bool) -> (r: Option<i32>)
    ensures
        r == (if !ctrl {
            None
        } else if up {
            Some(1i32)
        } else {
            Some(-1i32)
        }),
{
    if !ctrl {
        None
    } else if up {
        Some(1)
    } else {
        Some(-1)
    }
}

/// Where a mouse button leads.
#[derive(Clone, Copy, Debug, PartialEq, Eq, Structural)]
pub enum MouseNavigation {
    /// Back.
    Back,
    /// Forward.
    Forward,
}

/// Where a mouse button leads: the eighth back, the ninth forward.
pub fn mouse_button(button: u32) -> (r: Option<MouseNavigation>)
    ensures
        r == (if button == 8 {
            Some(MouseNavigation::Back)
        } else if button == 9 {
            Some(MouseNavigation::Forward)
        } else {
            None
        }),
{
    if button == 8 {
        Some(MouseNavigation::Back)
    } else if button == 9 {
        Some(MouseNavigation::Forward)
    } else {
        None
    }
}

/// The size and state of the window as they are remembered.
#[derive(Clone, Copy, Debug, PartialEq, Eq, Structural)]
pub struct Geometry {
    /// Its width.
    pub width: i32,
    /// Its height.
    pub height: i32,
    /// Whether it is maximised.
    pub maximized: bool,
    /// Whether the sidebar is shown.
    pub sidebar_visible: bool,
}

/// What is remembered when the window closes. The size of a maximised window is
/// not worth remembering; the one it had before is.
pub fn remember_geometry(
    before: Geometry,
    maximized: bool,
    width: i32,
    height: i32,
    sidebar_visible: bool,
) -> (r: Geometry)
    ensures
        r.maximized == maximized,
        r.sidebar_visible == sidebar_visible,
        r.width == (if maximized {
            before.width
        } else {
            width
        }),
        r.height == (if maximized {
            before.height
        } else {
            height
        }),
{
    Geometry {
        width: if maximized {
            before.width
        } else {
            width
        },
        height: if maximized {
            before.height
        } else {
            height
        },
        maximized,
        sidebar_visible,
    }
}

/// A timer that is started anew by each change, so that a burst of them costs
/// one reload or one write rather than dozens.
#[derive(Clone, Copy, Debug, PartialEq, Eq, Structural)]
pub struct Debounce {
    /// The timer that is running.
    pub timer: Option<u64>,
}

/// How long a burst of file system events has to pause before the folder is
/// loaded again, in milliseconds.
pub const RELOAD_DELAY_MS: u64 = 400;

/// How long the settings have to stay unchanged before they are written, in
/// milliseconds.
pub const SAVE_DELAY_MS: u64 = 600;

impl Debounce {
    /// No timer is running.
    pub fn new() -> (r: Debounce)
        ensures
            r.timer is None,
    {
        Debounce { timer: None }
    }

    /// A timer has been started. Returns the one that it replaces and that is
    /// to be cancelled.
    pub fn schedule(&mut self, timer: u64) -> (cancelled: Option<u64>)
        ensures
            cancelled == old(self).timer,
            final(self).timer == Some(timer),
    {
        let existing = self.timer;
        self.timer = Some(timer);
        existing
    }

    /// A timer has run out. It counts only if none has been started since.
    pub fn fired(&mut self, timer: u64) -> (r: bool)
        ensures
            r == (old(self).timer == Some(timer)),
            final(self).timer == (if r {
                None
            } else {
                old(self).timer
            }),
    {
        let current = match self.timer {
            Some(running) => running == timer,
            None => false,
        };
        if current {
            self.timer = None;
        }
        current
    }
}

// ── entries without a directory scan ───────────────────────────────────────

/// What is known of a file on disk.
#[derive(Clone, Copy, Debug, PartialEq, Eq, Structural)]
pub struct Metadata {
    /// Whether it is a folder.
    pub is_dir: bool,
    /// Whether it is a symbolic link.
    pub is_symlink: bool,
    /// Its size in bytes.
    pub size: u64,
    /// Whether nobody may write it.
    pub readonly: bool,
    /// Its permission bits.
    pub mode: u32,
    /// When it was last modified, in seconds since the epoch.
    pub modified: Option<i64>,
}

/// The content type of folders.
pub const FOLDER_TYPE: &'static str = "inode/directory";

/// A listing entry for a recently used file, where it has a name. `visited` is
/// when it was last opened, which is the ordering of the recent files and more
/// useful there than the modification time.
pub fn recent_entry(
    path: &FilePath,
    visited: i64,
    metadata: Option<Metadata>,
    content_type: &str,
) -> (r: Option<FileEntry>)
    ensures
        r is Some <==> metadata is Some && path::file_name(path@) is Some,
        r matches Some(entry) ==> {
            let md = metadata->0;
            let name = outside::lossy(path::file_name(path@)->0);
            entry@ == (EntryView {
                path: path@,
                name,
                display_name: name,
                search_key: outside::lowercase(name),
                is_dir: md.is_dir,
                is_symlink: md.is_symlink,
                symlink_target: None,
                is_hidden: false,
                size: md.size,
                modified: Some(visited),
                content_type: content_type@,
                can_read: true,
                can_write: !md.readonly,
                can_execute: md.mode & 0o111 != 0,
                mode: md.mode,
            })
        },
{
    let md = match metadata {
        Some(md) => md,
        None => return None,
    };
    let name = match path.file_name_text() {
        Some(name) => name,
        None => return None,
    };
    Some(
        FileEntry {
            path: path.copy(),
            display_name: text::copied(name.as_str()),
            search_key: outside::to_lowercase(name.as_str()),
            name,
            is_dir: md.is_dir,
            is_symlink: md.is_symlink,
            symlink_target: None,
            is_hidden: false,
            size: md.size,
            modified: Some(visited),
            content_type: text::copied(content_type),
            can_read: true,
            can_write: !md.readonly,
            can_execute: md.mode & 0o111 != 0,
            mode: md.mode,
        },
    )
}

/// An item in the trash.
#[derive(Debug)]
pub struct TrashItem {
    /// Its name in the trash.
    pub name: String,
    /// Where it is in the trash.
    pub file_path: FilePath,
    /// Where it came from.
    pub original_path: FilePath,
    /// Whether it is a folder.
    pub is_dir: bool,
    /// Its size in bytes.
    pub size: u64,
}

/// The name that a trashed item is shown under: the one it had originally
/// rather than the mangled name inside the trash.
pub open spec fn original_name(item: TrashItem) -> Seq<char> {
    match path::file_name(item.original_path@) {
        Some(name) => outside::lossy(name),
        None => item.name@,
    }
}

/// The name that a trashed item is shown under.
pub fn trash_display_name(item: &TrashItem) -> (r: String)
    ensures
        r@ == original_name(*item),
{
    match item.original_path.file_name_text() {
        Some(name) => name,
        None => text::copied(item.name.as_str()),
    }
}

/// A listing entry for a trashed item, where it is still there. `guessed` is
/// the content type that its shown name suggests, which counts for files.
pub fn trash_entry(item: &TrashItem, metadata: Option<Metadata>, guessed: &str) -> (r: Option<
    FileEntry,
>)
    ensures
        r is Some <==> metadata is Some,
        r matches Some(entry) ==> {
            let md = metadata->0;
            entry@ == (EntryView {
                path: item.file_path@,
                name: item.name@,
                display_name: original_name(*item),
                search_key: outside::lowercase(original_name(*item)),
                is_dir: item.is_dir,
                is_symlink: md.is_symlink,
                symlink_target: None,
                is_hidden: false,
                size: item.size,
                modified: md.modified,
                content_type: if item.is_dir {
                    FOLDER_TYPE@
                } else {
                    guessed@
                },
                can_read: true,
                can_write: true,
                can_execute: false,
                mode: 0,
            })
        },
{
    let md = match metadata {
        Some(md) => md,
        None => return None,
    };
    let display_name = trash_display_name(item);
    Some(
        FileEntry {
            path: item.file_path.copy(),
            name: text::copied(item.name.as_str()),
            search_key: outside::to_lowercase(display_name.as_str()),
            display_name,
            is_dir: item.is_dir,
            is_symlink: md.is_symlink,
            symlink_target: None,
            is_hidden: false,
            size: item.size,
            modified: md.modified,
            content_type: if item.is_dir {
                text::copied(FOLDER_TYPE)
            } else {
                text::copied(guessed)
            },
            can_read: true,
            can_write: true,
            can_execute: false,
            mode: 0,
        },
    )
}

/// An entry for a directory itself, for "properties of this folder".
pub fn current_dir_entry(dir: &FilePath, metadata: Option<Metadata>) -> (r: Option<FileEntry>)
    ensures
        r is Some <==> metadata is Some,
        r matches Some(entry) ==> {
            let md = metadata->0;
            entry@ == (EntryView {
                path: dir@,
                name: match path::file_name(dir@) {
                    Some(name) => outside::lossy(name),
                    None => "/"@,
                },
                display_name: window::own_name(dir@),
                search_key: outside::lowercase(window::own_name(dir@)),
                is_dir: true,
                is_symlink: false,
                symlink_target: None,
                is_hidden: false,
                size: 0,
                modified: md.modified,
                content_type: FOLDER_TYPE@,
                can_read: true,
                can_write: !md.readonly,
                can_execute: true,
                mode: md.mode,
            })
        },
{
    let md = match metadata {
        Some(md) => md,
        None => return None,
    };
    let display_name = window::directory_name(dir);
    let name = match dir.file_name_text() {
        Some(name) => name,
        None => text::copied("/"),
    };
    Some(
        FileEntry {
            path: dir.copy(),
            name,
            search_key: outside::to_lowercase(display_name.as_str()),
            display_name,
            is_dir: true,
            is_symlink: false,
            symlink_target: None,
            is_hidden: false,
            size: 0,
            modified: md.modified,
            content_type: text::copied(FOLDER_TYPE),
            can_read: true,
            can_write: !md.readonly,
            can_execute: true,
            mode: md.mode,
        },
    )
}

/// A button that leads somewhere can be clicked and says where it leads; one
/// that leads nowhere cannot.
pub proof fn law_buttons_say_where_they_lead(
    button: NavButton,
    other: NavButton,
    p: Seq<u8>,
    verb: Seq<char>,
    keys: Seq<char>,
    home: Option<Seq<u8>>,
)
    requires
        leads(button, Some(p), verb, keys, home),
        leads(other, None, verb, keys, home),
    ensures
        button.sensitive,
        button.tooltip@ == verb + " to “"@ + window::title_of(p, home) + "”  ("@ + keys + ")"@,
        !other.sensitive,
        other.tooltip@ == verb + "  ("@ + keys + ")"@,
{
}

/// One thing is counted in the singular, and any other number in the plural.
pub proof fn law_counts_agree_with_their_nouns(n: nat, noun: Seq<char>)
    ensures
        counted(1, noun) == text::decimal(1) + noun,
        n != 1 ==> counted(n, noun) == text::decimal(n) + noun + seq!['s'],
{
    text::law_one_is_singular(n);
    assert(text::decimal(1) + noun + Seq::<char>::empty() =~= text::decimal(1) + noun);
}

/// The status of a folder names its folders, its files and their size, each
/// where there are any; an empty folder has no files.
pub proof fn law_the_status_names_what_there_is(files: nat, folders: nat, bytes: u64)
    ensures
        files > 0 && folders > 0 && bytes > 0 ==> folder_parts(files + folders, bytes, folders)
            == seq![
            counted(folders, " folder"@),
            counted(files, " file"@),
            outside::size_text(bytes),
        ],
        files > 0 && folders > 0 ==> folder_parts(files + folders, 0, folders) == seq![
            counted(folders, " folder"@),
            counted(files, " file"@),
        ],
        folders > 0 ==> folder_parts(folders, 0, folders) == seq![counted(folders, " folder"@)],
        files > 0 && bytes > 0 ==> folder_parts(files, bytes, 0) == seq![
            counted(files, " file"@),
            outside::size_text(bytes),
        ],
        folder_parts(files, 0, 0) == seq![counted(files, " file"@)],
{
    assert(folder_parts(files + folders, bytes, folders).len() <= 3);
    if files > 0 && folders > 0 {
        assert(folder_parts(files + folders, 0, folders) =~= seq![
            counted(folders, " folder"@),
            counted(files, " file"@),
        ]);
        if bytes > 0 {
            assert(folder_parts(files + folders, bytes, folders) =~= seq![
                counted(folders, " folder"@),
                counted(files, " file"@),
                outside::size_text(bytes),
            ]);
        }
    }
    if folders > 0 {
        assert(folder_parts(folders, 0, folders) =~= seq![counted(folders, " folder"@)]);
    }
    if files > 0 && bytes > 0 {
        assert(folder_parts(files, bytes, 0) =~= seq![
            counted(files, " file"@),
            outside::size_text(bytes),
        ]);
    }
    assert(folder_parts(files, 0, 0) =~= seq![counted(files, " file"@)]);
}

/// Each selected file adds its size to that of the selection, and a folder adds
/// nothing.
pub proof fn law_selected_sizes_add_up(objects: Seq<Option<EntryView>>, entry: EntryView)
    ensures
        selected_bytes(Seq::empty()) == 0,
        selected_bytes(objects.push(Some(entry))) == selected_bytes(objects) + (if entry.is_dir {
            0int
        } else {
            entry.size as int
        }),
{
    assert(objects.push(Some(entry)).drop_last() =~= objects);
}

/// A single selected item is named, with its size unless it is a folder; several
/// are counted, with their size.
pub proof fn law_the_selection_is_named_or_counted(
    entry: EntryView,
    objects: Seq<Option<EntryView>>,
)
    ensures
        entry.is_dir ==> selection_text(seq![Some(entry)]) == "“"@ + entry.display_name
            + "” selected (folder)"@,
        !entry.is_dir ==> selection_text(seq![Some(entry)]) == "“"@ + entry.display_name
            + "” selected ("@ + outside::size_text(entry.size) + ")"@,
        objects.len() > 1 ==> selection_text(objects) == text::decimal(objects.len())
            + " items selected ("@ + outside::size_text(selected_bytes(objects) as u64) + ")"@,
{
}

/// A new icon size is shown, remembered and used everywhere.
pub proof fn law_an_icon_size_shows_everywhere(plan: ZoomPlan, size: i32)
    requires
        changes_icon_size(plan, size),
    ensures
        plan.size == size,
        plan.readout@ == text::signed_decimal(size as int) + "px"@,
        plan.clear_thumbnails && plan.refresh_items && plan.save,
{
}

/// A trashed item is shown under the name it had.
pub proof fn law_trashed_items_keep_their_names(item: TrashItem, dir: Seq<u8>, name: Seq<u8>)
    requires
        path::is_name(name),
        item.original_path@ == path::joined(dir, name),
    ensures
        original_name(item) == outside::lossy(name),
{
    path::law_join_appends_a_name(dir, name);
}

} // verus!
