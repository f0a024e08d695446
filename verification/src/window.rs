//! The main window: tabs, navigation, scanning, searching and live updates.
//!
//! What the window decides is here; what it then has to do with the file system
//! and the toolkit is returned as a plan.

use crate::entry::FileEntry;
use crate::entry::ViewMode;
use crate::file_view;
use crate::file_view::FileView;
use crate::outside;
use crate::path;
use crate::path::FilePath;
use crate::pathbar;
use crate::sidebar;
use crate::text;
use vstd::prelude::*;
use vstd::string::*;

verus! {

// ── places ─────────────────────────────────────────────────────────────────

/// Where the view is pointed. Trash is not a normal directory: its contents are
/// assembled from the freedesktop trash metadata, and restore only works there.
#[derive(Debug)]
pub enum Location {
    /// A directory.
    Directory(FilePath),
    /// The trash.
    Trash,
    /// The freedesktop recent-files list, assembled from paths that still
    /// exist. Has no directory of its own, so it cannot be pasted into.
    Recent,
}

/// The plain values of a location.
pub enum LocationView {
    /// A directory.
    Directory(Seq<u8>),
    /// The trash.
    Trash,
    /// The recent files.
    Recent,
}

impl View for Location {
    type V = LocationView;

    open spec fn view(&self) -> LocationView {
        match *self {
            Location::Directory(p) => LocationView::Directory(p@),
            Location::Trash => LocationView::Trash,
            Location::Recent => LocationView::Recent,
        }
    }
}

/// The directory of a location, where it has one.
pub open spec fn directory_of(location: LocationView) -> Option<Seq<u8>> {
    match location {
        LocationView::Directory(p) => Some(p),
        _ => None,
    }
}

/// The bytes of an optional path.
pub open spec fn bytes_of(p: Option<FilePath>) -> Option<Seq<u8>> {
    match p {
        Some(p) => Some(p@),
        None => None,
    }
}

impl Location {
    /// The directory, where there is one.
    pub fn as_path(&self) -> (r: Option<&FilePath>)
        ensures
            sidebar::path_of(r) == directory_of(self@),
    {
        match self {
            Location::Directory(p) => Some(p),
            Location::Trash => None,
            Location::Recent => None,
        }
    }

    /// A copy of the location.
    pub fn copy(&self) -> (r: Location)
        ensures
            r@ == self@,
    {
        match self {
            Location::Directory(p) => Location::Directory(p.copy()),
            Location::Trash => Location::Trash,
            Location::Recent => Location::Recent,
        }
    }
}

/// A pending copy or cut.
#[derive(Debug)]
pub struct Clip {
    /// The files.
    pub paths: Vec<FilePath>,
    /// Whether they are to be moved.
    pub is_cut: bool,
}

/// What a directory is called: its name, or its whole path where it has none.
pub open spec fn own_name(p: Seq<u8>) -> Seq<char> {
    match path::file_name(p) {
        Some(name) => outside::lossy(name),
        None => outside::lossy(p),
    }
}

/// What a directory is called.
pub fn directory_name(p: &FilePath) -> (r: String)
    ensures
        r@ == own_name(p@),
{
    match p.file_name_text() {
        Some(name) => name,
        None => p.display(),
    }
}

/// The title of a directory: the home directory is Home, any other goes by its
/// name.
pub open spec fn title_of(p: Seq<u8>, home: Option<Seq<u8>>) -> Seq<char> {
    if home is Some && path::components(home->0) == path::components(p) {
        "Home"@
    } else {
        own_name(p)
    }
}

/// The title of a directory, for the given home directory.
pub fn display_title_from(p: &FilePath, home: Option<&FilePath>) -> (r: String)
    ensures
        r@ == title_of(p@, pathbar::home_view(home)),
{
    match home {
        Some(h) if h.same_as(p) => text::copied("Home"),
        _ => directory_name(p),
    }
}

/// The title of a directory.
pub fn display_title(p: &FilePath) -> (r: String)
    ensures
        exists|home: Option<Seq<u8>>|
            pathbar::is_home(home) && r@ == #[trigger] title_of(p@, home),
{
    let home = pathbar::home_dir();
    display_title_from(p, home.as_ref())
}

// ── tabs ───────────────────────────────────────────────────────────────────

/// Everything that belongs to one tab.
///
/// A tab is a place you are looking at, so it owns the view showing it and the
/// scan feeding it. The window keeps only the chrome around them, which is
/// shared and always reflects whichever tab is in front.
#[derive(Debug)]
pub struct Tab {
    /// The view.
    pub view: FileView,
    /// Where it is pointed.
    pub location: Location,
    /// Counts the navigations, so a slow scan can detect it was superseded.
    pub scan_generation: u64,
}

/// The label of a tab.
pub open spec fn tab_title(location: LocationView) -> Seq<char> {
    match location {
        LocationView::Trash => "Trash"@,
        LocationView::Recent => "Recent"@,
        LocationView::Directory(p) => own_name(p),
    }
}

impl Tab {
    /// A tab at a directory, with nothing loaded yet.
    pub fn new(start: &FilePath, show_hidden: bool, mode: ViewMode) -> (r: Tab)
        ensures
            r.view.valid(),
            r.view.model@.len() == 0,
            r.view.search@ == ""@,
            r.view.show_hidden == show_hidden,
            r.view.mode == mode,
            r.location@ == LocationView::Directory(start@),
            r.scan_generation == 0,
    {
        Tab {
            view: FileView::new(show_hidden, mode),
            location: Location::Directory(start.copy()),
            scan_generation: 0,
        }
    }

    /// A short label for the tab strip. The root has a name worth showing
    /// rather than an empty tab.
    pub fn title(&self) -> (r: String)
        ensures
            r@ == tab_title(self.location@),
    {
        match &self.location {
            Location::Trash => text::copied("Trash"),
            Location::Recent => text::copied("Recent"),
            Location::Directory(p) => directory_name(p),
        }
    }
}

// ── the banner ─────────────────────────────────────────────────────────────

/// The banner is shared between unrelated states, so its button needs to know
/// which one is showing.
#[derive(Clone, Copy, Debug, PartialEq, Eq, Structural)]
pub enum BannerAction {
    /// Empties the freedesktop recent-files list.
    ClearRecent,
    /// Nothing.
    Nothing,
    /// Empties the trash.
    EmptyTrash,
    /// Stops the search.
    StopSearch,
}

/// The banner above the files.
#[derive(Debug)]
pub struct Banner {
    /// What its button does.
    pub action: BannerAction,
    /// Its text.
    pub title: String,
    /// The text of its button, where it has one.
    pub button: Option<&'static str>,
    /// Whether it is shown.
    pub revealed: bool,
}

/// The plain values of a banner.
pub struct BannerView {
    /// What its button does.
    pub action: BannerAction,
    /// Its text.
    pub title: Seq<char>,
    /// The text of its button.
    pub button: Option<Seq<char>>,
    /// Whether it is shown.
    pub revealed: bool,
}

/// The text of an optional literal.
pub open spec fn label_of(s: Option<&'static str>) -> Option<Seq<char>> {
    match s {
        Some(s) => Some(s@),
        None => None,
    }
}

impl View for Banner {
    type V = BannerView;

    open spec fn view(&self) -> BannerView {
        BannerView {
            action: self.action,
            title: self.title@,
            button: label_of(self.button),
            revealed: self.revealed,
        }
    }
}

/// A banner after it has been set. One without a text is hidden, and keeps the
/// text it had.
pub open spec fn banner_set(
    before: BannerView,
    action: BannerAction,
    title: Seq<char>,
    button: Option<Seq<char>>,
) -> BannerView {
    BannerView {
        action,
        title: if title.len() == 0 {
            before.title
        } else {
            title
        },
        button,
        revealed: title.len() > 0,
    }
}

/// A hidden banner that does nothing.
pub open spec fn banner_cleared(before: BannerView) -> BannerView {
    BannerView {
        action: BannerAction::Nothing,
        title: before.title,
        button: None,
        revealed: false,
    }
}

impl Banner {
    /// A hidden banner.
    pub fn new() -> (r: Banner)
        ensures
            r.action == BannerAction::Nothing,
            r.title@ == ""@,
            r.button is None,
            !r.revealed,
    {
        Banner {
            action: BannerAction::Nothing,
            title: text::copied(""),
            button: None,
            revealed: false,
        }
    }

    /// Shows a text, or hides the banner where there is none.
    pub fn set(&mut self, action: BannerAction, title: &str, button: Option<&'static str>)
        ensures
            final(self)@ == banner_set(old(self)@, action, title@, label_of(button)),
    {
        self.action = action;
        self.button = button;
        if text::chars_of(title).len() == 0 {
            self.revealed = false;
            return;
        }
        self.title = text::copied(title);
        self.revealed = true;
    }

    /// Hides the banner.
    pub fn clear(&mut self)
        ensures
            final(self)@ == banner_cleared(old(self)@),
    {
        self.action = BannerAction::Nothing;
        self.button = None;
        self.revealed = false;
    }
}

// ── the window ─────────────────────────────────────────────────────────────

/// The state of a window.
#[derive(Debug)]
pub struct Window {
    /// The tabs.
    pub tabs: Vec<Tab>,
    /// The one in front.
    pub active: usize,
    /// Counts the searches, so a slow walk can tell it has been superseded.
    pub search_generation: u64,
    /// Whether a recursive search is running.
    pub searching: bool,
    /// Whether the search bar is open.
    pub search_open: bool,
    /// The text in the search bar.
    pub search_text: String,
    /// The banner.
    pub banner: Banner,
    /// What has been copied or cut.
    pub clipboard: Option<Clip>,
}

/// What is to be loaded into a tab.
#[derive(Debug)]
pub enum Load {
    /// The entries of a directory.
    Directory(FilePath),
    /// The trash.
    Trash,
    /// The recent files.
    Recent,
}

/// What happens to the watch on the open directory.
#[derive(Debug)]
pub enum Monitor {
    /// A directory is watched, so external changes show up without a manual
    /// refresh.
    Watch(FilePath),
    /// Nothing is watched any more.
    Stop,
    /// It stays as it was.
    Keep,
}

/// What a navigation asks for beside the window's own state.
#[derive(Debug)]
pub struct Navigation {
    /// A place to put into the tab's history.
    pub push_history: Option<FilePath>,
    /// The number of the scan to be started; the one before is cancelled.
    pub generation: u64,
    /// The tab's new label.
    pub tab_title: String,
    /// The window's new title.
    pub window_title: Option<String>,
    /// The path to show in the path bar.
    pub pathbar: Option<FilePath>,
    /// The place to highlight in the sidebar.
    pub sidebar: Option<FilePath>,
    /// What happens to the watch.
    pub monitor: Monitor,
    /// What is to be loaded.
    pub load: Load,
}

/// The place that the sidebar is told of in the trash, which no row has.
pub const TRASH_PLACE: &'static str = "<trash>";

/// What a navigation asks for.
pub open spec fn navigation_plan(
    n: Navigation,
    location: LocationView,
    push_history: bool,
    generation: u64,
    home: Option<Seq<u8>>,
) -> bool {
    &&& bytes_of(n.push_history) == (if push_history {
        directory_of(location)
    } else {
        None
    })
    &&& n.generation == generation
    &&& n.tab_title@ == tab_title(location)
    &&& match location {
        LocationView::Directory(p) => {
            &&& n.window_title matches Some(t) && t@ == title_of(p, home)
            &&& n.pathbar matches Some(q) && q@ == p
            &&& n.sidebar matches Some(q) && q@ == p
            &&& n.monitor matches Monitor::Watch(q) && q@ == p
            &&& n.load matches Load::Directory(q) && q@ == p
        },
        LocationView::Trash => {
            &&& n.window_title matches Some(t) && t@ == "Trash"@
            &&& n.pathbar is None
            &&& n.sidebar matches Some(q) && q@ == vstd::utf8::encode_utf8(TRASH_PLACE@)
            &&& n.monitor is Stop
            &&& n.load is Trash
        },
        LocationView::Recent => {
            &&& n.window_title is None
            &&& n.pathbar is None
            &&& n.sidebar is None
            &&& n.monitor is Keep
            &&& n.load is Recent
        },
    }
}

/// Whether a tab is one that has just gone to a place: nothing is loaded, nothing
/// is searched for, older scans are superseded, and hidden files are shown as the
/// settings say.
pub open spec fn arrived(
    after: Tab,
    before: Tab,
    location: LocationView,
    show_hidden: bool,
) -> bool {
    &&& after.location@ == location
    &&& after.scan_generation == before.scan_generation + 1
    &&& after.view.model@.len() == 0
    &&& after.view.search@ == outside::lowercase(""@)
    &&& after.view.show_hidden == show_hidden
    &&& after.view.mode == before.view.mode
    &&& after.view.valid()
}

/// How a search goes on.
#[derive(Debug)]
pub struct SearchPlan {
    /// How the view's filter changes.
    pub filter: Option<file_view::FilterChange>,
    /// The directory to walk, what to look for, and the number of the search;
    /// nothing where no walk is to be started.
    pub walk: Option<(FilePath, String, u64)>,
}

/// The banner while a search is running.
pub open spec fn searching_text(query: Seq<char>, root: Seq<u8>, home: Option<Seq<u8>>) -> Seq<
    char,
> {
    "Searching for “"@ + query + "” in "@ + title_of(root, home) + "…"@
}

/// The banner when a search has ended.
pub open spec fn found_text(query: Seq<char>, total: nat, truncated: bool) -> Seq<char> {
    if total == 0 {
        "No matches for “"@ + query + "” below this folder"@
    } else if truncated {
        "Showing the first "@ + text::decimal(total)
            + " matches — narrow the search to see fewer"@
    } else {
        text::decimal(total) + " match"@ + (if total == 1 {
            ""@
        } else {
            "es"@
        }) + " below this folder"@
    }
}

/// The banner when a search has ended.
fn found_label(query: &str, total: u64, truncated: bool) -> (r: String)
    ensures
        r@ == found_text(query@, total as nat, truncated),
{
    let mut out: String;
    if total == 0 {
        out = text::copied("No matches for “");
        out.append(query);
        out.append("” below this folder");
    } else if truncated {
        out = text::copied("Showing the first ");
        out.append(text::decimal_of(total).as_str());
        out.append(" matches — narrow the search to see fewer");
    } else {
        out = text::decimal_of(total);
        out.append(" match");
        out.append(
            if total == 1 {
                ""
            } else {
                "es"
            },
        );
        out.append(" below this folder");
    }
    out
}

/// Which search a query starts: none for less than two characters, and none in
/// the trash.
pub open spec fn walks(query: Seq<char>, location: LocationView) -> bool {
    text::trimmed(query).len() >= 2 && location is Directory
}

impl Window {
    /// There is always at least one tab and one of them is in front; only what
    /// is shown is selected in each.
    pub open spec fn valid(&self) -> bool {
        &&& self.active < self.tabs@.len()
        &&& forall|i: int| 0 <= i < self.tabs@.len() ==> (#[trigger] self.tabs@[i]).view.valid()
    }

    /// The tab in front.
    pub open spec fn front(&self) -> Tab {
        self.tabs@[self.active as int]
    }

    /// Whether the tabs other than the one in front are those of another state,
    /// and so is what belongs to no tab.
    pub open spec fn others_kept(&self, before: Window) -> bool {
        &&& self.tabs@.len() == before.tabs@.len()
        &&& self.active == before.active
        &&& forall|i: int|
            0 <= i < self.tabs@.len() && i != self.active ==> #[trigger] self.tabs@[i]
                == before.tabs@[i]
        &&& self.clipboard == before.clipboard
    }

    /// Whether the search is as in another state.
    pub open spec fn search_kept(&self, before: Window) -> bool {
        &&& self.search_generation == before.search_generation
        &&& self.searching == before.searching
        &&& self.search_open == before.search_open
        &&& self.search_text == before.search_text
    }

    /// Whether nothing is searched for, and what was is superseded.
    pub open spec fn search_dropped(&self, before: Window) -> bool {
        &&& self.search_generation == before.search_generation + 1
        &&& !self.searching
        &&& !self.search_open
        &&& self.search_text@ == ""@
    }

    /// Whether nothing but the banner differs from another state.
    pub open spec fn but_banner(&self, before: Window) -> bool {
        &&& self.tabs == before.tabs
        &&& self.active == before.active
        &&& self.search_kept(before)
        &&& self.clipboard == before.clipboard
    }

    /// A window with one tab, at `start`, before it goes there.
    pub fn new(start: &FilePath, show_hidden: bool, mode: ViewMode) -> (r: Window)
        ensures
            r.valid(),
            r.tabs@.len() == 1,
            r.active == 0,
            r.front().location@ == LocationView::Directory(start@),
            r.front().scan_generation == 0,
            r.front().view.model@.len() == 0,
            r.front().view.search@ == ""@,
            r.front().view.show_hidden == show_hidden,
            r.front().view.mode == mode,
            r.search_generation == 0,
            !r.searching && !r.search_open,
            r.search_text@ == ""@,
            !r.banner.revealed && r.banner.action == BannerAction::Nothing,
            r.banner.title@ == ""@ && r.banner.button is None,
            r.clipboard is None,
    {
        let mut tabs: Vec<Tab> = Vec::new();
        tabs.push(Tab::new(start, show_hidden, mode));
        Window {
            tabs,
            active: 0,
            search_generation: 0,
            searching: false,
            search_open: false,
            search_text: text::copied(""),
            banner: Banner::new(),
            clipboard: None,
        }
    }

    /// The directory that is shown, where there is one.
    pub fn current_dir(&self) -> (r: Option<FilePath>)
        requires
            self.valid(),
        ensures
            bytes_of(r) == directory_of(self.front().location@),
    {
        match &self.tabs[self.active].location {
            Location::Directory(p) => Some(p.copy()),
            Location::Trash => None,
            Location::Recent => None,
        }
    }

    /// Whether the trash is shown.
    pub fn in_trash(&self) -> (r: bool)
        requires
            self.valid(),
        ensures
            r == (self.front().location@ is Trash),
    {
        match &self.tabs[self.active].location {
            Location::Trash => true,
            _ => false,
        }
    }

    /// Puts a tab in the place of the one in front.
    fn put_front(&mut self, tab: Tab)
        requires
            old(self).valid(),
            tab.view.valid(),
        ensures
            final(self).valid(),
            final(self).front() == tab,
            final(self).others_kept(*old(self)),
            final(self).search_kept(*old(self)),
            final(self).banner == old(self).banner,
    {
        let at = self.active;
        let _ = self.tabs.remove(at);
        self.tabs.insert(at, tab);
    }

    /// Goes to a place.
    ///
    /// A scan still running for the previous directory is superseded, and so is
    /// a search rooted at the folder that is being left.
    pub fn navigate_to(&mut self, location: Location, push_history: bool, show_hidden: bool) -> (r:
        Navigation)
        requires
            old(self).valid(),
            old(self).front().scan_generation < u64::MAX,
            old(self).search_generation < u64::MAX,
        ensures
            final(self).valid(),
            final(self).others_kept(*old(self)),
            arrived(final(self).front(), old(self).front(), location@, show_hidden),
            final(self).search_dropped(*old(self)),
            final(self).banner@ == (if location@ is Directory {
                banner_cleared(old(self).banner@)
            } else {
                old(self).banner@
            }),
            exists|home: Option<Seq<u8>>|
                pathbar::is_home(home) && #[trigger] navigation_plan(
                    r,
                    location@,
                    push_history,
                    final(self).front().scan_generation,
                    home,
                ),
    {
        let home = pathbar::home_dir();
        self.navigate_from(location, push_history, show_hidden, home.as_ref())
    }

    /// Goes to a place, with the given home directory. `show_hidden` is the
    /// setting that all tabs have in common, as it is now.
    pub fn navigate_from(
        &mut self,
        location: Location,
        push_history: bool,
        show_hidden: bool,
        home: Option<&FilePath>,
    ) -> (r: Navigation)
        requires
            old(self).valid(),
            old(self).front().scan_generation < u64::MAX,
            old(self).search_generation < u64::MAX,
        ensures
            final(self).valid(),
            final(self).others_kept(*old(self)),
            arrived(final(self).front(), old(self).front(), location@, show_hidden),
            final(self).search_dropped(*old(self)),
            final(self).banner@ == (if location@ is Directory {
                banner_cleared(old(self).banner@)
            } else {
                old(self).banner@
            }),
            navigation_plan(
                r,
                location@,
                push_history,
                final(self).front().scan_generation,
                pathbar::home_view(home),
            ),
    {
        let generation: u64 = self.tabs[self.active].scan_generation + 1;
        let mode = self.tabs[self.active].view.mode;
        let mut view = FileView::new(show_hidden, mode);
        let _ = view.set_search("");
        assert(view.rows().len() == 0);
        assert(view.model@.len() == view.rows().len());
        let push: Option<FilePath> = if push_history {
            match location.as_path() {
                Some(p) => Some(p.copy()),
                None => None,
            }
        } else {
            None
        };
        let plan: Navigation = match &location {
            Location::Directory(p) => Navigation {
                push_history: push,
                generation,
                tab_title: directory_name(p),
                window_title: Some(display_title_from(p, home)),
                pathbar: Some(p.copy()),
                sidebar: Some(p.copy()),
                monitor: Monitor::Watch(p.copy()),
                load: Load::Directory(p.copy()),
            },
            Location::Trash => Navigation {
                push_history: push,
                generation,
                tab_title: text::copied("Trash"),
                window_title: Some(text::copied("Trash")),
                pathbar: None,
                sidebar: Some(FilePath::new(TRASH_PLACE)),
                monitor: Monitor::Stop,
                load: Load::Trash,
            },
            Location::Recent => Navigation {
                push_history: push,
                generation,
                tab_title: text::copied("Recent"),
                window_title: None,
                pathbar: None,
                sidebar: None,
                monitor: Monitor::Keep,
                load: Load::Recent,
            },
        };
        match &location {
            Location::Directory(_) => self.banner.clear(),
            Location::Trash => {},
            Location::Recent => {},
        }
        self.search_generation = self.search_generation + 1;
        self.searching = false;
        self.search_open = false;
        self.search_text = text::copied("");
        self.put_front(Tab { view, location, scan_generation: generation });
        plan
    }

    /// Opens a place in a new tab and switches to it. A place without a
    /// directory starts from the home directory, or from the root without one.
    /// The tab is shown as the settings `show_hidden` and `mode` say.
    pub fn open_in_new_tab(
        &mut self,
        location: Location,
        show_hidden: bool,
        mode: ViewMode,
        home: Option<&FilePath>,
    ) -> (r: Navigation)
        requires
            old(self).valid(),
            old(self).search_generation < u64::MAX,
            old(self).tabs@.len() < usize::MAX,
        ensures
            final(self).valid(),
            final(self).tabs@.len() == old(self).tabs@.len() + 1,
            final(self).tabs@.drop_last() == old(self).tabs@,
            final(self).active == old(self).tabs@.len(),
            final(self).front().location@ == location@,
            final(self).front().scan_generation == 1,
            final(self).front().view.model@.len() == 0,
            final(self).front().view.show_hidden == show_hidden,
            final(self).front().view.mode == mode,
            final(self).front().view.search@ == outside::lowercase(""@),
            final(self).clipboard == old(self).clipboard,
            final(self).search_dropped(*old(self)),
            final(self).banner@ == (if location@ is Directory {
                banner_cleared(old(self).banner@)
            } else {
                old(self).banner@
            }),
            navigation_plan(r, location@, false, 1, pathbar::home_view(home)),
    {
        let start: FilePath = match location.as_path() {
            Some(p) => p.copy(),
            None => match home {
                Some(h) => h.copy(),
                None => FilePath::root(),
            },
        };
        let ghost before = self.tabs@;
        self.tabs.push(Tab::new(&start, show_hidden, mode));
        self.active = self.tabs.len() - 1;
        let ghost pushed = *self;
        let plan = self.navigate_from(location, false, show_hidden, home);
        assert(self.tabs@.drop_last() =~= before) by {
            assert forall|i: int| 0 <= i < before.len() implies self.tabs@.drop_last()[i]
                == before[i] by {
                assert(self.tabs@[i] == pushed.tabs@[i]);
            }
        }
        plan
    }

    /// Closes a tab. Closing the last one would leave a window with nothing in
    /// it; the result says that the window is to be closed instead, which is
    /// what every tabbed app does. The tab behind the closed one comes to the
    /// front, or the one before it where there is none behind.
    pub fn close_tab(&mut self, at: usize) -> (close_window: bool)
        requires
            old(self).valid(),
            at < old(self).tabs@.len(),
        ensures
            final(self).valid(),
            close_window == (old(self).tabs@.len() == 1),
            close_window ==> *final(self) == *old(self),
            !close_window ==> final(self).tabs@ == old(self).tabs@.remove(at as int),
            !close_window && at != old(self).active ==> final(self).front()
                == old(self).front() && final(self).active == (if at < old(self).active {
                old(self).active - 1
            } else {
                old(self).active as int
            }),
            !close_window && at == old(self).active ==> final(self).active == (if at + 1
                < old(self).tabs@.len() {
                at as int
            } else {
                at - 1
            }),
            final(self).clipboard == old(self).clipboard,
            final(self).search_kept(*old(self)),
            final(self).banner == old(self).banner,
    {
        if self.tabs.len() == 1 {
            return true;
        }
        let ghost before = self.tabs@;
        let _ = self.tabs.remove(at);
        if at < self.active || self.active == self.tabs.len() {
            self.active = self.active - 1;
        }
        assert forall|i: int| 0 <= i < self.tabs@.len() implies (
        #[trigger] self.tabs@[i]).view.valid() by {
            if i < at {
                assert(self.tabs@[i] == before[i]);
            } else {
                assert(self.tabs@[i] == before[i + 1]);
            }
        }
        false
    }

    /// Moves `offset` tabs along, wrapping at both ends.
    pub fn cycle_tab(&mut self, offset: i32)
        requires
            old(self).valid(),
            old(self).tabs@.len() <= i32::MAX,
        ensures
            final(self).valid(),
            final(self).active == cycled(
                old(self).active as int,
                offset as int,
                old(self).tabs@.len() as int,
            ),
            final(self).tabs == old(self).tabs,
            final(self).search_kept(*old(self)),
            final(self).banner == old(self).banner,
            final(self).clipboard == old(self).clipboard,
    {
        let count: i64 = self.tabs.len() as i64;
        if count < 2 {
            return;
        }
        let sum: i64 = self.active as i64 + offset as i64;
        let rest: i64 = if sum >= 0 {
            sum % count
        } else {
            let back: i64 = (-sum) % count;
            if back == 0 {
                0
            } else {
                count - back
            }
        };
        proof {
            lemma_wrap(sum as int, count as int);
        }
        self.active = rest as usize;
    }

    /// Whether the strip of tabs is shown: it hides itself when only one is
    /// open.
    pub fn shows_tab_strip(&self) -> (r: bool)
        ensures
            r == (self.tabs@.len() > 1),
    {
        self.tabs.len() > 1
    }

    /// A tab has been brought to the front.
    pub fn select_tab(&mut self, at: usize)
        requires
            old(self).valid(),
            at < old(self).tabs@.len(),
        ensures
            final(self).valid(),
            *final(self) == (Window { active: at, ..*old(self) }),
    {
        self.active = at;
    }

    /// A batch of a scan's entries has come. The scan belongs to the tab that
    /// started it, whichever is in front by now; a batch of a scan that has
    /// been superseded is dropped. Returns whether it was taken.
    pub fn scan_batch(&mut self, at: usize, generation: u64, entries: Vec<FileEntry>) -> (r: bool)
        requires
            old(self).valid(),
            at < old(self).tabs@.len(),
        ensures
            final(self).valid(),
            r == (old(self).tabs@[at as int].scan_generation == generation),
            final(self).active == old(self).active,
            final(self).clipboard == old(self).clipboard,
            final(self).banner == old(self).banner,
            final(self).search_kept(*old(self)),
            final(self).tabs@.len() == old(self).tabs@.len(),
            forall|i: int|
                0 <= i < old(self).tabs@.len() && i != at ==> #[trigger] final(self).tabs@[i]
                    == old(self).tabs@[i],
            final(self).tabs@[at as int].view.rows() == old(self).tabs@[at as int].view.rows()
                + (if r {
                file_view::fresh_rows(entries@)
            } else {
                Seq::empty()
            }),
            final(self).tabs@[at as int].location@ == old(self).tabs@[at as int].location@,
            final(self).tabs@[at as int].scan_generation
                == old(self).tabs@[at as int].scan_generation,
            final(self).tabs@[at as int].view.search@ == old(self).tabs@[at as int].view.search@,
            final(self).tabs@[at as int].view.show_hidden
                == old(self).tabs@[at as int].view.show_hidden,
            final(self).tabs@[at as int].view.mode == old(self).tabs@[at as int].view.mode,
    {
        if self.tabs[at].scan_generation != generation {
            assert(self.tabs@[at as int].view.rows() =~= old(self).tabs@[at as int].view.rows()
                + Seq::empty());
            return false;
        }
        let ghost before = self.tabs@;
        let tab = self.tabs.remove(at);
        let mut view = tab.view;
        view.append_batch(entries);
        self.tabs.insert(
            at,
            Tab { view, location: tab.location, scan_generation: tab.scan_generation },
        );
        assert forall|i: int| 0 <= i < before.len() && i != at implies #[trigger] self.tabs@[i]
            == before[i] by {}
        true
    }

    /// A scan has ended, with an error where it failed. Returns whether the
    /// chrome is to be brought up to date: only the tab in front owns it, so a
    /// background tab finishing its scan must not repaint the status bar for
    /// another.
    pub fn scan_finished(&mut self, at: usize, generation: u64, error: Option<&str>) -> (r: bool)
        requires
            old(self).valid(),
            at < old(self).tabs@.len(),
        ensures
            final(self).valid(),
            final(self).but_banner(*old(self)),
            r == (old(self).tabs@[at as int].scan_generation == generation && at
                == old(self).active),
            final(self).banner@ == (match error {
                Some(message) => if old(self).tabs@[at as int].scan_generation == generation {
                    banner_set(
                        old(self).banner@,
                        BannerAction::Nothing,
                        "Could not read this folder: "@ + message@,
                        None,
                    )
                } else {
                    old(self).banner@
                },
                None => old(self).banner@,
            }),
    {
        if self.tabs[at].scan_generation != generation {
            return false;
        }
        match error {
            Some(message) => {
                let mut title = text::copied("Could not read this folder: ");
                title.append(message);
                self.banner.set(BannerAction::Nothing, title.as_str(), None);
            },
            None => {},
        }
        at == self.active
    }

    /// The recent files have been listed. A list for a navigation that has been
    /// superseded is dropped. Returns whether it was taken.
    pub fn load_recent(&mut self, generation: u64, entries: Vec<FileEntry>) -> (r: bool)
        requires
            old(self).valid(),
        ensures
            final(self).valid(),
            final(self).others_kept(*old(self)),
            final(self).search_kept(*old(self)),
            r == (old(self).front().scan_generation == generation),
            final(self).front().location@ == old(self).front().location@,
            final(self).front().scan_generation == old(self).front().scan_generation,
            final(self).front().view.search@ == old(self).front().view.search@,
            final(self).front().view.show_hidden == old(self).front().view.show_hidden,
            final(self).front().view.mode == old(self).front().view.mode,
            final(self).front().view.rows() == old(self).front().view.rows() + (if r {
                file_view::fresh_rows(entries@)
            } else {
                Seq::empty()
            }),
            final(self).banner@ == (if !r {
                old(self).banner@
            } else if entries@.len() == 0 {
                banner_set(
                    old(self).banner@,
                    BannerAction::Nothing,
                    "No recently used files yet"@,
                    None,
                )
            } else {
                banner_set(
                    old(self).banner@,
                    BannerAction::ClearRecent,
                    "Files you have opened recently, newest first"@,
                    Some("Clear"@),
                )
            }),
    {
        let at = self.active;
        let empty = entries.len() == 0;
        if !self.scan_batch(at, generation, entries) {
            return false;
        }
        if empty {
            self.banner.set(BannerAction::Nothing, "No recently used files yet", None);
        } else {
            self.banner.set(
                BannerAction::ClearRecent,
                "Files you have opened recently, newest first",
                Some("Clear"),
            );
        }
        true
    }

    /// The trash has been listed. A list for a navigation that has been
    /// superseded is dropped. Returns whether it was taken. `is_empty` says
    /// whether the trash holds nothing at all, shown or not.
    pub fn load_trash(&mut self, generation: u64, entries: Vec<FileEntry>, is_empty: bool) -> (r:
        bool)
        requires
            old(self).valid(),
        ensures
            final(self).valid(),
            final(self).others_kept(*old(self)),
            final(self).search_kept(*old(self)),
            r == (old(self).front().scan_generation == generation),
            final(self).front().location@ == old(self).front().location@,
            final(self).front().scan_generation == old(self).front().scan_generation,
            final(self).front().view.search@ == old(self).front().view.search@,
            final(self).front().view.show_hidden == old(self).front().view.show_hidden,
            final(self).front().view.mode == old(self).front().view.mode,
            final(self).front().view.rows() == old(self).front().view.rows() + (if r {
                file_view::fresh_rows(entries@)
            } else {
                Seq::empty()
            }),
            final(self).banner@ == (if !r {
                old(self).banner@
            } else if is_empty {
                banner_set(
                    old(self).banner@,
                    BannerAction::EmptyTrash,
                    "Trash is empty"@,
                    None,
                )
            } else {
                banner_set(
                    old(self).banner@,
                    BannerAction::EmptyTrash,
                    "Items in the Trash keep their original location — restore puts them back"@,
                    Some("Empty Trash"@),
                )
            }),
    {
        let at = self.active;
        if !self.scan_batch(at, generation, entries) {
            return false;
        }
        if is_empty {
            self.banner.set(BannerAction::EmptyTrash, "Trash is empty", None);
        } else {
            self.banner.set(
                BannerAction::EmptyTrash,
                "Items in the Trash keep their original location — restore puts them back",
                Some("Empty Trash"),
            );
        }
        true
    }

    /// Goes to the parent of the directory that is shown, where there is one.
    pub fn go_up(&mut self, show_hidden: bool, home: Option<&FilePath>) -> (r: Option<Navigation>)
        requires
            old(self).valid(),
            old(self).front().scan_generation < u64::MAX,
            old(self).search_generation < u64::MAX,
        ensures
            final(self).valid(),
            match parent_of(old(self).front().location@) {
                Some(p) => {
                    &&& r matches Some(n) && navigation_plan(
                        n,
                        LocationView::Directory(p),
                        true,
                        final(self).front().scan_generation,
                        pathbar::home_view(home),
                    )
                    &&& arrived(
                        final(self).front(),
                        old(self).front(),
                        LocationView::Directory(p),
                        show_hidden,
                    )
                    &&& final(self).others_kept(*old(self))
                    &&& final(self).search_dropped(*old(self))
                    &&& final(self).banner@ == banner_cleared(old(self).banner@)
                },
                None => r is None && *final(self) == *old(self),
            },
    {
        match self.current_dir() {
            Some(current) => match current.parent() {
                Some(parent) => Some(
                    self.navigate_from(Location::Directory(parent), true, show_hidden, home),
                ),
                None => None,
            },
            None => None,
        }
    }

    /// Applies a query: filters the current folder immediately, and says where
    /// the whole subtree is to be searched in the background.
    ///
    /// The local filter is instant and covers the common case; the recursive
    /// walk is what makes searching from Home actually find anything. One or
    /// two characters under a home directory match thousands of files and help
    /// nobody; it waits until the query means something.
    pub fn update_search(&mut self, query: &str, home: Option<&FilePath>) -> (r: SearchPlan)
        requires
            old(self).valid(),
            old(self).search_generation < u64::MAX - 1,
        ensures
            final(self).valid(),
            final(self).others_kept(*old(self)),
            final(self).front().location@ == old(self).front().location@,
            final(self).front().scan_generation == old(self).front().scan_generation,
            final(self).front().view.search@ == outside::lowercase(query@),
            final(self).front().view.rows() == file_view::still_selected(
                old(self).front().view.rows(),
                old(self).front().view.show_hidden,
                outside::lowercase(query@),
            ),
            final(self).front().view.show_hidden == old(self).front().view.show_hidden,
            final(self).front().view.mode == old(self).front().view.mode,
            final(self).search_open == old(self).search_open,
            final(self).search_text == old(self).search_text,
            r.filter == file_view::change_of(
                old(self).front().view.search@,
                outside::lowercase(query@),
            ),
            r.walk is Some <==> walks(query@, old(self).front().location@),
            final(self).searching == (r.walk is Some),
            match r.walk {
                Some((root, what, generation)) => {
                    &&& directory_of(old(self).front().location@) == Some(root@)
                    &&& what@ == text::trimmed(query@)
                    &&& generation == final(self).search_generation
                    &&& final(self).search_generation == old(self).search_generation + 2
                    &&& final(self).banner@.action == BannerAction::StopSearch
                    &&& final(self).banner@.title == searching_text(
                        what@,
                        root@,
                        pathbar::home_view(home),
                    )
                    &&& final(self).banner@.button == Some("Stop"@)
                    &&& final(self).banner@.revealed
                },
                None => {
                    &&& final(self).search_generation == old(self).search_generation + 1
                    &&& final(self).banner@ == (if text::trimmed(query@).len() < 2 || old(
                        self,
                    ).front().location@ is Trash || old(self).banner.action
                        == BannerAction::StopSearch {
                        banner_cleared(old(self).banner@)
                    } else {
                        old(self).banner@
                    })
                },
            },
    {
        let at = self.active;
        let tab = self.tabs.remove(at);
        let mut view = tab.view;
        let filter = view.set_search(query);
        self.tabs.insert(
            at,
            Tab { view, location: tab.location, scan_generation: tab.scan_generation },
        );
        self.stop_search();
        let wanted = text::trim(query);
        if text::trim_chars(query).len() < 2 || self.in_trash() {
            self.banner.clear();
            return SearchPlan { filter, walk: None };
        }
        let root = match self.current_dir() {
            Some(root) => root,
            None => return SearchPlan { filter, walk: None },
        };
        self.search_generation = self.search_generation + 1;
        self.searching = true;
        let mut title = text::copied("Searching for “");
        title.append(wanted.as_str());
        title.append("” in ");
        title.append(display_title_from(&root, home).as_str());
        title.append("…");
        proof {
            reveal_strlit("Searching for “");
        }
        self.banner.set(BannerAction::StopSearch, title.as_str(), Some("Stop"));
        SearchPlan { filter, walk: Some((root, wanted, self.search_generation)) }
    }

    /// Cancels any running recursive search. Late batches from the old walk are
    /// ignored.
    pub fn stop_search(&mut self)
        requires
            old(self).valid(),
            old(self).search_generation < u64::MAX,
        ensures
            final(self).valid(),
            final(self).tabs == old(self).tabs,
            final(self).active == old(self).active,
            final(self).search_open == old(self).search_open,
            final(self).search_text == old(self).search_text,
            final(self).clipboard == old(self).clipboard,
            final(self).search_generation == old(self).search_generation + 1,
            !final(self).searching,
            final(self).banner@ == (if old(self).banner.action == BannerAction::StopSearch {
                banner_cleared(old(self).banner@)
            } else {
                old(self).banner@
            }),
    {
        self.search_generation = self.search_generation + 1;
        self.searching = false;
        match self.banner.action {
            BannerAction::StopSearch => self.banner.clear(),
            _ => {},
        }
    }

    /// A batch of matches has come. Those of a search that has been superseded
    /// are dropped. Returns whether they were taken.
    pub fn search_matches(&mut self, generation: u64, batch: Vec<FileEntry>) -> (r: bool)
        requires
            old(self).valid(),
        ensures
            final(self).valid(),
            final(self).others_kept(*old(self)),
            r == (old(self).search_generation == generation),
            final(self).front().view.rows() == old(self).front().view.rows() + (if r {
                file_view::fresh_rows(batch@)
            } else {
                Seq::empty()
            }),
            final(self).front().location@ == old(self).front().location@,
            final(self).front().scan_generation == old(self).front().scan_generation,
            final(self).front().view.search@ == old(self).front().view.search@,
            final(self).front().view.show_hidden == old(self).front().view.show_hidden,
            final(self).front().view.mode == old(self).front().view.mode,
            final(self).banner == old(self).banner,
            final(self).search_kept(*old(self)),
    {
        if self.search_generation != generation {
            assert(self.front().view.rows() =~= old(self).front().view.rows() + Seq::empty());
            return false;
        }
        let at = self.active;
        let scan = self.tabs[at].scan_generation;
        let _ = self.scan_batch(at, scan, batch);
        true
    }

    /// A search has ended. The end of one that has been superseded changes
    /// nothing. Returns whether it was the current one.
    pub fn search_finished(&mut self, generation: u64, query: &str, total: u64, truncated: bool) ->
        (r: bool)
        requires
            old(self).valid(),
        ensures
            final(self).valid(),
            final(self).but_banner(*old(self)),
            r == (old(self).search_generation == generation),
            final(self).banner@ == (if r {
                banner_set(
                    old(self).banner@,
                    BannerAction::Nothing,
                    found_text(query@, total as nat, truncated),
                    None,
                )
            } else {
                old(self).banner@
            }),
    {
        if self.search_generation != generation {
            return false;
        }
        let title = found_label(query, total, truncated);
        self.banner.set(BannerAction::Nothing, title.as_str(), None);
        true
    }

    /// The search bar has been closed: nothing is searched for any more.
    pub fn search_closed(&mut self) -> (r: Option<file_view::FilterChange>)
        requires
            old(self).valid(),
        ensures
            final(self).valid(),
            final(self).others_kept(*old(self)),
            !final(self).search_open,
            final(self).search_text@ == ""@,
            final(self).front().view.search@ == outside::lowercase(""@),
            final(self).front().view.rows() == file_view::still_selected(
                old(self).front().view.rows(),
                old(self).front().view.show_hidden,
                outside::lowercase(""@),
            ),
            final(self).front().view.show_hidden == old(self).front().view.show_hidden,
            final(self).front().view.mode == old(self).front().view.mode,
            final(self).front().location@ == old(self).front().location@,
            final(self).front().scan_generation == old(self).front().scan_generation,
            final(self).search_generation == old(self).search_generation,
            final(self).searching == old(self).searching,
            final(self).banner == old(self).banner,
            r == file_view::change_of(old(self).front().view.search@, outside::lowercase(""@)),
    {
        self.search_open = false;
        self.search_text = text::copied("");
        let at = self.active;
        let tab = self.tabs.remove(at);
        let mut view = tab.view;
        let change = view.set_search("");
        self.tabs.insert(
            at,
            Tab { view, location: tab.location, scan_generation: tab.scan_generation },
        );
        change
    }
}

/// The parent of the directory of a location, where it has one.
pub open spec fn parent_of(location: LocationView) -> Option<Seq<u8>> {
    match location {
        LocationView::Directory(p) => path::parent(p),
        _ => None,
    }
}

/// The place `offset` tabs along, wrapping at both ends.
pub open spec fn cycled(at: int, offset: int, count: int) -> int {
    if count < 2 {
        at
    } else {
        (at + offset) % count
    }
}

/// The remainder of a sum that may be negative.
proof fn lemma_wrap(sum: int, count: int)
    requires
        count >= 2,
    ensures
        0 <= sum % count < count,
        sum < 0 ==> sum % count == (if (-sum) % count == 0 {
            0
        } else {
            count - (-sum) % count
        }),
{
    vstd::arithmetic::div_mod::lemma_mod_bound(sum, count);
    if sum < 0 {
        vstd::arithmetic::div_mod::lemma_mod_bound(-sum, count);
        let q = (-sum) / count;
        let m = (-sum) % count;
        vstd::arithmetic::div_mod::lemma_fundamental_div_mod(-sum, count);
        if m == 0 {
            assert(sum == count * (-q)) by (nonlinear_arith)
                requires
                    -sum == count * q,
            ;
            vstd::arithmetic::div_mod::lemma_fundamental_div_mod_converse(sum, count, -q, 0);
        } else {
            assert(sum == count * (-q - 1) + (count - m)) by (nonlinear_arith)
                requires
                    -sum == count * q + m,
            ;
            vstd::arithmetic::div_mod::lemma_fundamental_div_mod_converse(
                sum,
                count,
                -q - 1,
                count - m,
            );
        }
    }
}

/// What comes late from a scan or a search that a navigation has left behind is
/// never taken: its number is not the current one.
pub proof fn law_superseded_work_is_dropped(
    before: Window,
    after: Window,
    location: LocationView,
    show_hidden: bool,
    scan: u64,
    search: u64,
)
    requires
        arrived(after.front(), before.front(), location, show_hidden),
        after.search_dropped(before),
        scan <= before.front().scan_generation,
        search <= before.search_generation,
    ensures
        after.front().scan_generation != scan,
        after.search_generation != search,
{
}

/// Going some tabs along and as many back ends at the tab one started from.
pub proof fn law_cycling_back_returns(at: int, offset: int, count: int)
    requires
        0 <= at < count,
    ensures
        cycled(cycled(at, offset, count), -offset, count) == at,
{
    if count >= 2 {
        let there = (at + offset) % count;
        vstd::arithmetic::div_mod::lemma_fundamental_div_mod(at + offset, count);
        let q = (at + offset) / count;
        assert(there - offset == count * (-q) + at) by (nonlinear_arith)
            requires
                at + offset == count * q + there,
        ;
        vstd::arithmetic::div_mod::lemma_fundamental_div_mod_converse(there - offset, count, -q, at);
    }
}

/// A directory goes by its own name, and the home directory by `Home`; a tab
/// goes by the name of its directory, or by that of the trash or the recent
/// files.
pub proof fn law_places_go_by_their_names(dir: Seq<u8>, name: Seq<u8>, home: Option<Seq<u8>>)
    requires
        path::is_name(name),
    ensures
        title_of(path::joined(dir, name), Some(path::joined(dir, name))) == "Home"@,
        (home matches Some(h) && path::components(h) == path::components(path::joined(dir, name)))
            ==> title_of(path::joined(dir, name), home) == "Home"@,
        (home matches Some(h) ==> path::components(h) != path::components(path::joined(dir, name)))
            ==> title_of(path::joined(dir, name), home) == outside::lossy(name),
        own_name(seq![47u8]) == outside::lossy(seq![47u8]),
        tab_title(LocationView::Directory(path::joined(dir, name))) == outside::lossy(name),
        tab_title(LocationView::Trash) == "Trash"@,
        tab_title(LocationView::Recent) == "Recent"@,
{
    path::law_join_appends_a_name(dir, name);
    assert(seq![65u8][0] != seq![46u8][0]);
    path::law_the_name_stands_last(dir, seq![65u8]);
}

/// A banner with a text shows it, with its button and what that does; one
/// without a text is hidden, and so is a cleared one.
pub proof fn law_a_banner_shows_its_text(
    before: BannerView,
    action: BannerAction,
    title: Seq<char>,
    button: Option<Seq<char>>,
)
    ensures
        title.len() > 0 ==> banner_set(before, action, title, button) == (BannerView {
            action,
            title,
            button,
            revealed: true,
        }),
        !banner_set(before, action, Seq::empty(), button).revealed,
        !banner_cleared(before).revealed,
        banner_cleared(before).button is None,
        banner_cleared(before).action == BannerAction::Nothing,
{
}

/// Going to a directory shows its title, its path and its place in the sidebar,
/// watches it and loads it, and remembers it where that is asked for.
pub proof fn law_a_directory_is_shown_and_loaded(
    n: Navigation,
    p: Seq<u8>,
    push_history: bool,
    generation: u64,
    home: Option<Seq<u8>>,
)
    requires
        navigation_plan(n, LocationView::Directory(p), push_history, generation, home),
    ensures
        push_history ==> n.push_history is Some && n.push_history->0@ == p,
        !push_history ==> n.push_history is None,
        n.generation == generation,
        n.tab_title@ == own_name(p),
        n.window_title is Some && n.window_title->0@ == title_of(p, home),
        n.pathbar is Some && n.pathbar->0@ == p,
        n.sidebar is Some && n.sidebar->0@ == p,
        n.monitor is Watch && n.monitor->Watch_0@ == p,
        n.load is Directory && n.load->Directory_0@ == p,
{
}

/// Going to the trash or to the recent files loads these, and is never
/// remembered in the history.
pub proof fn law_virtual_places_are_loaded(
    n: Navigation,
    m: Navigation,
    push_history: bool,
    generation: u64,
    home: Option<Seq<u8>>,
)
    requires
        navigation_plan(n, LocationView::Trash, push_history, generation, home),
        navigation_plan(m, LocationView::Recent, push_history, generation, home),
    ensures
        n.load is Trash && n.push_history is None && n.monitor is Stop && n.tab_title@ == "Trash"@,
        n.window_title is Some && n.window_title->0@ == "Trash"@,
        m.load is Recent && m.push_history is None && m.monitor is Keep && m.tab_title@
            == "Recent"@,
        n.generation == generation && m.generation == generation,
{
}

/// A tab that has gone somewhere is there, shows nothing yet, searches for
/// nothing, hides what the settings hide, and takes nothing from older scans.
pub proof fn law_a_tab_arrives_empty(
    after: Tab,
    before: Tab,
    location: LocationView,
    show_hidden: bool,
)
    requires
        arrived(after, before, location, show_hidden),
    ensures
        after.location@ == location,
        after.view.model@.len() == 0,
        after.view.search@ == outside::lowercase(""@),
        after.view.show_hidden == show_hidden,
        after.view.mode == before.view.mode,
        after.scan_generation == before.scan_generation + 1,
{
}

/// What happens in the tab in front leaves every other tab and the clipboard
/// alone, and what leaves the search alone keeps its text, its bar and its
/// number; a search that is dropped is over, and its results come too late.
pub proof fn law_tabs_are_separate(after: Window, before: Window, i: int)
    ensures
        after.others_kept(before) ==> after.tabs@.len() == before.tabs@.len() && after.active
            == before.active && after.clipboard == before.clipboard && (0 <= i < after.tabs@.len()
            && i != after.active ==> after.tabs@[i] == before.tabs@[i]),
        after.search_kept(before) ==> after.search_generation == before.search_generation
            && after.searching == before.searching && after.search_open == before.search_open
            && after.search_text == before.search_text,
        after.search_dropped(before) ==> after.search_generation == before.search_generation + 1
            && !after.searching && !after.search_open && after.search_text@ == ""@,
        after.but_banner(before) ==> after.tabs == before.tabs && after.active == before.active
            && after.clipboard == before.clipboard && after.search_kept(before),
{
}

/// What a search found is said with its number, or that nothing was found, or
/// that more was found than is shown.
pub proof fn law_a_search_says_what_it_found(
    query: Seq<char>,
    n: nat,
    root: Seq<u8>,
    home: Option<Seq<u8>>,
)
    ensures
        found_text(query, 0, false) == "No matches for “"@ + query + "” below this folder"@,
        searching_text(query, root, home) == "Searching for “"@ + query + "” in "@ + title_of(
            root,
            home,
        ) + "…"@,
        found_text(query, 1, false) == text::decimal(1) + " match"@ + ""@ + " below this folder"@,
        n > 1 ==> found_text(query, n, false) == text::decimal(n) + " match"@ + "es"@
            + " below this folder"@,
        n > 0 ==> found_text(query, n, true) == "Showing the first "@ + text::decimal(n)
            + " matches — narrow the search to see fewer"@,
{
}

/// A search walks a directory as soon as its text has two characters, white
/// space around it apart; it never walks the trash or the recent files.
pub proof fn law_a_search_walks_directories(
    before: Seq<char>,
    query: Seq<char>,
    behind: Seq<char>,
    p: Seq<u8>,
)
    requires
        forall|i: int| 0 <= i < before.len() ==> text::white_space(#[trigger] before[i]),
        forall|i: int| 0 <= i < behind.len() ==> text::white_space(#[trigger] behind[i]),
        query.len() > 0 ==> !text::white_space(query[0]) && !text::white_space(query.last()),
    ensures
        walks(before + query + behind, LocationView::Directory(p)) <==> query.len() >= 2,
        !walks(query, LocationView::Trash),
        !walks(query, LocationView::Recent),
{
    text::law_trimming_takes_white_space_only(before, query, behind);
}

/// One goes up from a directory to the one it is in, and from nowhere else.
pub proof fn law_up_leads_to_the_directory_above(dir: Seq<u8>, sub: Seq<u8>, name: Seq<u8>)
    requires
        path::is_name(sub),
        path::is_name(name),
    ensures
        parent_of(LocationView::Directory(path::joined(path::joined(dir, sub), name))) == Some(
            path::joined(dir, sub),
        ),
        parent_of(LocationView::Directory(path::root())) is None,
        parent_of(LocationView::Trash) is None,
        parent_of(LocationView::Recent) is None,
        directory_of(LocationView::Directory(name)) == Some(name),
        directory_of(LocationView::Trash) is None,
        directory_of(LocationView::Recent) is None,
{
    path::law_the_parent_is_the_directory(dir, sub, name);
    path::law_parent_drops_the_last_component(path::root());
    let none = Seq::<u8>::empty();
    assert(!none.contains(47u8));
    path::law_separators_part_components(none, none);
    assert(seq![47u8] + none =~= path::root());
    assert(seq![seq![47u8]] + Seq::<Seq<u8>>::empty() =~= seq![path::root()]);
}

/// The next tab is the one behind, and the first after the last; the previous
/// one is the one before, and the last before the first. One tab alone stays.
pub proof fn law_tabs_go_round(at: int, count: int)
    requires
        0 <= at < count,
    ensures
        cycled(at, 1, count) == (if at + 1 < count {
            at + 1
        } else {
            0
        }),
        cycled(at, -1, count) == (if at > 0 {
            at - 1
        } else {
            count - 1
        }),
        cycled(at, 0, count) == at,
{
    if count >= 2 {
        if at + 1 < count {
            vstd::arithmetic::div_mod::lemma_small_mod((at + 1) as nat, count as nat);
        } else {
            vstd::arithmetic::div_mod::lemma_mod_self_0(count);
        }
        if at > 0 {
            vstd::arithmetic::div_mod::lemma_small_mod((at - 1) as nat, count as nat);
        } else {
            lemma_wrap(-1, count);
            vstd::arithmetic::div_mod::lemma_small_mod(1, count as nat);
        }
        vstd::arithmetic::div_mod::lemma_small_mod(at as nat, count as nat);
    }
}


/// Going some tabs along ends at a tab that many places away, whole rounds
/// apart.
pub proof fn law_cycling_goes_that_far(at: int, offset: int, count: int) -> (rounds: int)
    requires
        0 <= at < count,
        count >= 2,
    ensures
        0 <= cycled(at, offset, count) < count,
        at + offset == rounds * count + cycled(at, offset, count),
{
    vstd::arithmetic::div_mod::lemma_fundamental_div_mod(at + offset, count);
    vstd::arithmetic::div_mod::lemma_mod_bound(at + offset, count);
    let rounds = (at + offset) / count;
    assert(rounds * count == count * rounds) by (nonlinear_arith);
    rounds
}

} // verus!
