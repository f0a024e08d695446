//! The window's commands: their names, their keys, and the menus and lists that
//! show them.

use crate::entry::SortKey;
use crate::entry::Theme;
use crate::text;
use vstd::prelude::*;
use vstd::string::*;

verus! {

/// Everything that a menu item or a shortcut can ask of the window.
#[derive(Clone, Copy, Debug, PartialEq, Eq, Structural)]
pub enum Command {
    /// Goes back.
    GoBack,
    /// Goes forward.
    GoForward,
    /// Goes to the parent folder.
    GoUp,
    /// Goes to the home folder.
    GoHome,
    /// Loads the folder and the drives again.
    Reload,
    /// Shows the location as text.
    EditPath,
    /// Opens the search bar.
    FocusSearch,
    /// Selects everything that is shown.
    SelectAll,
    /// Selects nothing.
    SelectNone,
    /// Inverts the selection.
    InvertSelection,
    /// Opens the selection.
    Open,
    /// Opens the selection with a chosen application.
    OpenWith,
    /// Opens the selected folder in a new tab.
    OpenInNewTab,
    /// Creates a folder.
    NewFolder,
    /// Creates a file.
    NewFile,
    /// Renames the selection.
    Rename,
    /// Copies the selection.
    Copy,
    /// Cuts the selection.
    Cut,
    /// Pastes.
    Paste,
    /// Moves the selection to the trash.
    Trash,
    /// Deletes the selection for good.
    DeletePermanently,
    /// Shreds the selection.
    Shred,
    /// Shows the properties of the selection or of the folder.
    Properties,
    /// Copies the selected paths as text.
    CopyPath,
    /// Shows the context menu.
    ContextMenu,
    /// Opens a terminal in the folder.
    OpenTerminal,
    /// Adds a folder to the favourites, or removes it.
    AddFavourite,
    /// Extracts the selected archives into the folder.
    ExtractHere,
    /// Extracts them into a chosen folder.
    ExtractTo,
    /// Compresses the selection.
    Compress,
    /// Restores the selection from the trash.
    Restore,
    /// Empties the trash.
    EmptyTrash,
    /// Switches between grid and list.
    ToggleView,
    /// Makes the icons larger.
    ZoomIn,
    /// Makes the icons smaller.
    ZoomOut,
    /// Gives the icons their usual size.
    ZoomReset,
    /// Shows or hides the sidebar.
    ToggleSidebar,
    /// Shows or hides hidden files.
    ToggleHidden,
    /// Puts folders before files, or not.
    ToggleDirsFirst,
    /// Shows thumbnails, or not.
    ToggleThumbnails,
    /// Turns the order round.
    SortDescending,
    /// Sorts by the key that it is given.
    SortBy,
    /// Applies the theme that it is given.
    Theme,
    /// Says what the application is.
    About,
    /// Lists the shortcuts.
    Shortcuts,
    /// Shows the settings.
    Preferences,
    /// Opens another window.
    NewWindow,
    /// Closes the window.
    Close,
    /// Opens another tab.
    NewTab,
    /// Closes the tab in front.
    CloseTab,
    /// Goes to the next tab.
    NextTab,
    /// Goes to the previous tab.
    PreviousTab,
    /// Downloads a file.
    Download,
}

/// Every command. Each is installed as an action of the window.
pub const COMMANDS: [Command; 53] = [
    Command::GoBack,
    Command::GoForward,
    Command::GoUp,
    Command::GoHome,
    Command::Reload,
    Command::EditPath,
    Command::FocusSearch,
    Command::SelectAll,
    Command::SelectNone,
    Command::InvertSelection,
    Command::Open,
    Command::OpenWith,
    Command::OpenInNewTab,
    Command::NewFolder,
    Command::NewFile,
    Command::Rename,
    Command::Copy,
    Command::Cut,
    Command::Paste,
    Command::Trash,
    Command::DeletePermanently,
    Command::Shred,
    Command::Properties,
    Command::CopyPath,
    Command::ContextMenu,
    Command::OpenTerminal,
    Command::AddFavourite,
    Command::ExtractHere,
    Command::ExtractTo,
    Command::Compress,
    Command::Restore,
    Command::EmptyTrash,
    Command::ToggleView,
    Command::ZoomIn,
    Command::ZoomOut,
    Command::ZoomReset,
    Command::ToggleSidebar,
    Command::ToggleHidden,
    Command::ToggleDirsFirst,
    Command::ToggleThumbnails,
    Command::SortDescending,
    Command::SortBy,
    Command::Theme,
    Command::About,
    Command::Shortcuts,
    Command::Preferences,
    Command::NewWindow,
    Command::Close,
    Command::NewTab,
    Command::CloseTab,
    Command::NextTab,
    Command::PreviousTab,
    Command::Download,
];

/// The name of a command's action.
pub open spec fn action_name(command: Command) -> Seq<char> {
    match command {
        Command::GoBack => "win.go-back"@,
        Command::GoForward => "win.go-forward"@,
        Command::GoUp => "win.go-up"@,
        Command::GoHome => "win.go-home"@,
        Command::Reload => "win.reload"@,
        Command::EditPath => "win.edit-path"@,
        Command::FocusSearch => "win.focus-search"@,
        Command::SelectAll => "win.select-all"@,
        Command::SelectNone => "win.select-none"@,
        Command::InvertSelection => "win.invert-selection"@,
        Command::Open => "win.open"@,
        Command::OpenWith => "win.open-with"@,
        Command::OpenInNewTab => "win.open-in-new-tab"@,
        Command::NewFolder => "win.new-folder"@,
        Command::NewFile => "win.new-file"@,
        Command::Rename => "win.rename"@,
        Command::Copy => "win.copy"@,
        Command::Cut => "win.cut"@,
        Command::Paste => "win.paste"@,
        Command::Trash => "win.trash"@,
        Command::DeletePermanently => "win.delete-permanently"@,
        Command::Shred => "win.shred"@,
        Command::Properties => "win.properties"@,
        Command::CopyPath => "win.copy-path"@,
        Command::ContextMenu => "win.context-menu"@,
        Command::OpenTerminal => "win.open-terminal"@,
        Command::AddFavourite => "win.add-favourite"@,
        Command::ExtractHere => "win.extract-here"@,
        Command::ExtractTo => "win.extract-to"@,
        Command::Compress => "win.compress"@,
        Command::Restore => "win.restore"@,
        Command::EmptyTrash => "win.empty-trash"@,
        Command::ToggleView => "win.toggle-view"@,
        Command::ZoomIn => "win.zoom-in"@,
        Command::ZoomOut => "win.zoom-out"@,
        Command::ZoomReset => "win.zoom-reset"@,
        Command::ToggleSidebar => "win.toggle-sidebar"@,
        Command::ToggleHidden => "win.toggle-hidden"@,
        Command::ToggleDirsFirst => "win.toggle-dirs-first"@,
        Command::ToggleThumbnails => "win.toggle-thumbnails"@,
        Command::SortDescending => "win.sort-descending"@,
        Command::SortBy => "win.sort-by"@,
        Command::Theme => "win.theme"@,
        Command::About => "win.about"@,
        Command::Shortcuts => "win.shortcuts"@,
        Command::Preferences => "win.preferences"@,
        Command::NewWindow => "win.new-window"@,
        Command::Close => "win.close"@,
        Command::NewTab => "win.new-tab"@,
        Command::CloseTab => "win.close-tab"@,
        Command::NextTab => "win.next-tab"@,
        Command::PreviousTab => "win.previous-tab"@,
        Command::Download => "win.download"@,
    }
}

impl Command {
    /// The name of the command's action.
    pub fn action(&self) -> (r: &'static str)
        ensures
            r@ == action_name(*self),
    {
        match self {
            Command::GoBack => "win.go-back",
            Command::GoForward => "win.go-forward",
            Command::GoUp => "win.go-up",
            Command::GoHome => "win.go-home",
            Command::Reload => "win.reload",
            Command::EditPath => "win.edit-path",
            Command::FocusSearch => "win.focus-search",
            Command::SelectAll => "win.select-all",
            Command::SelectNone => "win.select-none",
            Command::InvertSelection => "win.invert-selection",
            Command::Open => "win.open",
            Command::OpenWith => "win.open-with",
            Command::OpenInNewTab => "win.open-in-new-tab",
            Command::NewFolder => "win.new-folder",
            Command::NewFile => "win.new-file",
            Command::Rename => "win.rename",
            Command::Copy => "win.copy",
            Command::Cut => "win.cut",
            Command::Paste => "win.paste",
            Command::Trash => "win.trash",
            Command::DeletePermanently => "win.delete-permanently",
            Command::Shred => "win.shred",
            Command::Properties => "win.properties",
            Command::CopyPath => "win.copy-path",
            Command::ContextMenu => "win.context-menu",
            Command::OpenTerminal => "win.open-terminal",
            Command::AddFavourite => "win.add-favourite",
            Command::ExtractHere => "win.extract-here",
            Command::ExtractTo => "win.extract-to",
            Command::Compress => "win.compress",
            Command::Restore => "win.restore",
            Command::EmptyTrash => "win.empty-trash",
            Command::ToggleView => "win.toggle-view",
            Command::ZoomIn => "win.zoom-in",
            Command::ZoomOut => "win.zoom-out",
            Command::ZoomReset => "win.zoom-reset",
            Command::ToggleSidebar => "win.toggle-sidebar",
            Command::ToggleHidden => "win.toggle-hidden",
            Command::ToggleDirsFirst => "win.toggle-dirs-first",
            Command::ToggleThumbnails => "win.toggle-thumbnails",
            Command::SortDescending => "win.sort-descending",
            Command::SortBy => "win.sort-by",
            Command::Theme => "win.theme",
            Command::About => "win.about",
            Command::Shortcuts => "win.shortcuts",
            Command::Preferences => "win.preferences",
            Command::NewWindow => "win.new-window",
            Command::Close => "win.close",
            Command::NewTab => "win.new-tab",
            Command::CloseTab => "win.close-tab",
            Command::NextTab => "win.next-tab",
            Command::PreviousTab => "win.previous-tab",
            Command::Download => "win.download",
        }
    }
}

/// Every command is in the list, so that none is left without an action.
pub proof fn law_every_command_is_installed(command: Command) -> (i: int)
    ensures
        0 <= i < COMMANDS@.len(),
        COMMANDS@[i] == command,
{
    match command {
        Command::GoBack => 0,
        Command::GoForward => 1,
        Command::GoUp => 2,
        Command::GoHome => 3,
        Command::Reload => 4,
        Command::EditPath => 5,
        Command::FocusSearch => 6,
        Command::SelectAll => 7,
        Command::SelectNone => 8,
        Command::InvertSelection => 9,
        Command::Open => 10,
        Command::OpenWith => 11,
        Command::OpenInNewTab => 12,
        Command::NewFolder => 13,
        Command::NewFile => 14,
        Command::Rename => 15,
        Command::Copy => 16,
        Command::Cut => 17,
        Command::Paste => 18,
        Command::Trash => 19,
        Command::DeletePermanently => 20,
        Command::Shred => 21,
        Command::Properties => 22,
        Command::CopyPath => 23,
        Command::ContextMenu => 24,
        Command::OpenTerminal => 25,
        Command::AddFavourite => 26,
        Command::ExtractHere => 27,
        Command::ExtractTo => 28,
        Command::Compress => 29,
        Command::Restore => 30,
        Command::EmptyTrash => 31,
        Command::ToggleView => 32,
        Command::ZoomIn => 33,
        Command::ZoomOut => 34,
        Command::ZoomReset => 35,
        Command::ToggleSidebar => 36,
        Command::ToggleHidden => 37,
        Command::ToggleDirsFirst => 38,
        Command::ToggleThumbnails => 39,
        Command::SortDescending => 40,
        Command::SortBy => 41,
        Command::Theme => 42,
        Command::About => 43,
        Command::Shortcuts => 44,
        Command::Preferences => 45,
        Command::NewWindow => 46,
        Command::Close => 47,
        Command::NewTab => 48,
        Command::CloseTab => 49,
        Command::NextTab => 50,
        Command::PreviousTab => 51,
        Command::Download => 52,
    }
}

// ── keys ───────────────────────────────────────────────────────────────────

/// The keys of each command, and whether they count only while the file list has
/// the focus, so that text boxes keep theirs.
pub const ACCELERATORS: [(Command, &'static str, bool); 49] = [
    (Command::GoBack, "<Alt>Left", false),
    (Command::GoBack, "<Alt>bracketleft", false),
    (Command::GoForward, "<Alt>Right", false),
    (Command::GoForward, "<Alt>bracketright", false),
    (Command::GoUp, "<Alt>Up", false),
    (Command::GoHome, "<Alt>Home", false),
    (Command::Reload, "F5", false),
    (Command::Reload, "<Ctrl>r", false),
    (Command::EditPath, "<Ctrl>l", false),
    (Command::FocusSearch, "<Ctrl>f", false),
    (Command::SelectAll, "<Ctrl>a", false),
    (Command::SelectNone, "<Ctrl><Shift>a", false),
    (Command::InvertSelection, "<Ctrl>i", false),
    (Command::Open, "Return", false),
    (Command::Open, "<Ctrl>o", false),
    (Command::NewFolder, "<Ctrl><Shift>n", false),
    (Command::NewFile, "<Ctrl><Shift>t", false),
    (Command::Rename, "F2", true),
    (Command::Copy, "<Ctrl>c", false),
    (Command::Cut, "<Ctrl>x", false),
    (Command::Paste, "<Ctrl>v", false),
    (Command::Trash, "Delete", true),
    (Command::Trash, "BackSpace", true),
    (Command::DeletePermanently, "<Shift>Delete", true),
    (Command::Shred, "<Ctrl><Shift>Delete", true),
    (Command::Properties, "<Alt>Return", false),
    (Command::CopyPath, "<Ctrl><Shift>c", false),
    (Command::OpenTerminal, "<Ctrl><Alt>t", false),
    (Command::AddFavourite, "<Ctrl>d", false),
    (Command::ExtractHere, "<Ctrl>e", false),
    (Command::Compress, "<Ctrl><Shift>e", false),
    (Command::ToggleView, "<Ctrl><Shift>v", false),
    (Command::ToggleHidden, "<Ctrl>h", false),
    (Command::ToggleSidebar, "F9", false),
    (Command::ZoomIn, "<Ctrl>plus", false),
    (Command::ZoomIn, "<Ctrl>equal", false),
    (Command::ZoomIn, "<Ctrl>KP_Add", false),
    (Command::ZoomOut, "<Ctrl>minus", false),
    (Command::ZoomOut, "<Ctrl>KP_Subtract", false),
    (Command::ZoomReset, "<Ctrl>0", false),
    (Command::NewWindow, "<Ctrl>n", false),
    (Command::NewTab, "<Ctrl>t", false),
    (Command::CloseTab, "<Ctrl>w", false),
    (Command::NextTab, "<Ctrl>Tab", false),
    (Command::PreviousTab, "<Ctrl><Shift>Tab", false),
    (Command::Download, "<Ctrl><Shift>d", false),
    (Command::Shortcuts, "<Ctrl>question", false),
    (Command::ContextMenu, "Menu", false),
    (Command::ContextMenu, "<Shift>F10", false),
];

/// The keys of a command among the first `n` rows of the table.
pub open spec fn keys_among(command: Command, n: nat) -> Seq<Seq<char>>
    decreases n,
{
    if n == 0 {
        Seq::empty()
    } else if ACCELERATORS@[n - 1].0 == command {
        keys_among(command, (n - 1) as nat).push(ACCELERATORS@[n - 1].1@)
    } else {
        keys_among(command, (n - 1) as nat)
    }
}

/// The texts of some literals.
pub open spec fn literals(texts: Seq<&'static str>) -> Seq<Seq<char>> {
    texts.map_values(|t: &'static str| t@)
}

/// The keys of a command, in the order of the table.
pub fn keys_of(command: Command) -> (r: Vec<&'static str>)
    ensures
        literals(r@) == keys_among(command, ACCELERATORS@.len()),
{
    let table = ACCELERATORS;
    let mut out: Vec<&'static str> = Vec::new();
    let mut n: usize = 0;
    assert(literals(out@) =~= keys_among(command, 0));
    while n < table.len()
        invariant
            n <= table@.len(),
            table == ACCELERATORS,
            literals(out@) == keys_among(command, n as nat),
        decreases table@.len() - n,
    {
        let ghost was = literals(out@);
        if table[n].0 == command {
            out.push(table[n].1);
            assert(literals(out@) =~= was.push(table@[n as int].1@));
        }
        n = n + 1;
    }
    out
}

/// Whether a command's keys are left to text boxes that have the focus.
pub open spec fn needs_file_list(command: Command) -> bool {
    match command {
        Command::Rename => true,
        Command::Trash => true,
        Command::DeletePermanently => true,
        Command::Shred => true,
        _ => false,
    }
}

/// Renaming and the ways of deleting are reached from the file list only: while
/// a text box has the focus, it keeps its keys.
pub proof fn law_text_boxes_keep_their_keys(i: int)
    requires
        0 <= i < ACCELERATORS@.len(),
    ensures
        ACCELERATORS@[i].2 == needs_file_list(ACCELERATORS@[i].0),
{
}

/// The row of a key in the table, told by its length and its end.
spec fn row_of(key: Seq<char>) -> int {
    let n = key.len();
    let end = key.last();
    if n == 2 {
        if end == '5' {
            6
        } else if end == '2' {
            17
        } else {
            33
        }
    } else if n == 4 {
        47
    } else if n == 6 {
        if end == 'n' {
            13
        } else {
            21
        }
    } else if n == 7 {
        if end == 'p' {
            4
        } else if end == 'r' {
            7
        } else if end == 'l' {
            8
        } else if end == 'f' {
            9
        } else if end == 'a' {
            10
        } else if end == 'i' {
            12
        } else if end == 'o' {
            14
        } else if end == 'c' {
            18
        } else if end == 'x' {
            19
        } else if end == 'v' {
            20
        } else if end == 'd' {
            28
        } else if end == 'e' {
            29
        } else if end == 'h' {
            32
        } else if end == '0' {
            39
        } else if end == 'n' {
            40
        } else if end == 't' {
            41
        } else {
            42
        }
    } else if n == 9 {
        if end == 't' {
            0
        } else if end == 'e' && key[n - 2] == 'm' {
            5
        } else if end == 'e' && key[n - 2] == 'c' {
            22
        } else {
            43
        }
    } else if n == 10 {
        if end == 't' {
            2
        } else if end == 's' {
            34
        } else {
            48
        }
    } else if n == 11 {
        if end == 'n' {
            25
        } else if end == 'l' {
            35
        } else {
            37
        }
    } else if n == 12 {
        if end == 't' {
            27
        } else {
            36
        }
    } else if n == 13 {
        23
    } else if n == 14 {
        if end == 'a' {
            11
        } else if end == 'n' && key[n - 2] == '>' {
            15
        } else if end == 't' {
            16
        } else if end == 'c' {
            26
        } else if end == 'e' {
            30
        } else if end == 'v' {
            31
        } else if end == 'd' {
            45
        } else {
            46
        }
    } else if n == 16 {
        if end == 't' {
            1
        } else {
            44
        }
    } else if n == 17 {
        if end == 't' && key[n - 2] == 'h' {
            3
        } else {
            38
        }
    } else if n == 19 {
        24
    } else {
        -1
    }
}

/// Every key of the table tells its row.
proof fn lemma_keys_tell_their_rows(i: int)
    requires
        0 <= i < ACCELERATORS@.len(),
    ensures
        row_of(ACCELERATORS@[i].1@) == i,
{
    if i == 0 {
        reveal_strlit("<Alt>Left");
    } else if i == 1 {
        reveal_strlit("<Alt>bracketleft");
    } else if i == 2 {
        reveal_strlit("<Alt>Right");
    } else if i == 3 {
        reveal_strlit("<Alt>bracketright");
    } else if i == 4 {
        reveal_strlit("<Alt>Up");
    } else if i == 5 {
        reveal_strlit("<Alt>Home");
    } else if i == 6 {
        reveal_strlit("F5");
    } else if i == 7 {
        reveal_strlit("<Ctrl>r");
    } else if i == 8 {
        reveal_strlit("<Ctrl>l");
    } else if i == 9 {
        reveal_strlit("<Ctrl>f");
    } else if i == 10 {
        reveal_strlit("<Ctrl>a");
    } else if i == 11 {
        reveal_strlit("<Ctrl><Shift>a");
    } else if i == 12 {
        reveal_strlit("<Ctrl>i");
    } else if i == 13 {
        reveal_strlit("Return");
    } else if i == 14 {
        reveal_strlit("<Ctrl>o");
    } else if i == 15 {
        reveal_strlit("<Ctrl><Shift>n");
    } else if i == 16 {
        reveal_strlit("<Ctrl><Shift>t");
    } else if i == 17 {
        reveal_strlit("F2");
    } else if i == 18 {
        reveal_strlit("<Ctrl>c");
    } else if i == 19 {
        reveal_strlit("<Ctrl>x");
    } else if i == 20 {
        reveal_strlit("<Ctrl>v");
    } else if i == 21 {
        reveal_strlit("Delete");
    } else if i == 22 {
        reveal_strlit("BackSpace");
    } else if i == 23 {
        reveal_strlit("<Shift>Delete");
    } else if i == 24 {
        reveal_strlit("<Ctrl><Shift>Delete");
    } else if i == 25 {
        reveal_strlit("<Alt>Return");
    } else if i == 26 {
        reveal_strlit("<Ctrl><Shift>c");
    } else if i == 27 {
        reveal_strlit("<Ctrl><Alt>t");
    } else if i == 28 {
        reveal_strlit("<Ctrl>d");
    } else if i == 29 {
        reveal_strlit("<Ctrl>e");
    } else if i == 30 {
        reveal_strlit("<Ctrl><Shift>e");
    } else if i == 31 {
        reveal_strlit("<Ctrl><Shift>v");
    } else if i == 32 {
        reveal_strlit("<Ctrl>h");
    } else if i == 33 {
        reveal_strlit("F9");
    } else if i == 34 {
        reveal_strlit("<Ctrl>plus");
    } else if i == 35 {
        reveal_strlit("<Ctrl>equal");
    } else if i == 36 {
        reveal_strlit("<Ctrl>KP_Add");
    } else if i == 37 {
        reveal_strlit("<Ctrl>minus");
    } else if i == 38 {
        reveal_strlit("<Ctrl>KP_Subtract");
    } else if i == 39 {
        reveal_strlit("<Ctrl>0");
    } else if i == 40 {
        reveal_strlit("<Ctrl>n");
    } else if i == 41 {
        reveal_strlit("<Ctrl>t");
    } else if i == 42 {
        reveal_strlit("<Ctrl>w");
    } else if i == 43 {
        reveal_strlit("<Ctrl>Tab");
    } else if i == 44 {
        reveal_strlit("<Ctrl><Shift>Tab");
    } else if i == 45 {
        reveal_strlit("<Ctrl><Shift>d");
    } else if i == 46 {
        reveal_strlit("<Ctrl>question");
    } else if i == 47 {
        reveal_strlit("Menu");
    } else if i == 48 {
        reveal_strlit("<Shift>F10");
    }
}

/// No key stands for two commands, nor twice for the same one: each stands in
/// one row of the table.
pub proof fn law_no_key_stands_for_two_commands(i: int, j: int)
    requires
        0 <= i < ACCELERATORS@.len(),
        0 <= j < ACCELERATORS@.len(),
        ACCELERATORS@[i].1@ == ACCELERATORS@[j].1@,
    ensures
        i == j,
        ACCELERATORS@[i].0 == ACCELERATORS@[j].0,
{
    lemma_keys_tell_their_rows(i);
    lemma_keys_tell_their_rows(j);
}

/// The list of shortcuts: the group, the keys and what they do.
pub const SHORTCUTS: [(&'static str, &'static str, &'static str); 32] = [
    ("Navigation", "Alt+←", "Back"),
    ("Navigation", "Alt+→", "Forward"),
    ("Navigation", "Alt+↑", "Open parent folder"),
    ("Navigation", "Alt+Home", "Home folder"),
    ("Navigation", "Ctrl+L", "Edit the location as text"),
    ("Navigation", "F5", "Reload"),
    ("Files", "Return", "Open"),
    ("Files", "F2", "Rename"),
    ("Files", "Ctrl+C / Ctrl+X / Ctrl+V", "Copy, cut, paste"),
    ("Files", "Ctrl+Shift+C", "Copy the full path"),
    ("Files", "Delete", "Move to Trash"),
    ("Files", "Shift+Delete", "Delete permanently"),
    ("Files", "Ctrl+Shift+Delete", "Shred"),
    ("Files", "Ctrl+Shift+N", "New folder"),
    ("Files", "Ctrl+Shift+D", "Download from a URL"),
    ("Files", "Ctrl+D", "Add to Favourites"),
    ("Files", "Alt+Return", "Properties"),
    ("Archives", "Ctrl+E", "Extract here"),
    ("Archives", "Ctrl+Shift+E", "Compress selection"),
    ("View", "Ctrl+F", "Filter by name"),
    ("View", "Ctrl+H", "Show hidden files"),
    ("View", "Ctrl+Shift+V", "Switch grid and list"),
    ("View", "Ctrl++ / Ctrl+−", "Icon size"),
    ("View", "Ctrl+0", "Reset icon size"),
    ("View", "F9", "Toggle the sidebar"),
    ("Selection", "Ctrl+A", "Select all"),
    ("Selection", "Ctrl+Shift+A", "Select none"),
    ("Selection", "Ctrl+I", "Invert selection"),
    ("Window", "Ctrl+T / Ctrl+W", "New tab, close tab"),
    ("Window", "Ctrl+Tab / Ctrl+Shift+Tab", "Next and previous tab"),
    ("Window", "Ctrl+N", "New window"),
    ("Window", "Ctrl+?", "This list"),
];

// ── the main menu ──────────────────────────────────────────────────────────

/// The main menu: the section or submenu, the text, the command and what the
/// command is given. The first section and the last have no heading.
pub const MAIN_MENU: [(&'static str, &'static str, Command, &'static str); 19] = [
    ("", "New Tab", Command::NewTab, ""),
    ("", "Download from URL…", Command::Download, ""),
    ("", "New Folder", Command::NewFolder, ""),
    ("", "New File", Command::NewFile, ""),
    ("", "Open Terminal Here", Command::OpenTerminal, ""),
    ("View", "Show Hidden Files", Command::ToggleHidden, ""),
    ("View", "Folders Before Files", Command::ToggleDirsFirst, ""),
    ("View", "Show Thumbnails", Command::ToggleThumbnails, ""),
    ("Sort By", "Name", Command::SortBy, "name"),
    ("Sort By", "Size", Command::SortBy, "size"),
    ("Sort By", "Modified", Command::SortBy, "modified"),
    ("Sort By", "Type", Command::SortBy, "kind"),
    ("Sort By", "Descending", Command::SortDescending, ""),
    ("Appearance", "Follow System", Command::Theme, "system"),
    ("Appearance", "Light", Command::Theme, "light"),
    ("Appearance", "Dark", Command::Theme, "dark"),
    ("", "Preferences", Command::Preferences, ""),
    ("", "Keyboard Shortcuts", Command::Shortcuts, ""),
    ("", "About Fileman", Command::About, ""),
];

// ── settings as action states ──────────────────────────────────────────────

/// The state of the sort action.
pub open spec fn sort_name(key: SortKey) -> Seq<char> {
    match key {
        SortKey::Name => "name"@,
        SortKey::Size => "size"@,
        SortKey::Modified => "modified"@,
        SortKey::Kind => "kind"@,
    }
}

/// The sort key of a state; any that is not known is the name.
pub open spec fn sort_of(value: Seq<char>) -> SortKey {
    if value == "size"@ {
        SortKey::Size
    } else if value == "modified"@ {
        SortKey::Modified
    } else if value == "kind"@ {
        SortKey::Kind
    } else {
        SortKey::Name
    }
}

/// The state of the sort action.
pub fn sort_state(key: SortKey) -> (r: &'static str)
    ensures
        r@ == sort_name(key),
{
    match key {
        SortKey::Name => "name",
        SortKey::Size => "size",
        SortKey::Modified => "modified",
        SortKey::Kind => "kind",
    }
}

/// The sort key of a state.
pub fn sort_key(value: &str) -> (r: SortKey)
    ensures
        r == sort_of(value@),
{
    if text::same(value, "size") {
        SortKey::Size
    } else if text::same(value, "modified") {
        SortKey::Modified
    } else if text::same(value, "kind") {
        SortKey::Kind
    } else {
        SortKey::Name
    }
}

/// The state of the theme action.
pub open spec fn theme_name(theme: Theme) -> Seq<char> {
    match theme {
        Theme::System => "system"@,
        Theme::Light => "light"@,
        Theme::Dark => "dark"@,
    }
}

/// The theme of a state; any that is not known is the desktop's.
pub open spec fn theme_of(value: Seq<char>) -> Theme {
    if value == "light"@ {
        Theme::Light
    } else if value == "dark"@ {
        Theme::Dark
    } else {
        Theme::System
    }
}

/// The state of the theme action.
pub fn theme_state(theme: Theme) -> (r: &'static str)
    ensures
        r@ == theme_name(theme),
{
    match theme {
        Theme::System => "system",
        Theme::Light => "light",
        Theme::Dark => "dark",
    }
}

/// The theme of a state.
pub fn theme(value: &str) -> (r: Theme)
    ensures
        r == theme_of(value@),
{
    if text::same(value, "light") {
        Theme::Light
    } else if text::same(value, "dark") {
        Theme::Dark
    } else {
        Theme::System
    }
}

/// A setting is the one that its state stands for.
pub proof fn law_states_stand_for_settings(key: SortKey, theme: Theme)
    ensures
        sort_of(sort_name(key)) == key,
        theme_of(theme_name(theme)) == theme,
{
    reveal_strlit("name");
    reveal_strlit("size");
    reveal_strlit("modified");
    reveal_strlit("kind");
    reveal_strlit("system");
    reveal_strlit("light");
    reveal_strlit("dark");
    assert("name"@[0] == 'n' && "size"@[0] == 's' && "modified"@[0] == 'm' && "kind"@[0] == 'k');
    assert("system"@[0] == 's' && "light"@[0] == 'l' && "dark"@[0] == 'd');
}

/// A command has every key that the table gives it, in the order of the table,
/// and no other: the result gives the row of each.
pub proof fn law_commands_have_their_keys(command: Command, n: nat) -> (at: Seq<int>)
    requires
        n <= ACCELERATORS@.len(),
    ensures
        at.len() == keys_among(command, n).len(),
        forall|k: int|
            0 <= k < at.len() ==> 0 <= #[trigger] at[k] < n && ACCELERATORS@[at[k]].0 == command
                && keys_among(command, n)[k] == ACCELERATORS@[at[k]].1@,
        forall|j: int, k: int| 0 <= j < k < at.len() ==> #[trigger] at[j] < #[trigger] at[k],
        forall|i: int|
            0 <= i < n && (#[trigger] ACCELERATORS@[i]).0 == command ==> at.contains(i),
    decreases n,
{
    if n == 0 {
        Seq::empty()
    } else {
        let m = (n - 1) as nat;
        let front = law_commands_have_their_keys(command, m);
        if ACCELERATORS@[n - 1].0 == command {
            let at = front.push(n - 1);
            assert(keys_among(command, n) == keys_among(command, m).push(
                ACCELERATORS@[n - 1].1@,
            ));
            assert forall|i: int|
                0 <= i < n && (#[trigger] ACCELERATORS@[i]).0 == command implies at.contains(
                i,
            ) by {
                if i < m {
                    assert(front.contains(i));
                    let k = choose|k: int| 0 <= k < front.len() && front[k] == i;
                    assert(at[k] == i);
                } else {
                    assert(at[front.len() as int] == i);
                }
            }
            at
        } else {
            front
        }
    }
}

/// The command of an action, told by the length of its name and a character or
/// two of it.
spec fn command_of(action: Seq<char>) -> Option<Command> {
    let n = action.len();
    if n == 7 {
        Some(Command::Cut)
    } else if n == 8 {
        if action[4] == 'o' {
            Some(Command::Open)
        } else {
            Some(Command::Copy)
        }
    } else if n == 9 {
        if action[4] == 'g' && action[5] == 'o' {
            Some(Command::GoUp)
        } else if action[4] == 'p' && action[5] == 'a' {
            Some(Command::Paste)
        } else if action[4] == 't' && action[5] == 'r' {
            Some(Command::Trash)
        } else if action[4] == 's' && action[5] == 'h' {
            Some(Command::Shred)
        } else if action[4] == 't' && action[5] == 'h' {
            Some(Command::Theme)
        } else if action[4] == 'a' && action[5] == 'b' {
            Some(Command::About)
        } else {
            Some(Command::Close)
        }
    } else if n == 10 {
        if action[6] == 'l' {
            Some(Command::Reload)
        } else {
            Some(Command::Rename)
        }
    } else if n == 11 {
        if action[9] == 'c' {
            Some(Command::GoBack)
        } else if action[9] == 'm' {
            Some(Command::GoHome)
        } else if action[9] == 'r' {
            Some(Command::Restore)
        } else if action[9] == 'i' {
            Some(Command::ZoomIn)
        } else if action[9] == 'b' {
            Some(Command::SortBy)
        } else {
            Some(Command::NewTab)
        }
    } else if n == 12 {
        if action[7] == '-' {
            Some(Command::NewFile)
        } else if action[7] == 'p' {
            Some(Command::Compress)
        } else if action[7] == 'm' {
            Some(Command::ZoomOut)
        } else if action[7] == 't' {
            Some(Command::NextTab)
        } else {
            Some(Command::Download)
        }
    } else if n == 13 {
        if action[5] == 'd' {
            Some(Command::EditPath)
        } else if action[5] == 'p' {
            Some(Command::OpenWith)
        } else if action[5] == 'o' {
            Some(Command::CopyPath)
        } else if action[5] == 'h' {
            Some(Command::Shortcuts)
        } else {
            Some(Command::CloseTab)
        }
    } else if n == 14 {
        if action[8] == 'o' {
            Some(Command::GoForward)
        } else if action[8] == 'c' {
            Some(Command::SelectAll)
        } else if action[8] == 'f' {
            Some(Command::NewFolder)
        } else if action[8] == 'e' {
            Some(Command::Properties)
        } else if action[8] == 'a' {
            Some(Command::ExtractTo)
        } else if action[8] == '-' {
            Some(Command::ZoomReset)
        } else {
            Some(Command::NewWindow)
        }
    } else if n == 15 {
        if action[4] == 's' {
            Some(Command::SelectNone)
        } else if action[4] == 'e' {
            Some(Command::EmptyTrash)
        } else if action[4] == 't' {
            Some(Command::ToggleView)
        } else {
            Some(Command::Preferences)
        }
    } else if n == 16 {
        if action[4] == 'f' {
            Some(Command::FocusSearch)
        } else if action[4] == 'c' {
            Some(Command::ContextMenu)
        } else if action[4] == 'e' {
            Some(Command::ExtractHere)
        } else {
            Some(Command::PreviousTab)
        }
    } else if n == 17 {
        if action[4] == 'o' {
            Some(Command::OpenTerminal)
        } else if action[4] == 'a' {
            Some(Command::AddFavourite)
        } else {
            Some(Command::ToggleHidden)
        }
    } else if n == 18 {
        Some(Command::ToggleSidebar)
    } else if n == 19 {
        if action[4] == 'o' {
            Some(Command::OpenInNewTab)
        } else {
            Some(Command::SortDescending)
        }
    } else if n == 20 {
        Some(Command::InvertSelection)
    } else if n == 21 {
        if action[11] == 'd' {
            Some(Command::ToggleDirsFirst)
        } else {
            Some(Command::ToggleThumbnails)
        }
    } else if n == 22 {
        Some(Command::DeletePermanently)
    } else {
        None
    }
}

/// Every action tells its command.
proof fn lemma_actions_tell_their_commands(command: Command)
    ensures
        command_of(action_name(command)) == Some(command),
{
    match command {
        Command::GoBack => {
            reveal_strlit("win.go-back");
        },
        Command::GoForward => {
            reveal_strlit("win.go-forward");
        },
        Command::GoUp => {
            reveal_strlit("win.go-up");
        },
        Command::GoHome => {
            reveal_strlit("win.go-home");
        },
        Command::Reload => {
            reveal_strlit("win.reload");
        },
        Command::EditPath => {
            reveal_strlit("win.edit-path");
        },
        Command::FocusSearch => {
            reveal_strlit("win.focus-search");
        },
        Command::SelectAll => {
            reveal_strlit("win.select-all");
        },
        Command::SelectNone => {
            reveal_strlit("win.select-none");
        },
        Command::InvertSelection => {
            reveal_strlit("win.invert-selection");
        },
        Command::Open => {
            reveal_strlit("win.open");
        },
        Command::OpenWith => {
            reveal_strlit("win.open-with");
        },
        Command::OpenInNewTab => {
            reveal_strlit("win.open-in-new-tab");
        },
        Command::NewFolder => {
            reveal_strlit("win.new-folder");
        },
        Command::NewFile => {
            reveal_strlit("win.new-file");
        },
        Command::Rename => {
            reveal_strlit("win.rename");
        },
        Command::Copy => {
            reveal_strlit("win.copy");
        },
        Command::Cut => {
            reveal_strlit("win.cut");
        },
        Command::Paste => {
            reveal_strlit("win.paste");
        },
        Command::Trash => {
            reveal_strlit("win.trash");
        },
        Command::DeletePermanently => {
            reveal_strlit("win.delete-permanently");
        },
        Command::Shred => {
            reveal_strlit("win.shred");
        },
        Command::Properties => {
            reveal_strlit("win.properties");
        },
        Command::CopyPath => {
            reveal_strlit("win.copy-path");
        },
        Command::ContextMenu => {
            reveal_strlit("win.context-menu");
        },
        Command::OpenTerminal => {
            reveal_strlit("win.open-terminal");
        },
        Command::AddFavourite => {
            reveal_strlit("win.add-favourite");
        },
        Command::ExtractHere => {
            reveal_strlit("win.extract-here");
        },
        Command::ExtractTo => {
            reveal_strlit("win.extract-to");
        },
        Command::Compress => {
            reveal_strlit("win.compress");
        },
        Command::Restore => {
            reveal_strlit("win.restore");
        },
        Command::EmptyTrash => {
            reveal_strlit("win.empty-trash");
        },
        Command::ToggleView => {
            reveal_strlit("win.toggle-view");
        },
        Command::ZoomIn => {
            reveal_strlit("win.zoom-in");
        },
        Command::ZoomOut => {
            reveal_strlit("win.zoom-out");
        },
        Command::ZoomReset => {
            reveal_strlit("win.zoom-reset");
        },
        Command::ToggleSidebar => {
            reveal_strlit("win.toggle-sidebar");
        },
        Command::ToggleHidden => {
            reveal_strlit("win.toggle-hidden");
        },
        Command::ToggleDirsFirst => {
            reveal_strlit("win.toggle-dirs-first");
        },
        Command::ToggleThumbnails => {
            reveal_strlit("win.toggle-thumbnails");
        },
        Command::SortDescending => {
            reveal_strlit("win.sort-descending");
        },
        Command::SortBy => {
            reveal_strlit("win.sort-by");
        },
        Command::Theme => {
            reveal_strlit("win.theme");
        },
        Command::About => {
            reveal_strlit("win.about");
        },
        Command::Shortcuts => {
            reveal_strlit("win.shortcuts");
        },
        Command::Preferences => {
            reveal_strlit("win.preferences");
        },
        Command::NewWindow => {
            reveal_strlit("win.new-window");
        },
        Command::Close => {
            reveal_strlit("win.close");
        },
        Command::NewTab => {
            reveal_strlit("win.new-tab");
        },
        Command::CloseTab => {
            reveal_strlit("win.close-tab");
        },
        Command::NextTab => {
            reveal_strlit("win.next-tab");
        },
        Command::PreviousTab => {
            reveal_strlit("win.previous-tab");
        },
        Command::Download => {
            reveal_strlit("win.download");
        },
    }
}

/// No two commands share an action: what a menu item or a key asks for is one
/// command.
pub proof fn law_no_action_stands_for_two_commands(a: Command, b: Command)
    requires
        action_name(a) == action_name(b),
    ensures
        a == b,
{
    lemma_actions_tell_their_commands(a);
    lemma_actions_tell_their_commands(b);
}

} // verus!
