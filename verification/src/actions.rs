//! Window actions: everything reachable from a menu, a shortcut, or the
//! context menu, and what the operations behind them decide.

use crate::chrome;
use crate::chrome::TrashItem;
use crate::commands;
use crate::commands::Command;
use crate::dialogs;
use crate::dialogs::Alert;
use crate::dialogs::NtfsChoice;
use crate::dialogs::TextPrompt;
use crate::entry::FileEntry;
use crate::entry::ViewMode;
use crate::file_view;
use crate::menu;
use crate::menu::ContextMenu;
use crate::menu::MenuItem;
use crate::outside;
use crate::path;
use crate::path::FilePath;
use crate::pathbar;
use crate::sidebar;
use crate::text;
use crate::window;
use crate::window::Clip;
use crate::window::Window;
use vstd::prelude::*;
use vstd::string::*;
use vstd::utf8::*;

verus! {

// ── settings ───────────────────────────────────────────────────────────────

/// The other presentation.
pub fn other_view(mode: ViewMode) -> (r: ViewMode)
    ensures
        r == (match mode {
            ViewMode::Grid => ViewMode::List,
            ViewMode::List => ViewMode::Grid,
        }),
{
    match mode {
        ViewMode::Grid => ViewMode::List,
        ViewMode::List => ViewMode::Grid,
    }
}

/// Bytes in a megabyte.
pub const MEGABYTE: u64 = 1024 * 1024;

/// The fewest and the most overwrite passes that can be set.
pub const SHRED_PASSES: (u32, u32) = (1, 35);

/// The fewest and the most worker threads that can be set; none is automatic.
pub const WORKER_THREADS: (u32, u32) = (0, 64);

/// The smallest and the largest limit for thumbnails that can be set, in
/// megabytes.
pub const THUMBNAIL_MEGABYTES: (u64, u64) = (1, 512);

/// The limit for thumbnails in megabytes, as it is shown.
pub fn thumbnail_megabytes(bytes: u64) -> (r: u64)
    ensures
        r == bytes / MEGABYTE,
{
    bytes / MEGABYTE
}

/// The limit for thumbnails in bytes, as it is kept.
pub fn thumbnail_bytes(megabytes: u64) -> (r: u64)
    requires
        megabytes <= THUMBNAIL_MEGABYTES.1,
    ensures
        r == megabytes * MEGABYTE,
        r / MEGABYTE == megabytes,
{
    megabytes * MEGABYTE
}

// ── selections ─────────────────────────────────────────────────────────────

/// What is said when something is to be done with nothing selected.
pub open spec fn nothing_selected_text(what: Seq<char>) -> Seq<char> {
    "Select something to "@ + what
}

/// What is said when something is to be done with nothing selected.
pub fn selected_or_toast(what: &str, selected: usize) -> (r: Option<String>)
    ensures
        r is Some <==> selected == 0,
        r matches Some(t) ==> t@ == nothing_selected_text(what@),
{
    if selected > 0 {
        return None;
    }
    let mut out = text::copied("Select something to ");
    out.append(what);
    Some(out)
}

/// What properties are shown of: the selection, or the folder itself where
/// nothing is selected.
#[derive(Clone, Copy, Debug, PartialEq, Eq, Structural)]
pub enum PropertiesOf {
    /// The selected items.
    Selection,
    /// The folder that is shown.
    Folder,
    /// Nothing.
    Nothing,
}

/// What properties are shown of.
pub fn properties_of(selected: usize, has_folder: bool) -> (r: PropertiesOf)
    ensures
        r == (if selected > 0 {
            PropertiesOf::Selection
        } else if has_folder {
            PropertiesOf::Folder
        } else {
            PropertiesOf::Nothing
        }),
{
    if selected > 0 {
        PropertiesOf::Selection
    } else if has_folder {
        PropertiesOf::Folder
    } else {
        PropertiesOf::Nothing
    }
}

/// Where another window starts: in the folder that is shown, or at the root
/// where none is.
pub fn new_window_start(dir: Option<FilePath>) -> (r: FilePath)
    ensures
        r@ == (match dir {
            Some(d) => d@,
            None => path::root(),
        }),
{
    match dir {
        Some(d) => d,
        None => FilePath::root(),
    }
}

// ── creating and renaming ──────────────────────────────────────────────────

/// Whether a prompt asks for a name. `stem` is whether the part before the
/// extension is selected.
pub open spec fn asks_name(
    prompt: TextPrompt,
    heading: Seq<char>,
    initial: Seq<char>,
    label: Seq<char>,
    stem: bool,
) -> bool {
    &&& prompt.alert@ == dialogs::two_way(
        heading,
        None,
        "accept"@,
        label,
        dialogs::Appearance::Suggested,
        "accept"@,
    )
    &&& prompt.initial@ == initial
    &&& match (prompt.selected, dialogs::stem_chars(initial)) {
        (Some(n), Some(m)) => stem && n == m,
        (None, None) => true,
        (None, Some(_)) => !stem,
        (Some(_), None) => false,
    }
    &&& prompt.accept_enabled == (text::trimmed(initial).len() > 0)
}

/// What creating something new asks for: the folder it goes to and the prompt
/// for its name, or what is said where nothing can be created.
pub fn create_new(dir: Option<FilePath>, folder: bool) -> (r: Result<
    (FilePath, TextPrompt),
    &'static str,
>)
    ensures
        match (r, dir) {
            (Ok((place, prompt)), Some(d)) => {
                let heading = if folder {
                    "New Folder"@
                } else {
                    "New File"@
                };
                let initial = if folder {
                    "Untitled Folder"@
                } else {
                    "Untitled Document"@
                };
                &&& place == d
                &&& asks_name(prompt, heading, initial, "Create"@, !folder)
            },
            (Err(message), None) => message@ == "Cannot create items here"@,
            _ => false,
        },
{
    match dir {
        Some(place) => {
            let prompt = if folder {
                dialogs::prompt_text("New Folder", None, "Untitled Folder", "Create", false)
            } else {
                dialogs::prompt_text("New File", None, "Untitled Document", "Create", true)
            };
            Ok((place, prompt))
        },
        None => Err("Cannot create items here"),
    }
}

/// What renaming asks for.
#[derive(Debug)]
pub enum RenamePlan {
    /// Say why nothing is renamed.
    Toast(String),
    /// Ask for the new name of an item.
    Prompt { path: FilePath, prompt: TextPrompt },
}

/// What renaming the selection asks for. Only a single item can be renamed, and
/// none in the trash.
pub fn rename_selected(entries: &[FileEntry], in_trash: bool) -> (r: RenamePlan)
    ensures
        if entries@.len() == 0 {
            r matches RenamePlan::Toast(t) && t@ == nothing_selected_text("rename"@)
        } else if entries@.len() > 1 {
            r matches RenamePlan::Toast(t) && t@
                == "Renaming several items at once isn't supported yet"@
        } else if in_trash {
            r matches RenamePlan::Toast(t) && t@ == "Restore this item before renaming it"@
        } else {
            let entry = entries@[0];
            r matches RenamePlan::Prompt { path, prompt } && {
                &&& path@ == entry.path@
                &&& asks_name(prompt, "Rename"@, entry.display_name@, "Rename"@, !entry.is_dir)
            }
        },
{
    if entries.len() == 0 {
        let mut out = text::copied("Select something to ");
        out.append("rename");
        return RenamePlan::Toast(out);
    }
    if entries.len() > 1 {
        return RenamePlan::Toast(
            text::copied("Renaming several items at once isn't supported yet"),
        );
    }
    if in_trash {
        return RenamePlan::Toast(text::copied("Restore this item before renaming it"));
    }
    let entry = &entries[0];
    RenamePlan::Prompt {
        path: entry.path.copy(),
        prompt: dialogs::prompt_text(
            "Rename",
            None,
            entry.display_name.as_str(),
            "Rename",
            !entry.is_dir,
        ),
    }
}

/// Whether a new name changes anything.
pub fn renames(entry: &FileEntry, name: &str) -> (r: bool)
    ensures
        r == (name@ != entry.display_name@),
{
    !text::same(name, entry.display_name.as_str())
}

/// What comes of creating or renaming something: it is selected, or what went
/// wrong is shown under a heading.
#[derive(Debug)]
pub enum Created {
    /// Load the folder again and select the item.
    Select(FilePath),
    /// Show an error.
    Alert(Alert),
}

/// What comes of creating or renaming something.
pub fn created(result: Result<FilePath, String>, heading: &str) -> (r: Created)
    ensures
        match result {
            Ok(path) => r == Created::Select(path),
            Err(message) => r matches Created::Alert(alert) && alert@ == error_alert(
                heading@,
                message@,
            ),
        },
{
    match result {
        Ok(path) => Created::Select(path),
        Err(message) => Created::Alert(dialogs::show_error(heading, message.as_str())),
    }
}

/// An error.
pub open spec fn error_alert(heading: Seq<char>, body: Seq<char>) -> dialogs::AlertView {
    dialogs::AlertView {
        heading,
        body: Some(body),
        responses: seq![("ok"@, "OK"@, dialogs::Appearance::Plain)],
        default_response: "ok"@,
        close_response: "ok"@,
    }
}

// ── the clipboard ──────────────────────────────────────────────────────────

/// What is put on the system's clipboard, and what is said about it.
#[derive(Debug)]
pub struct CopyPlan {
    /// The text form that carries the copy/cut distinction.
    pub payload: Option<String>,
    /// What is said.
    pub toast: String,
}

/// What is said about a copy or a cut.
pub open spec fn copy_toast(is_cut: bool, count: nat) -> Seq<char> {
    if count == 0 {
        if is_cut {
            "Select something to cut"@
        } else {
            "Select something to copy"@
        }
    } else {
        (if is_cut {
            "Cut "@
        } else {
            "Copied "@
        }) + chrome::counted(count, " item"@)
    }
}

/// What is put on the system's clipboard.
pub open spec fn copy_payload(is_cut: bool, uris: Seq<Seq<char>>) -> Seq<char> {
    (if is_cut {
        "cut\n"@
    } else {
        "copy\n"@
    }) + text::joined(uris, "\n"@)
}

/// The paths as text, one on each line.
pub open spec fn paths_text(paths: Seq<FilePath>) -> Seq<char> {
    text::joined(paths.map_values(|p: FilePath| outside::lossy(p@)), "\n"@)
}

/// What is said when paths have been copied as text.
pub const PATHS_COPIED: &'static str = "Path copied";

/// The selected paths as text, or what is said where nothing is selected.
pub fn copy_paths_as_text(paths: &[FilePath]) -> (r: Result<String, &'static str>)
    ensures
        match r {
            Ok(s) => paths@.len() > 0 && s@ == paths_text(paths@),
            Err(message) => paths@.len() == 0 && message@ == "Select something first"@,
        },
{
    if paths.len() == 0 {
        return Err("Select something first");
    }
    let mut lines: Vec<String> = Vec::new();
    let mut i: usize = 0;
    while i < paths.len()
        invariant
            i <= paths@.len(),
            lines@.len() == i,
            forall|j: int| 0 <= j < i ==> (#[trigger] lines@[j])@ == outside::lossy(paths@[j]@),
        decreases paths@.len() - i,
    {
        lines.push(paths[i].display());
        i = i + 1;
    }
    assert(text::views(lines@) =~= paths@.map_values(|p: FilePath| outside::lossy(p@)));
    Ok(text::join(&lines, "\n"))
}

/// Files to be copied or moved somewhere.
#[derive(Debug)]
pub struct Transfer {
    /// The files.
    pub sources: Vec<FilePath>,
    /// Where they go.
    pub dest: FilePath,
    /// Whether they are moved.
    pub is_move: bool,
}

/// What pasting asks for.
#[derive(Debug)]
pub enum PastePlan {
    /// Say why nothing is pasted.
    Toast(&'static str),
    /// Copy or move what was copied or cut in this window.
    Transfer(Transfer),
    /// Read the system's clipboard, and copy what is on it to a folder.
    ReadClipboard(FilePath),
}

/// Copies of some paths.
pub fn copy_paths(paths: &Vec<FilePath>) -> (r: Vec<FilePath>)
    ensures
        file_view::path_views(r@) == file_view::path_views(paths@),
{
    let mut out: Vec<FilePath> = Vec::new();
    let mut i: usize = 0;
    while i < paths.len()
        invariant
            i <= paths@.len(),
            out@.len() == i,
            forall|j: int| 0 <= j < i ==> (#[trigger] out@[j])@ == paths@[j]@,
        decreases paths@.len() - i,
    {
        out.push(paths[i].copy());
        i = i + 1;
    }
    assert(file_view::path_views(out@) =~= file_view::path_views(paths@));
    out
}

impl Window {
    /// Copies or cuts the selected files. `uris` are those of the files, in the
    /// same order. Without files nothing changes.
    pub fn copy_to_clipboard(&mut self, is_cut: bool, paths: Vec<FilePath>, uris: &[String]) ->
        (r: CopyPlan)
        requires
            old(self).valid(),
        ensures
            final(self).valid(),
            final(self).tabs == old(self).tabs,
            final(self).active == old(self).active,
            final(self).banner == old(self).banner,
            final(self).search_kept(*old(self)),
            r.toast@ == copy_toast(is_cut, paths@.len()),
            r.payload is Some <==> paths@.len() > 0,
            r.payload matches Some(p) ==> p@ == copy_payload(is_cut, text::views(uris@)),
            paths@.len() == 0 ==> final(self).clipboard == old(self).clipboard,
            paths@.len() > 0 ==> final(self).clipboard == Some(Clip { paths, is_cut }),
    {
        if paths.len() == 0 {
            return CopyPlan {
                payload: None,
                toast: text::copied(
                    if is_cut {
                        "Select something to cut"
                    } else {
                        "Select something to copy"
                    },
                ),
            };
        }
        let mut payload = text::copied(
            if is_cut {
                "cut\n"
            } else {
                "copy\n"
            },
        );
        payload.append(text::join(uris, "\n").as_str());
        let count: u64 = paths.len() as u64;
        let mut toast = text::copied(
            if is_cut {
                "Cut "
            } else {
                "Copied "
            },
        );
        toast.append(chrome::counted_label(count, " item").as_str());
        self.clipboard = Some(Clip { paths, is_cut });
        CopyPlan { payload: Some(payload), toast }
    }

    /// Pastes into the folder that is shown. What was cut can be pasted once.
    pub fn paste(&mut self) -> (r: PastePlan)
        requires
            old(self).valid(),
        ensures
            final(self).valid(),
            final(self).tabs == old(self).tabs,
            final(self).active == old(self).active,
            final(self).banner == old(self).banner,
            final(self).search_kept(*old(self)),
            match window::directory_of(old(self).front().location@) {
                Some(dest) => {
                    &&& pastes(r, old(self).clipboard, dest)
                    &&& final(self).clipboard == after_paste(old(self).clipboard)
                },
                None => r matches PastePlan::Toast(t) && t@ == "Cannot paste here"@
                    && final(self).clipboard == old(self).clipboard,
            },
    {
        let dest = match self.current_dir() {
            Some(dest) => dest,
            None => return PastePlan::Toast("Cannot paste here"),
        };
        let mut is_cut = false;
        let plan: PastePlan = match &self.clipboard {
            Some(clip) => {
                is_cut = clip.is_cut;
                PastePlan::Transfer(
                    Transfer { sources: copy_paths(&clip.paths), dest, is_move: clip.is_cut },
                )
            },
            None => PastePlan::ReadClipboard(dest),
        };
        if is_cut {
            self.clipboard = None;
        }
        plan
    }
}

/// What was on the system's clipboard is copied, where it was files.
pub fn paste_files(paths: Vec<FilePath>, dest: FilePath) -> (r: Result<Transfer, &'static str>)
    ensures
        match r {
            Ok(t) => paths@.len() > 0 && t == (Transfer { sources: paths, dest, is_move: false }),
            Err(message) => paths@.len() == 0 && message@ == "Nothing to paste"@,
        },
{
    if paths.len() == 0 {
        Err("Nothing to paste")
    } else {
        Ok(Transfer { sources: paths, dest, is_move: false })
    }
}

/// Whether a plan pastes the clipboard into a folder.
pub open spec fn pastes(plan: PastePlan, clipboard: Option<Clip>, dest: Seq<u8>) -> bool {
    match clipboard {
        Some(clip) => plan matches PastePlan::Transfer(t) && file_view::path_views(t.sources@)
            == file_view::path_views(clip.paths@) && t.dest@ == dest && t.is_move == clip.is_cut,
        None => plan matches PastePlan::ReadClipboard(p) && p@ == dest,
    }
}

/// The clipboard after a paste: what was cut is no longer on it.
pub open spec fn after_paste(clipboard: Option<Clip>) -> Option<Clip> {
    match clipboard {
        Some(clip) => if clip.is_cut {
            None
        } else {
            clipboard
        },
        None => None,
    }
}

/// What was cut is moved by the first paste and by no later one; what was
/// copied is pasted by every one.
pub proof fn law_a_cut_is_pasted_once(clipboard: Option<Clip>, second: PastePlan, dest: Seq<u8>)
    requires
        pastes(second, after_paste(clipboard), dest),
    ensures
        !(second matches PastePlan::Transfer(t) && t.is_move),
        clipboard matches Some(clip) && !clip.is_cut ==> pastes(second, clipboard, dest),
        after_paste(after_paste(clipboard)) == after_paste(clipboard),
{
}

// ── drops and transfers ────────────────────────────────────────────────────

/// Whether the files are all in a folder already.
pub open spec fn all_in(paths: Seq<FilePath>, folder: Seq<u8>) -> bool {
    forall|i: int|
        0 <= i < paths.len() ==> (path::parent((#[trigger] paths[i])@) matches Some(parent)
            && path::components(parent) == path::components(folder))
}

/// Whether two files are on the same file system, by their devices; nothing is
/// known where one of them could not be looked at.
pub fn same_filesystem(a: Option<u64>, b: Option<u64>) -> (r: Option<bool>)
    ensures
        r == (match (a, b) {
            (Some(x), Some(y)) => Some(x == y),
            _ => None,
        }),
{
    match (a, b) {
        (Some(x), Some(y)) => Some(x == y),
        _ => None,
    }
}

/// Handles a drag-and-drop: same filesystem defaults to move, across
/// filesystems to copy, matching what users expect from every desktop. Files
/// that are already there stay.
pub fn drop_files(paths: Vec<FilePath>, destination: FilePath, same_device: Option<bool>) -> (r:
    Option<Transfer>)
    ensures
        r is Some <==> !all_in(paths@, destination@),
        r matches Some(t) ==> t == (Transfer {
            sources: paths,
            dest: destination,
            is_move: same_device == Some(true),
        }),
{
    let mut i: usize = 0;
    let mut already_there = true;
    while i < paths.len() && already_there
        invariant
            i <= paths@.len(),
            already_there ==> forall|j: int|
                0 <= j < i ==> (path::parent((#[trigger] paths@[j])@) matches Some(parent)
                    && path::components(parent) == path::components(destination@)),
            !already_there ==> !all_in(paths@, destination@),
        decreases paths@.len() - i,
    {
        already_there = match paths[i].parent() {
            Some(parent) => parent.same_as(&destination),
            None => false,
        };
        if !already_there {
            assert(!(path::parent(paths@[i as int]@) matches Some(parent) && path::components(
                parent,
            ) == path::components(destination@)));
        }
        i = i + 1;
    }
    if already_there {
        return None;
    }
    let is_move = match same_device {
        Some(same) => same,
        None => false,
    };
    Some(Transfer { sources: paths, dest: destination, is_move })
}

// ── what comes of a job ────────────────────────────────────────────────────

/// How a job ended.
#[derive(Debug)]
pub struct JobOutcome {
    /// What failed, and why.
    pub errors: Vec<(FilePath, String)>,
    /// Whether it was cancelled.
    pub cancelled: bool,
    /// How many bytes were done.
    pub bytes_done: u64,
    /// How many items were done.
    pub items_done: u64,
    /// What was created.
    pub created: Vec<FilePath>,
}

impl Default for JobOutcome {
    /// Nothing came of a job.
    fn default() -> (r: JobOutcome)
        ensures
            r.errors@.len() == 0,
            !r.cancelled,
            r.bytes_done == 0,
            r.items_done == 0,
            r.created@.len() == 0,
    {
        JobOutcome {
            errors: Vec::new(),
            cancelled: false,
            bytes_done: 0,
            items_done: 0,
            created: Vec::new(),
        }
    }
}

/// What is shown when a job has ended. The folder is loaded again in any case.
#[derive(Debug)]
pub struct JobEnd {
    /// An error to show.
    pub alert: Option<Alert>,
    /// What is said.
    pub toast: Option<String>,
    /// Whether that comes with a button that undoes the job.
    pub undo: bool,
    /// Whether what the job created is selected.
    pub select: bool,
    /// Whether the trash is counted again.
    pub count_trash: bool,
}

/// Whether a job's end shows its failures.
pub open spec fn shows_failures(
    end: JobEnd,
    heading: Seq<char>,
    errors: Seq<(FilePath, String)>,
) -> bool {
    &&& end.alert matches Some(alert) && alert@ == error_alert(
        heading,
        text::trimmed_end(dialogs::failures_text(errors)),
    )
    &&& end.toast is None
    &&& !end.undo
}

/// Whether a job's end shows one error.
pub open spec fn shows_error(end: JobEnd, heading: Seq<char>, body: Seq<char>) -> bool {
    &&& end.alert matches Some(alert) && alert@ == error_alert(heading, body)
    &&& end.toast is None
    &&& !end.undo
}

/// Whether a job's end says a text and nothing else.
pub open spec fn says(end: JobEnd, toast: Option<Seq<char>>, undo: bool) -> bool {
    &&& end.alert is None
    &&& sidebar::text_of(end.toast) == toast
    &&& end.undo == undo
}

/// The end of a job with failures.
fn failed(heading: &str, errors: &Vec<(FilePath, String)>) -> (r: JobEnd)
    requires
        errors@.len() > 0,
    ensures
        shows_failures(r, heading@, errors@),
        !r.select,
        !r.count_trash,
{
    JobEnd {
        alert: dialogs::show_job_errors(heading, errors),
        toast: None,
        undo: false,
        select: false,
        count_trash: false,
    }
}

/// The end of a job that says a text, or nothing.
fn said(toast: Option<String>, undo: bool) -> (r: JobEnd)
    ensures
        says(r, sidebar::text_of(toast), undo),
        !r.select,
        !r.count_trash,
{
    JobEnd { alert: None, toast, undo, select: false, count_trash: false }
}

/// The end of a job that shows an error.
fn errored(heading: &str, body: &str) -> (r: JobEnd)
    ensures
        shows_error(r, heading@, body@),
        !r.select,
        !r.count_trash,
{
    JobEnd {
        alert: Some(dialogs::show_error(heading, body)),
        toast: None,
        undo: false,
        select: false,
        count_trash: false,
    }
}

/// What is said of a copy or move.
pub open spec fn transfer_text(is_move: bool, bytes: u64, items: nat) -> Seq<char> {
    (if is_move {
        "Moved "@
    } else {
        "Copied "@
    }) + outside::size_text(bytes) + " in "@ + chrome::counted(items, " item"@)
}

/// A copy or move has ended.
pub fn transfer_finished(outcome: &JobOutcome, is_move: bool) -> (r: JobEnd)
    ensures
        if outcome.errors@.len() > 0 {
            shows_failures(r, "Some items could not be transferred"@, outcome.errors@)
        } else if !outcome.cancelled && outcome.bytes_done > 0 {
            says(
                r,
                Some(transfer_text(is_move, outcome.bytes_done, outcome.items_done as nat)),
                false,
            )
        } else {
            says(r, None, false)
        },
        r.select == (outcome.created@.len() > 0),
        !r.count_trash,
{
    let mut end = if outcome.errors.len() > 0 {
        failed("Some items could not be transferred", &outcome.errors)
    } else if outcome.cancelled || outcome.bytes_done == 0 {
        said(None, false)
    } else {
        let mut toast = text::copied(
            if is_move {
                "Moved "
            } else {
                "Copied "
            },
        );
        toast.append(outside::format_size(outcome.bytes_done).as_str());
        toast.append(" in ");
        toast.append(chrome::counted_label(outcome.items_done, " item").as_str());
        said(Some(toast), false)
    };
    end.select = outcome.created.len() > 0;
    end
}

// ── deleting ───────────────────────────────────────────────────────────────

/// What deleting asks for: whether it is for good, and what to ask before.
#[derive(Debug)]
pub struct DeletePlan {
    /// Why nothing is deleted, where nothing is selected.
    pub toast: Option<String>,
    /// Whether the files are deleted for good.
    pub permanent: bool,
    /// What to ask before.
    pub question: Option<Alert>,
}

impl DeletePlan {
    /// Whether the files are deleted, given whether the question was accepted:
    /// not where nothing is selected, and not against the answer.
    pub fn goes_ahead(&self, accepted: bool) -> (r: bool)
        ensures
            r == (self.toast is None && (self.question is Some ==> accepted)),
    {
        match self.toast {
            Some(_) => false,
            None => match self.question {
                Some(_) => accepted,
                None => true,
            },
        }
    }
}

/// What deleting some files asks for. Inside the trash, "delete" can only mean
/// permanent, and that is always asked. With nothing selected that is said, and
/// nothing is asked.
pub fn delete_selected(
    paths: &[FilePath],
    permanent: bool,
    in_trash: bool,
    confirm_trash: bool,
) -> (r: DeletePlan)
    ensures
        sidebar::text_of(r.toast) == (if paths@.len() == 0 {
            Some(nothing_selected_text("delete"@))
        } else {
            None
        }),
        r.permanent == (permanent || in_trash),
        r.question is Some <==> paths@.len() > 0 && (r.permanent || confirm_trash),
        r.question matches Some(alert) ==> alert@ == (if r.permanent {
            dialogs::two_way(
                "Delete permanently?"@,
                Some(
                    dialogs::what_text(paths@)
                        + " will be deleted immediately. This cannot be undone."@,
                ),
                "accept"@,
                "Delete"@,
                dialogs::Appearance::Destructive,
                "cancel"@,
            )
        } else {
            dialogs::two_way(
                "Move to Trash?"@,
                Some(dialogs::what_text(paths@) + " will be moved to the Trash."@),
                "accept"@,
                "Move to Trash"@,
                dialogs::Appearance::Suggested,
                "cancel"@,
            )
        }),
{
    let for_good = permanent || in_trash;
    let toast = selected_or_toast("delete", paths.len());
    if paths.len() == 0 {
        return DeletePlan { toast, permanent: for_good, question: None };
    }
    let mut body = dialogs::what_label(paths);
    let question: Option<Alert> = if for_good {
        body.append(" will be deleted immediately. This cannot be undone.");
        Some(dialogs::confirm("Delete permanently?", body.as_str(), "Delete", true))
    } else if confirm_trash {
        body.append(" will be moved to the Trash.");
        Some(dialogs::confirm("Move to Trash?", body.as_str(), "Move to Trash", false))
    } else {
        None
    };
    DeletePlan { toast, permanent: for_good, question }
}

/// A delete has ended. Trashing is reversible, so the reversal is offered right
/// there rather than making the user go and find the Trash.
pub fn delete_finished(outcome: &JobOutcome, permanent: bool) -> (r: JobEnd)
    ensures
        if outcome.errors@.len() > 0 {
            shows_failures(r, "Some items could not be deleted"@, outcome.errors@)
        } else if !permanent && !outcome.cancelled {
            says(
                r,
                Some(
                    "Moved "@ + chrome::counted(outcome.items_done as nat, " item"@)
                        + " to Trash"@,
                ),
                true,
            )
        } else {
            says(r, None, false)
        },
        !r.select,
        r.count_trash,
{
    let mut end = if outcome.errors.len() > 0 {
        failed("Some items could not be deleted", &outcome.errors)
    } else if permanent || outcome.cancelled {
        said(None, false)
    } else {
        let mut toast = text::copied("Moved ");
        toast.append(chrome::counted_label(outcome.items_done, " item").as_str());
        toast.append(" to Trash");
        said(Some(toast), true)
    };
    end.count_trash = true;
    end
}

/// A shred has ended. There is no way back from it.
pub fn shred_finished(outcome: &JobOutcome) -> (r: JobEnd)
    ensures
        if outcome.errors@.len() > 0 {
            shows_failures(r, "Some items could not be shredded"@, outcome.errors@)
        } else if !outcome.cancelled {
            says(
                r,
                Some("Shredded "@ + chrome::counted(outcome.items_done as nat, " item"@)),
                false,
            )
        } else {
            says(r, None, false)
        },
        !r.select,
        !r.count_trash,
{
    if outcome.errors.len() > 0 {
        failed("Some items could not be shredded", &outcome.errors)
    } else if outcome.cancelled {
        said(None, false)
    } else {
        let mut toast = text::copied("Shredded ");
        toast.append(chrome::counted_label(outcome.items_done, " item").as_str());
        said(Some(toast), false)
    }
}

// ── archives ───────────────────────────────────────────────────────────────

/// The archives among the first `n` entries; a folder is none.
pub open spec fn archives_among(entries: Seq<FileEntry>, is_archive: Seq<bool>, n: nat) -> Seq<
    Seq<u8>,
>
    decreases n,
{
    if n == 0 {
        Seq::empty()
    } else {
        let front = archives_among(entries, is_archive, (n - 1) as nat);
        if !entries[n - 1].is_dir && n - 1 < is_archive.len() && is_archive[n - 1] {
            front.push(entries[n - 1].path@)
        } else {
            front
        }
    }
}

/// What extracting asks for.
#[derive(Debug)]
pub enum ExtractPlan {
    /// Say why nothing is extracted.
    Toast(String),
    /// Ask for a folder, starting at the one that is shown, or extract there.
    Extract { archives: Vec<FilePath>, into: FilePath, ask: bool },
}

/// What extracting the selection asks for. `is_archive` says for each entry
/// whether its name is that of an archive.
pub fn extract_selected(
    entries: &[FileEntry],
    is_archive: &[bool],
    dir: Option<FilePath>,
    ask_destination: bool,
) -> (r: ExtractPlan)
    ensures
        ({
            let archives = archives_among(entries@, is_archive@, entries@.len());
            if entries@.len() == 0 {
                r matches ExtractPlan::Toast(t) && t@ == nothing_selected_text("extract"@)
            } else if archives.len() == 0 {
                r matches ExtractPlan::Toast(t) && t@ == "The selection has no archives in it"@
            } else {
                match dir {
                    Some(d) => r matches ExtractPlan::Extract { archives: found, into, ask }
                        && file_view::path_views(found@) == archives && into == d && ask
                        == ask_destination,
                    None => r matches ExtractPlan::Toast(t) && t@ == "Cannot extract here"@,
                }
            }
        }),
{
    if entries.len() == 0 {
        let mut out = text::copied("Select something to ");
        out.append("extract");
        return ExtractPlan::Toast(out);
    }
    let mut found: Vec<FilePath> = Vec::new();
    let mut i: usize = 0;
    assert(file_view::path_views(found@) =~= archives_among(entries@, is_archive@, 0));
    while i < entries.len()
        invariant
            i <= entries@.len(),
            file_view::path_views(found@) == archives_among(entries@, is_archive@, i as nat),
        decreases entries@.len() - i,
    {
        let ghost was = file_view::path_views(found@);
        if !entries[i].is_dir && i < is_archive.len() && is_archive[i] {
            found.push(entries[i].path.copy());
            assert(file_view::path_views(found@) =~= was.push(entries@[i as int].path@));
        }
        i = i + 1;
    }
    assert(file_view::path_views(found@).len() == found@.len());
    if found.len() == 0 {
        return ExtractPlan::Toast(text::copied("The selection has no archives in it"));
    }
    match dir {
        Some(into) => ExtractPlan::Extract { archives: found, into, ask: ask_destination },
        None => ExtractPlan::Toast(text::copied("Cannot extract here")),
    }
}

/// Whether a run failed for want of a password, by the message that says so.
///
/// An archive only admits to being encrypted once its first entry is reached,
/// so the prompt comes after the job rather than before it. Nothing has been
/// written by then.
pub fn wants_password(outcome: &JobOutcome, password_required: &str) -> (r: bool)
    ensures
        r == exists|i: int|
            0 <= i < outcome.errors@.len() && (#[trigger] outcome.errors@[i]).1@
                == password_required@,
{
    let mut i: usize = 0;
    while i < outcome.errors.len()
        invariant
            i <= outcome.errors@.len(),
            forall|j: int|
                0 <= j < i ==> (#[trigger] outcome.errors@[j]).1@ != password_required@,
        decreases outcome.errors@.len() - i,
    {
        if text::same(outcome.errors[i].1.as_str(), password_required) {
            return true;
        }
        i = i + 1;
    }
    false
}

/// What has happened on the way to an extracted archive.
#[derive(Clone, Copy, Debug, PartialEq, Eq, Structural)]
pub enum ExtractEvent {
    /// The extraction was asked for.
    Start,
    /// A run has ended; whether it had a password and was refused for want of one.
    Ran { password_given: bool, password_required: bool },
    /// A password was asked for, and one was entered or none.
    Entered { given: bool },
}

/// The next step on the way to an extracted archive.
#[derive(Clone, Copy, Debug, PartialEq, Eq, Structural)]
pub enum ExtractStep {
    /// Run the extraction, with the password that was entered or without one.
    Run { password_given: bool },
    /// Ask for a password.
    Ask,
    /// Show how the last run ended.
    Finish,
    /// Leave it, without a word.
    Stop,
}

/// The step that follows an event.
pub open spec fn extract_next(event: ExtractEvent) -> ExtractStep {
    match event {
        ExtractEvent::Start => ExtractStep::Run { password_given: false },
        ExtractEvent::Ran { password_given, password_required } => if !password_given
            && password_required {
            ExtractStep::Ask
        } else {
            ExtractStep::Finish
        },
        ExtractEvent::Entered { given } => if given {
            ExtractStep::Run { password_given: true }
        } else {
            ExtractStep::Stop
        },
    }
}

/// The next step on the way to an extracted archive.
pub fn extract_one(event: ExtractEvent) -> (r: ExtractStep)
    ensures
        r == extract_next(event),
{
    match event {
        ExtractEvent::Start => ExtractStep::Run { password_given: false },
        ExtractEvent::Ran { password_given, password_required } => if !password_given
            && password_required {
            ExtractStep::Ask
        } else {
            ExtractStep::Finish
        },
        ExtractEvent::Entered { given } => if given {
            ExtractStep::Run { password_given: true }
        } else {
            ExtractStep::Stop
        },
    }
}

/// A password is asked for at most once: the run that follows an entered one
/// is the last, whatever comes of it.
pub proof fn law_a_password_is_asked_for_once(required: bool)
    ensures
        extract_next(ExtractEvent::Entered { given: true }) == (ExtractStep::Run {
            password_given: true,
        }),
        extract_next(
            ExtractEvent::Ran { password_given: true, password_required: required },
        ) == ExtractStep::Finish,
{
}

/// The title of an extraction.
pub fn extracting_label(name: &str) -> (r: String)
    ensures
        r@ == around("Extracting "@, name@, ""@),
{
    put_around("Extracting ", name, "")
}

/// An extraction has ended.
pub fn extract_finished(outcome: &JobOutcome, name: &str) -> (r: JobEnd)
    ensures
        if outcome.errors@.len() > 0 {
            shows_error(r, around("Could not extract “"@, name@, "”"@), outcome.errors@[0].1@)
        } else if !outcome.cancelled {
            says(
                r,
                Some("Extracted "@ + chrome::counted(outcome.items_done as nat, " item"@)),
                false,
            )
        } else {
            says(r, None, false)
        },
        r.select,
        !r.count_trash,
{
    let mut end = if outcome.errors.len() > 0 {
        let heading = put_around("Could not extract “", name, "”");
        errored(heading.as_str(), outcome.errors[0].1.as_str())
    } else if outcome.cancelled {
        said(None, false)
    } else {
        let mut toast = text::copied("Extracted ");
        toast.append(chrome::counted_label(outcome.items_done, " item").as_str());
        said(Some(toast), false)
    };
    end.select = true;
    end
}

/// What compressing asks for.
#[derive(Debug)]
pub enum CompressPlan {
    /// Say why nothing is compressed.
    Toast(String),
    /// Show an error.
    Alert(Alert),
    /// Ask for a name and a format, and put the archive into a folder.
    Ask { stem: String, dir: FilePath },
    /// Nothing.
    Nothing,
}

/// The name that is suggested for an archive: that of the only item without
/// its extension, or that of the folder.
pub open spec fn archive_stem(entries: Seq<FileEntry>, dir: Option<Seq<u8>>) -> Seq<char> {
    if entries.len() == 1 {
        match path::file_stem(entries[0].path@) {
            Some(stem) => outside::lossy(stem),
            None => "archive"@,
        }
    } else {
        match dir {
            Some(d) => match path::file_name(d) {
                Some(name) => outside::lossy(name),
                None => "archive"@,
            },
            None => "archive"@,
        }
    }
}

/// What compressing the selection asks for.
pub fn compress_selected(entries: &[FileEntry], dir: Option<FilePath>, can_compress: bool) -> (r:
    CompressPlan)
    ensures
        if entries@.len() == 0 {
            r matches CompressPlan::Toast(t) && t@ == nothing_selected_text("compress"@)
        } else if !can_compress {
            r matches CompressPlan::Alert(alert) && alert@ == error_alert(
                "Compression is unavailable"@,
                "Install the libarchive package, which provides bsdtar."@,
            )
        } else {
            match dir {
                Some(d) => r matches CompressPlan::Ask { stem, dir: place } && stem@
                    == archive_stem(entries@, Some(d@)) && place == d,
                None => r is Nothing,
            }
        },
{
    if entries.len() == 0 {
        let mut out = text::copied("Select something to ");
        out.append("compress");
        return CompressPlan::Toast(out);
    }
    if !can_compress {
        return CompressPlan::Alert(
            dialogs::show_error(
                "Compression is unavailable",
                "Install the libarchive package, which provides bsdtar.",
            ),
        );
    }
    match dir {
        Some(place) => {
            let found: Option<String> = if entries.len() == 1 {
                entries[0].path.file_stem_text()
            } else {
                place.file_name_text()
            };
            let stem = match found {
                Some(stem) => stem,
                None => text::copied("archive"),
            };
            CompressPlan::Ask { stem, dir: place }
        },
        None => CompressPlan::Nothing,
    }
}

/// Where an archive goes, before a name that is free is looked for.
pub fn archive_path(dir: &FilePath, stem: &str, suffix: &str) -> (r: FilePath)
    ensures
        r@ == path::joined(dir@, encode_utf8(stem@ + suffix@)),
{
    let mut name = text::copied(stem);
    name.append(suffix);
    dir.join_text(name.as_str())
}

/// A compression has ended.
pub fn compress_finished(outcome: &JobOutcome, dest: &FilePath) -> (r: JobEnd)
    ensures
        if outcome.errors@.len() > 0 {
            shows_error(r, "Could not create the archive"@, outcome.errors@[0].1@)
        } else if !outcome.cancelled {
            says(r, Some("Created "@ + dialogs::name_or_nothing(dest@)), false)
        } else {
            says(r, None, false)
        },
        !r.select,
        !r.count_trash,
{
    if outcome.errors.len() > 0 {
        errored("Could not create the archive", outcome.errors[0].1.as_str())
    } else if outcome.cancelled {
        said(None, false)
    } else {
        let mut toast = text::copied("Created ");
        toast.append(dialogs::shown_name(dest).as_str());
        said(Some(toast), false)
    }
}

// ── the trash ──────────────────────────────────────────────────────────────

/// Why nothing can be restored: restoring works in the trash alone, and needs a
/// selection.
pub fn restore_refused(in_trash: bool, selected: usize) -> (r: Option<&'static str>)
    ensures
        match r {
            Some(t) => if !in_trash {
                t@ == "Restore only works inside the Trash"@
            } else {
                selected == 0 && t@ == "Select items to restore"@
            },
            None => in_trash && selected > 0,
        },
{
    if !in_trash {
        Some("Restore only works inside the Trash")
    } else if selected == 0 {
        Some("Select items to restore")
    } else {
        None
    }
}

/// The places of those of the first `n` items that are at one of some paths: in
/// the trash, or where they came from.
pub open spec fn restorable(
    items: Seq<TrashItem>,
    paths: Seq<Seq<u8>>,
    by_origin: bool,
    n: nat,
) -> Seq<usize>
    decreases n,
{
    if n == 0 {
        Seq::empty()
    } else {
        let front = restorable(items, paths, by_origin, (n - 1) as nat);
        let at = if by_origin {
            items[n - 1].original_path@
        } else {
            items[n - 1].file_path@
        };
        if file_view::among(at, paths) {
            front.push((n - 1) as usize)
        } else {
            front
        }
    }
}

/// Which items of the trash are to be restored. Undoing a delete goes by the
/// original paths: the trash names are generated, so the original path is the
/// only reliable key.
pub fn items_to_restore(items: &[TrashItem], paths: &[FilePath], by_origin: bool) -> (r: Vec<
    usize,
>)
    ensures
        r@ == restorable(items@, file_view::path_views(paths@), by_origin, items@.len()),
{
    let mut out: Vec<usize> = Vec::new();
    let mut n: usize = 0;
    while n < items.len()
        invariant
            n <= items@.len(),
            out@ == restorable(items@, file_view::path_views(paths@), by_origin, n as nat),
        decreases items@.len() - n,
    {
        let hit = if by_origin {
            file_view::is_among(&items[n].original_path, paths)
        } else {
            file_view::is_among(&items[n].file_path, paths)
        };
        if hit {
            out.push(n);
        }
        n = n + 1;
    }
    out
}

/// Items have been restored. `undo` is whether that undid a delete, in which
/// case it may be that nothing was left to restore.
pub fn restore_finished(restored: u64, errors: &Vec<(FilePath, String)>, undo: bool) -> (r:
    JobEnd)
    ensures
        if errors@.len() > 0 {
            shows_failures(r, "Some items could not be restored"@, errors@)
        } else if undo && restored == 0 {
            says(r, Some("Those items are no longer in the Trash"@), false)
        } else {
            says(r, Some("Restored "@ + chrome::counted(restored as nat, " item"@)), false)
        },
        !r.select,
        r.count_trash,
{
    let mut end = if errors.len() > 0 {
        failed("Some items could not be restored", errors)
    } else if undo && restored == 0 {
        said(Some(text::copied("Those items are no longer in the Trash")), false)
    } else {
        let mut toast = text::copied("Restored ");
        toast.append(chrome::counted_label(restored, " item").as_str());
        said(Some(toast), false)
    };
    end.count_trash = true;
    end
}

/// What emptying the trash asks first, or what is said where it is empty.
pub fn empty_trash(count: usize) -> (r: Result<Alert, &'static str>)
    ensures
        match r {
            Ok(alert) => count > 0 && alert@ == dialogs::two_way(
                "Empty the Trash?"@,
                Some(
                    "All "@ + chrome::counted(count as nat, " item"@)
                        + " will be permanently deleted. This cannot be undone."@,
                ),
                "accept"@,
                "Empty Trash"@,
                dialogs::Appearance::Destructive,
                "cancel"@,
            ),
            Err(message) => count == 0 && message@ == "The Trash is already empty"@,
        },
{
    if count == 0 {
        return Err("The Trash is already empty");
    }
    let mut body = text::copied("All ");
    body.append(chrome::counted_label(count as u64, " item").as_str());
    body.append(" will be permanently deleted. This cannot be undone.");
    Ok(dialogs::confirm("Empty the Trash?", body.as_str(), "Empty Trash", true))
}

/// The trash has been emptied.
pub fn emptied_trash(removed: u64, errors: &[String]) -> (r: JobEnd)
    ensures
        if errors@.len() > 0 {
            shows_error(
                r,
                "Some items could not be deleted"@,
                text::joined(text::views(errors@), "\n"@),
            )
        } else {
            says(r, Some("Deleted "@ + chrome::counted(removed as nat, " item"@)), false)
        },
        !r.select,
        r.count_trash,
{
    let mut end = if errors.len() > 0 {
        errored("Some items could not be deleted", text::join(errors, "\n").as_str())
    } else {
        let mut toast = text::copied("Deleted ");
        toast.append(chrome::counted_label(removed, " item").as_str());
        said(Some(toast), false)
    };
    end.count_trash = true;
    end
}

// ── drives ─────────────────────────────────────────────────────────────────

/// A text in quotes between two others.
pub open spec fn around(before: Seq<char>, name: Seq<char>, after: Seq<char>) -> Seq<char> {
    before + name + after
}

/// A text between two others.
fn put_around(before: &str, name: &str, after: &str) -> (r: String)
    ensures
        r@ == around(before@, name@, after@),
{
    let mut out = text::copied(before);
    out.append(name);
    out.append(after);
    out
}

/// What is said while a drive is being mounted.
pub fn mounting_label(label: &str) -> (r: String)
    ensures
        r@ == around("Mounting “"@, label@, "”…"@),
{
    put_around("Mounting “", label, "”…")
}

/// What is said once a drive has been mounted.
pub fn mounted_label(label: &str) -> (r: String)
    ensures
        r@ == around("Mounted “"@, label@, "”"@),
{
    put_around("Mounted “", label, "”")
}

/// How a mount ended.
#[derive(Debug)]
pub enum MountResult {
    /// It is mounted there.
    Mounted(FilePath),
    /// It already was.
    AlreadyMounted(FilePath),
    /// It is an NTFS volume that Windows left dirty.
    NtfsUnclean { message: String, hibernated: bool },
    /// It failed.
    Failed(String),
}

/// What comes of a mount.
#[derive(Debug)]
pub enum MountPlan {
    /// Go there.
    Enter(FilePath),
    /// Offer the ways out of a refused NTFS mount.
    Recover { message: String, hibernated: bool },
    /// Show an error.
    Alert(Alert),
}

/// What comes of mounting a drive. NTFS failures are routed to the recovery
/// dialog rather than shown as a dead-end error, because they are almost always
/// fixable.
pub fn mount_volume(result: MountResult, label: &str) -> (r: MountPlan)
    ensures
        match result {
            MountResult::Mounted(p) => r == MountPlan::Enter(p),
            MountResult::AlreadyMounted(p) => r == MountPlan::Enter(p),
            MountResult::NtfsUnclean { message, hibernated } => r == (MountPlan::Recover {
                message,
                hibernated,
            }),
            MountResult::Failed(message) => r matches MountPlan::Alert(alert) && alert@
                == error_alert(around("Could not mount “"@, label@, "”"@), message@),
        },
{
    match result {
        MountResult::Mounted(p) => MountPlan::Enter(p),
        MountResult::AlreadyMounted(p) => MountPlan::Enter(p),
        MountResult::NtfsUnclean { message, hibernated } => MountPlan::Recover {
            message,
            hibernated,
        },
        MountResult::Failed(message) => {
            let heading = put_around("Could not mount “", label, "”");
            MountPlan::Alert(dialogs::show_error(heading.as_str(), message.as_str()))
        },
    }
}

/// Whether a drive asks for a passphrase before it is mounted: one that is
/// encrypted does, and asks again after a wrong one, until it is unlocked or
/// the user gives up.
#[derive(Clone, Copy, Debug, PartialEq, Eq, Structural)]
pub enum UnlockStep {
    /// Ask for a passphrase, after a wrong one or for the first time.
    Ask { retry: bool },
    /// Try what was entered.
    Try,
    /// Mount the drive.
    Mount,
    /// Leave it.
    Stop,
}

/// What has happened on the way to an unlocked drive.
#[derive(Clone, Copy, Debug, PartialEq, Eq, Structural)]
pub enum UnlockEvent {
    /// A mount was asked for.
    Start,
    /// A passphrase was entered, or none.
    Entered { given: bool },
    /// It was tried.
    Tried { unlocked: bool },
}

/// The next step on the way to an unlocked drive.
pub fn unlock_step(is_encrypted: bool, event: UnlockEvent) -> (r: UnlockStep)
    ensures
        r == (match event {
            UnlockEvent::Start => if is_encrypted {
                UnlockStep::Ask { retry: false }
            } else {
                UnlockStep::Mount
            },
            UnlockEvent::Entered { given } => if given {
                UnlockStep::Try
            } else {
                UnlockStep::Stop
            },
            UnlockEvent::Tried { unlocked } => if unlocked {
                UnlockStep::Mount
            } else {
                UnlockStep::Ask { retry: true }
            },
        }),
{
    match event {
        UnlockEvent::Start => if is_encrypted {
            UnlockStep::Ask { retry: false }
        } else {
            UnlockStep::Mount
        },
        UnlockEvent::Entered { given } => if given {
            UnlockStep::Try
        } else {
            UnlockStep::Stop
        },
        UnlockEvent::Tried { unlocked } => if unlocked {
            UnlockStep::Mount
        } else {
            UnlockStep::Ask { retry: true }
        },
    }
}

/// What a choice about a dirty NTFS volume asks for.
#[derive(Debug)]
pub enum RecoverStep {
    /// Nothing.
    Stop,
    /// Mount it read-only.
    MountReadOnly,
    /// Repair and mount it, and say so.
    Repair { toast: &'static str },
    /// Ask whether to discard the hibernated session, and mount it then.
    ConfirmForce(Alert),
}

/// What a choice about a dirty NTFS volume asks for. Discarding a hibernated
/// session is asked a second time.
pub fn recover_ntfs(choice: NtfsChoice) -> (r: RecoverStep)
    ensures
        match choice {
            NtfsChoice::Cancel => r is Stop,
            NtfsChoice::ReadOnly => r is MountReadOnly,
            NtfsChoice::Repair => r matches RecoverStep::Repair { toast } && toast@
                == "Repairing the volume…"@,
            NtfsChoice::Force => r matches RecoverStep::ConfirmForce(alert) && alert@
                == dialogs::two_way(
                "Discard the hibernated Windows session?"@,
                Some(
                    "Your files are not affected, but Windows will not be able to resume the suspended session after this. Windows will boot fresh instead."@,
                ),
                "accept"@,
                "Discard and Mount"@,
                dialogs::Appearance::Destructive,
                "cancel"@,
            ),
        },
{
    match choice {
        NtfsChoice::Cancel => RecoverStep::Stop,
        NtfsChoice::ReadOnly => RecoverStep::MountReadOnly,
        NtfsChoice::Repair => RecoverStep::Repair { toast: "Repairing the volume…" },
        NtfsChoice::Force => RecoverStep::ConfirmForce(
            dialogs::confirm(
                "Discard the hibernated Windows session?",
                "Your files are not affected, but Windows will not be able to resume the suspended session after this. Windows will boot fresh instead.",
                "Discard and Mount",
                true,
            ),
        ),
    }
}

/// What comes of recovering an NTFS volume: where to go and what to say before,
/// or an error.
pub fn recovered_ntfs(choice: NtfsChoice, result: Result<FilePath, String>, label: &str) -> (r:
    Result<(FilePath, Option<String>), Alert>)
    ensures
        match (r, result) {
            (Ok((place, toast)), Ok(p)) => {
                &&& place == p
                &&& sidebar::text_of(toast) == (if choice == NtfsChoice::ReadOnly {
                    Some(around("“"@, label@, "” mounted read-only"@))
                } else {
                    None
                })
            },
            (Err(alert), Err(message)) => alert@ == error_alert(
                around("Could not mount “"@, label@, "”"@),
                message@,
            ),
            _ => false,
        },
{
    match result {
        Ok(place) => {
            let toast: Option<String> = match choice {
                NtfsChoice::ReadOnly => Some(put_around("“", label, "” mounted read-only")),
                _ => None,
            };
            Ok((place, toast))
        },
        Err(message) => {
            let heading = put_around("Could not mount “", label, "”");
            Err(dialogs::show_error(heading.as_str(), message.as_str()))
        },
    }
}

/// Where to go before a drive is unmounted: the home directory, or the root
/// without one, where the directory that is shown is on the drive. Unmounting
/// it would otherwise leave the window pointed at a path that no longer exists.
pub fn leave_before_unmount(
    current: Option<&FilePath>,
    mount_point: Option<&FilePath>,
    home: Option<&FilePath>,
) -> (r: Option<FilePath>)
    ensures
        match (current, mount_point) {
            (Some(dir), Some(mount)) => if path::components(mount@).is_prefix_of(
                path::components(dir@),
            ) {
                r matches Some(p) && p@ == pathbar::virtual_place(pathbar::home_view(home))
            } else {
                r is None
            },
            _ => r is None,
        },
{
    match (current, mount_point) {
        (Some(dir), Some(mount)) => if dir.starts_with(mount) {
            match home {
                Some(h) => Some(h.copy()),
                None => Some(FilePath::root()),
            }
        } else {
            None
        },
        _ => None,
    }
}

/// Why a drive could not be unmounted, after a second way was tried too: a
/// volume mounted by force is outside the disk service's control, so its
/// unmount can refuse, and the mount point itself is unmounted instead. The
/// second message counts unless it is blank.
pub fn unmount_error(first: String, second: Option<String>) -> (r: String)
    ensures
        r@ == (match second {
            Some(s) => if text::trimmed(s@).len() == 0 {
                first@
            } else {
                s@
            },
            None => first@,
        }),
{
    match second {
        Some(s) => if dialogs::is_filled(s.as_str()) {
            s
        } else {
            first
        },
        None => first,
    }
}

/// What is added where a drive is busy.
pub const BUSY_HINT: &'static str =
    "\n\nSomething is still using it — close any programs with files open there.";

/// A drive has been unmounted or ejected, or could not be. A busy volume is the
/// common case and deserves a useful message.
pub fn unmount_finished(result: Result<(), String>, label: &str, eject: bool) -> (r: Result<
    String,
    Alert,
>)
    ensures
        match (r, result) {
            (Ok(toast), Ok(_)) => toast@ == (if eject {
                around("“"@, label@, "” is safe to remove"@)
            } else {
                around("Unmounted “"@, label@, "”"@)
            }),
            (Err(alert), Err(message)) => alert@ == error_alert(
                around("Could not unmount “"@, label@, "”"@),
                if text::contains_text(outside::lowercase(message@), "busy"@) {
                    message@ + BUSY_HINT@
                } else {
                    message@
                },
            ),
            _ => false,
        },
{
    match result {
        Ok(_) => Ok(
            if eject {
                put_around("“", label, "” is safe to remove")
            } else {
                put_around("Unmounted “", label, "”")
            },
        ),
        Err(message) => {
            let busy = text::contains(outside::to_lowercase(message.as_str()).as_str(), "busy");
            let mut body = text::copied(message.as_str());
            if busy {
                body.append(BUSY_HINT);
            }
            let heading = put_around("Could not unmount “", label, "”");
            Err(dialogs::show_error(heading.as_str(), body.as_str()))
        },
    }
}

// ── favourites, terminals and applications ─────────────────────────────────

/// The first folder among some entries.
pub open spec fn first_folder(entries: Seq<FileEntry>) -> Option<Seq<u8>>
    decreases entries.len(),
{
    if entries.len() == 0 {
        None
    } else if entries[0].is_dir {
        Some(entries[0].path@)
    } else {
        first_folder(entries.skip(1))
    }
}

/// The folder that becomes a favourite, or stops being one: the first selected
/// one, or the one that is shown.
pub fn favourite_target(entries: &[FileEntry], dir: Option<FilePath>) -> (r: Result<
    FilePath,
    &'static str,
>)
    ensures
        match first_folder(entries@) {
            Some(p) => r matches Ok(q) && q@ == p,
            None => match dir {
                Some(d) => r matches Ok(q) && q@ == d@,
                None => r matches Err(message) && message@
                    == "Select a folder to add to Favourites"@,
            },
        },
{
    let mut i: usize = 0;
    assert(entries@.skip(0) =~= entries@);
    while i < entries.len()
        invariant
            i <= entries@.len(),
            first_folder(entries@) == first_folder(entries@.skip(i as int)),
        decreases entries@.len() - i,
    {
        if entries[i].is_dir {
            return Ok(entries[i].path.copy());
        }
        assert(entries@.skip(i as int).skip(1) =~= entries@.skip(i as int + 1));
        i = i + 1;
    }
    match dir {
        Some(d) => Ok(d),
        None => Err("Select a folder to add to Favourites"),
    }
}

/// What is said of a favourite that came or went, or could not.
pub fn toggled_favourite(path: &FilePath, changed: bool, added: bool) -> (r: String)
    ensures
        r@ == (if !changed {
            "Only folders can be added to Favourites"@
        } else if added {
            around("Added “"@, dialogs::name_or_nothing(path@), "” to Favourites"@)
        } else {
            around("Removed “"@, dialogs::name_or_nothing(path@), "” from Favourites"@)
        }),
{
    if !changed {
        return text::copied("Only folders can be added to Favourites");
    }
    let name = dialogs::shown_name(path);
    if added {
        put_around("Added “", name.as_str(), "” to Favourites")
    } else {
        put_around("Removed “", name.as_str(), "” from Favourites")
    }
}

/// The terminals that are tried after the one the user prefers.
pub const TERMINALS: [&'static str; 9] = [
    "ghostty",
    "kitty",
    "alacritty",
    "wezterm",
    "foot",
    "gnome-terminal",
    "konsole",
    "xfce4-terminal",
    "xterm",
];

/// The terminals to try, in order: the user's choice first, then what may be
/// installed.
pub open spec fn terminals(preferred: Option<&str>) -> Seq<Seq<char>> {
    (match preferred {
        Some(p) => seq![p@],
        None => Seq::<Seq<char>>::empty(),
    }) + commands::literals(TERMINALS@)
}

/// The terminals to try, in order.
pub fn terminal_candidates(preferred: Option<&str>) -> (r: Vec<String>)
    ensures
        text::views(r@) == terminals(preferred),
{
    let table = TERMINALS;
    let mut out: Vec<String> = Vec::new();
    match preferred {
        Some(p) => out.push(text::copied(p)),
        None => {},
    }
    let ghost first = match preferred {
        Some(p) => seq![p@],
        None => Seq::<Seq<char>>::empty(),
    };
    assert(text::views(out@) =~= first + commands::literals(table@.take(0)));
    let mut i: usize = 0;
    while i < table.len()
        invariant
            i <= table@.len(),
            table == TERMINALS,
            text::views(out@) == first + commands::literals(table@.take(i as int)),
        decreases table@.len() - i,
    {
        let ghost was = text::views(out@);
        out.push(text::copied(table[i]));
        assert(text::views(out@) =~= was.push(table@[i as int]@));
        assert(commands::literals(table@.take(i as int + 1)) =~= commands::literals(table@.take(i as int)).push(
            table@[i as int]@,
        ));
        assert(text::views(out@) =~= first + commands::literals(table@.take(i as int + 1)));
        i = i + 1;
    }
    assert(table@.take(table@.len() as int) =~= table@);
    out
}

/// What is said where no terminal can be started.
pub const NO_TERMINAL: &'static str = "No terminal emulator found";

/// What opening a terminal asks for: the folder it starts in and the terminals
/// to try, or what is said where there is no folder.
pub fn open_terminal(dir: Option<FilePath>, preferred: Option<&str>) -> (r: Result<
    (FilePath, Vec<String>),
    &'static str,
>)
    ensures
        match (r, dir) {
            (Ok((place, candidates)), Some(d)) => place == d && text::views(candidates@)
                == terminals(preferred),
            (Err(message), None) => message@ == "Cannot open a terminal here"@,
            _ => false,
        },
{
    match dir {
        Some(place) => Ok((place, terminal_candidates(preferred))),
        None => Err("Cannot open a terminal here"),
    }
}

/// Where a program may be: at the path it is given by, or under its name in one
/// of the directories.
pub fn which(binary: &str, dirs: &[FilePath]) -> (r: Vec<FilePath>)
    ensures
        file_view::path_views(r@) == (if binary@.contains('/') {
            seq![encode_utf8(binary@)]
        } else {
            dirs@.map_values(|d: FilePath| path::joined(d@, encode_utf8(binary@)))
        }),
{
    let chars = text::chars_of(binary);
    let mut out: Vec<FilePath> = Vec::new();
    let mut i: usize = 0;
    while i < chars.len()
        invariant
            i <= chars@.len(),
            chars@ == binary@,
            out@.len() == 0,
            forall|j: int| 0 <= j < i ==> chars@[j] != '/',
        decreases chars@.len() - i,
    {
        if chars[i] == '/' {
            assert(binary@.contains('/'));
            out.push(FilePath::new(binary));
            assert(file_view::path_views(out@) =~= seq![encode_utf8(binary@)]);
            return out;
        }
        i = i + 1;
    }
    assert(!binary@.contains('/'));
    let mut n: usize = 0;
    while n < dirs.len()
        invariant
            n <= dirs@.len(),
            out@.len() == n,
            forall|j: int|
                0 <= j < n ==> (#[trigger] out@[j])@ == path::joined(
                    dirs@[j]@,
                    encode_utf8(binary@),
                ),
        decreases dirs@.len() - n,
    {
        out.push(dirs[n].join_text(binary));
        n = n + 1;
    }
    assert(file_view::path_views(out@) =~= dirs@.map_values(
        |d: FilePath| path::joined(d@, encode_utf8(binary@)),
    ));
    out
}

/// The identifiers of some applications.
pub open spec fn app_ids(apps: Seq<Option<String>>) -> Seq<Option<Seq<char>>> {
    apps.map_values(|id: Option<String>| sidebar::text_of(id))
}

/// The applications for a type: the recommended ones, then any other that
/// claims the type and is not among them yet.
pub open spec fn ordered_ids(
    recommended: Seq<Option<Seq<char>>>,
    all: Seq<Option<Seq<char>>>,
) -> Seq<Option<Seq<char>>>
    decreases all.len(),
{
    if all.len() == 0 {
        recommended
    } else {
        let front = ordered_ids(recommended, all.drop_last());
        if front.contains(all.last()) {
            front
        } else {
            front.push(all.last())
        }
    }
}

/// An application by its place among the recommended ones or among all.
#[derive(Clone, Copy, Debug, PartialEq, Eq, Structural)]
pub enum AppChoice {
    /// A recommended one.
    Recommended(usize),
    /// Another.
    Other(usize),
}

/// The identifier of a choice.
pub open spec fn chosen_id(
    choice: AppChoice,
    recommended: Seq<Option<String>>,
    all: Seq<Option<String>>,
) -> Option<Seq<char>> {
    match choice {
        AppChoice::Recommended(i) => sidebar::text_of(recommended[i as int]),
        AppChoice::Other(i) => sidebar::text_of(all[i as int]),
    }
}

/// Whether two identifiers are the same.
fn same_id(a: &Option<String>, b: &Option<String>) -> (r: bool)
    ensures
        r == (sidebar::text_of(*a) == sidebar::text_of(*b)),
{
    match (a, b) {
        (Some(x), Some(y)) => text::same(x.as_str(), y.as_str()),
        (None, None) => true,
        _ => false,
    }
}

/// The applications for a type, in order, by their identifiers.
pub fn open_with(recommended: &[Option<String>], all: &[Option<String>]) -> (r: Vec<AppChoice>)
    ensures
        r@.map_values(|c: AppChoice| chosen_id(c, recommended@, all@)) == ordered_ids(
            app_ids(recommended@),
            app_ids(all@),
        ),
{
    let mut out: Vec<AppChoice> = Vec::new();
    let ghost f = |c: AppChoice| chosen_id(c, recommended@, all@);
    let ghost rec = app_ids(recommended@);
    let ghost every = app_ids(all@);
    let mut i: usize = 0;
    while i < recommended.len()
        invariant
            i <= recommended@.len(),
            out@.len() == i,
            forall|j: int|
                0 <= j < i ==> #[trigger] out@[j] == AppChoice::Recommended(j as usize),
        decreases recommended@.len() - i,
    {
        out.push(AppChoice::Recommended(i));
        i = i + 1;
    }
    assert(every.take(0) =~= Seq::<Option<Seq<char>>>::empty());
    assert(out@.map_values(f) =~= ordered_ids(rec, every.take(0)));
    let mut n: usize = 0;
    while n < all.len()
        invariant
            n <= all@.len(),
            rec == app_ids(recommended@),
            every == app_ids(all@),
            every.len() == all@.len(),
            f == (|c: AppChoice| chosen_id(c, recommended@, all@)),
            out@.map_values(f) == ordered_ids(rec, every.take(n as int)),
            forall|j: int|
                0 <= j < out@.len() ==> match #[trigger] out@[j] {
                    AppChoice::Recommended(k) => k < recommended@.len(),
                    AppChoice::Other(k) => k < all@.len(),
                },
        decreases all@.len() - n,
    {
        let ghost shown = out@.map_values(f);
        assert(every.take(n as int + 1).drop_last() =~= every.take(n as int));
        assert(every.take(n as int + 1).last() == sidebar::text_of(all@[n as int]));
        let mut known = false;
        let mut k: usize = 0;
        while k < out.len() && !known
            invariant
                k <= out@.len(),
                n < all@.len(),
                f == (|c: AppChoice| chosen_id(c, recommended@, all@)),
                shown == out@.map_values(f),
                forall|j: int|
                    0 <= j < out@.len() ==> match #[trigger] out@[j] {
                        AppChoice::Recommended(q) => q < recommended@.len(),
                        AppChoice::Other(q) => q < all@.len(),
                    },
                known ==> shown.contains(sidebar::text_of(all@[n as int])),
                !known ==> forall|j: int|
                    0 <= j < k ==> #[trigger] shown[j] != sidebar::text_of(all@[n as int]),
            decreases out@.len() - k,
        {
            assert(shown[k as int] == f(out@[k as int]));
            known = match out[k] {
                AppChoice::Recommended(q) => same_id(&recommended[q], &all[n]),
                AppChoice::Other(q) => same_id(&all[q], &all[n]),
            };
            if known {
                assert(shown[k as int] == sidebar::text_of(all@[n as int]));
            }
            k = k + 1;
        }
        if !known {
            assert(!shown.contains(sidebar::text_of(all@[n as int])));
            out.push(AppChoice::Other(n));
            assert(out@.map_values(f) =~= shown.push(sidebar::text_of(all@[n as int])));
        }
        n = n + 1;
    }
    assert(every.take(every.len() as int) =~= every);
    out
}

/// The dialog that lets the user choose an application for a file, or what is
/// said where there is none.
pub fn open_with_dialog(display_name: &str, choices: usize) -> (r: Result<Alert, &'static str>)
    ensures
        match r {
            Ok(alert) => choices > 0 && alert@ == dialogs::two_way(
                "Open With"@,
                Some(around("Choose an application for “"@, display_name@, "”."@)),
                "open"@,
                "Open"@,
                dialogs::Appearance::Suggested,
                "open"@,
            ),
            Err(message) => choices == 0 && message@
                == "No applications are registered for this file type"@,
        },
{
    if choices == 0 {
        return Err("No applications are registered for this file type");
    }
    let body = put_around("Choose an application for “", display_name, "”.");
    Ok(
        dialogs::two_way_alert(
            "Open With",
            Some(body),
            "open",
            "Open",
            dialogs::Appearance::Suggested,
            "open",
        ),
    )
}

/// The application that was chosen: the one of the selected row, where the
/// dialog was not cancelled.
pub fn chosen_app(response: &str, row: Option<i32>, choices: &[AppChoice]) -> (r: Option<AppChoice>)
    ensures
        r == (match row {
            Some(i) => if response@ == "open"@ && 0 <= i < choices@.len() {
                Some(choices@[i as int])
            } else {
                None
            },
            None => None,
        }),
{
    if !text::same(response, "open") {
        return None;
    }
    match row {
        Some(i) => if i >= 0 && (i as usize) < choices.len() {
            Some(choices[i as usize])
        } else {
            None
        },
        None => None,
    }
}

// ── the context menu ───────────────────────────────────────────────────────

/// An item of the menu.
pub open spec fn shown_item(label: Seq<char>, action: Seq<char>, accel: Option<Seq<char>>) ->
    Option<menu::ItemView> {
    Some((label, action, accel))
}

/// The menu in the trash.
pub open spec fn trash_menu(selected: nat) -> Seq<Option<menu::ItemView>> {
    let first: Seq<Option<menu::ItemView>> = if selected > 0 {
        seq![
            shown_item("Restore"@, commands::action_name(Command::Restore), None),
            shown_item("Delete Permanently"@, commands::action_name(Command::DeletePermanently), Some("Shift+Delete"@)),
        ]
    } else {
        seq![]
    };
    menu::with_group(first, seq![shown_item("Empty Trash"@, commands::action_name(Command::EmptyTrash), None)])
}

/// The menu of a folder in which nothing is selected.
pub open spec fn folder_menu() -> Seq<Option<menu::ItemView>> {
    let one = seq![
        shown_item("New Folder"@, commands::action_name(Command::NewFolder), Some("Ctrl+Shift+N"@)),
        shown_item("New File"@, commands::action_name(Command::NewFile), Some("Ctrl+Shift+T"@)),
    ];
    let two = seq![
        shown_item("Paste"@, commands::action_name(Command::Paste), Some("Ctrl+V"@)),
        shown_item("Select All"@, commands::action_name(Command::SelectAll), Some("Ctrl+A"@)),
    ];
    let three = seq![
        shown_item("Open Terminal Here"@, commands::action_name(Command::OpenTerminal), Some("Ctrl+Alt+T"@)),
        shown_item("Add to Favourites"@, commands::action_name(Command::AddFavourite), Some("Ctrl+D"@)),
    ];
    let four = seq![shown_item("Properties"@, commands::action_name(Command::Properties), Some("Alt+Return"@))];
    menu::with_group(menu::with_group(menu::with_group(one, two), three), four)
}

/// The menu of a selection.
pub open spec fn selection_menu(single: bool, first_is_dir: bool, has_dir: bool, has_archive: bool)
    -> Seq<Option<menu::ItemView>> {
    let open = seq![shown_item("Open"@, commands::action_name(Command::Open), Some("Return"@))];
    let one = if single && first_is_dir {
        open.push(shown_item("Open in New Tab"@, commands::action_name(Command::OpenInNewTab), None))
    } else if single {
        open.push(shown_item("Open With…"@, commands::action_name(Command::OpenWith), None))
    } else {
        open
    };
    let clip = seq![
        shown_item("Cut"@, commands::action_name(Command::Cut), Some("Ctrl+X"@)),
        shown_item("Copy"@, commands::action_name(Command::Copy), Some("Ctrl+C"@)),
        shown_item("Copy Path"@, commands::action_name(Command::CopyPath), Some("Ctrl+Shift+C"@)),
    ];
    let two = if single {
        clip.push(shown_item("Rename…"@, commands::action_name(Command::Rename), Some("F2"@)))
    } else {
        clip
    };
    let extract: Seq<Option<menu::ItemView>> = if has_archive {
        seq![
            shown_item("Extract Here"@, commands::action_name(Command::ExtractHere), Some("Ctrl+E"@)),
            shown_item("Extract To…"@, commands::action_name(Command::ExtractTo), None),
        ]
    } else {
        seq![]
    };
    let three = extract.push(
        shown_item("Compress…"@, commands::action_name(Command::Compress), Some("Ctrl+Shift+E"@)),
    );
    let four = seq![
        shown_item("Move to Trash"@, commands::action_name(Command::Trash), Some("Delete"@)),
        shown_item("Delete Permanently"@, commands::action_name(Command::DeletePermanently), Some("Shift+Delete"@)),
        shown_item("Shred…"@, commands::action_name(Command::Shred), Some("Ctrl+Shift+Delete"@)),
    ];
    let favourite: Seq<Option<menu::ItemView>> = if has_dir {
        seq![shown_item("Add to Favourites"@, commands::action_name(Command::AddFavourite), Some("Ctrl+D"@))]
    } else {
        seq![]
    };
    let five = favourite.push(shown_item("Properties"@, commands::action_name(Command::Properties), Some("Alt+Return"@)));
    menu::with_group(
        menu::with_group(menu::with_group(menu::with_group(one, two), three), four),
        five,
    )
}

/// Whether one of the entries is a folder.
pub open spec fn any_dir(entries: Seq<FileEntry>) -> bool {
    exists|i: int| 0 <= i < entries.len() && (#[trigger] entries[i]).is_dir
}

/// The menu for a selection, in the trash or outside.
pub open spec fn menu_for(entries: Seq<FileEntry>, is_archive: Seq<bool>, in_trash: bool) -> Seq<
    Option<menu::ItemView>,
> {
    if in_trash {
        trash_menu(entries.len())
    } else if entries.len() == 0 {
        folder_menu()
    } else {
        selection_menu(
            entries.len() == 1,
            entries[0].is_dir,
            any_dir(entries),
            archives_among(entries, is_archive, entries.len()).len() > 0,
        )
    }
}

/// An item of the menu.
fn item(label: &'static str, command: Command, accel: Option<&'static str>) -> (r: MenuItem)
    ensures
        r.label == label,
        r.action@ == commands::action_name(command),
        r.accel == accel,
{
    MenuItem { label, action: command.action(), accel }
}

/// Whether one of the entries is a folder.
fn has_folder(entries: &[FileEntry]) -> (r: bool)
    ensures
        r == any_dir(entries@),
{
    let mut i: usize = 0;
    while i < entries.len()
        invariant
            i <= entries@.len(),
            forall|j: int| 0 <= j < i ==> !(#[trigger] entries@[j]).is_dir,
        decreases entries@.len() - i,
    {
        if entries[i].is_dir {
            return true;
        }
        i = i + 1;
    }
    false
}

/// Whether one of the entries is an archive.
fn holds_archive(entries: &[FileEntry], is_archive: &[bool]) -> (r: bool)
    ensures
        r == (archives_among(entries@, is_archive@, entries@.len()).len() > 0),
{
    let mut i: usize = 0;
    while i < entries.len()
        invariant
            i <= entries@.len(),
            archives_among(entries@, is_archive@, i as nat).len() == 0,
        decreases entries@.len() - i,
    {
        if !entries[i].is_dir && i < is_archive.len() && is_archive[i] {
            proof {
                lemma_archives_grow(
                    entries@,
                    is_archive@,
                    (i + 1) as nat,
                    entries@.len(),
                );
            }
            return true;
        }
        i = i + 1;
    }
    false
}

/// More entries hold no fewer archives.
proof fn lemma_archives_grow(entries: Seq<FileEntry>, is_archive: Seq<bool>, m: nat, n: nat)
    requires
        m <= n,
    ensures
        archives_among(entries, is_archive, m).len() <= archives_among(
            entries,
            is_archive,
            n,
        ).len(),
    decreases n,
{
    if m < n {
        lemma_archives_grow(entries, is_archive, m, (n - 1) as nat);
    }
}

/// Builds the right-click menu for a selection. `is_archive` says for each entry
/// whether its name is that of an archive.
pub fn show_context_menu(
    context_menu: &mut ContextMenu,
    selection: &[FileEntry],
    is_archive: &[bool],
    in_trash: bool,
)
    ensures
        final(context_menu).valid(),
        menu::row_views(final(context_menu).rows@) == menu_for(
            selection@,
            is_archive@,
            in_trash,
        ),
        final(context_menu).rows@.len() > 0,
{
    context_menu.begin();
    assert(menu::row_views(context_menu.rows@) =~= Seq::<Option<menu::ItemView>>::empty());
    if in_trash {
        trash_groups(context_menu, selection.len() > 0);
    } else if selection.len() == 0 {
        folder_groups(context_menu);
    } else {
        selection_groups(
            context_menu,
            selection.len() == 1,
            selection[0].is_dir,
            has_folder(selection),
            holds_archive(selection, is_archive),
        );
    }
    assert(menu::row_views(context_menu.rows@).len() == context_menu.rows@.len());
}

/// Fills the menu in the trash.
fn trash_groups(context_menu: &mut ContextMenu, any_selected: bool)
    requires
        old(context_menu).valid(),
        menu::row_views(old(context_menu).rows@).len() == 0,
    ensures
        final(context_menu).valid(),
        menu::row_views(final(context_menu).rows@) == trash_menu(
            if any_selected {
                1
            } else {
                0
            },
        ),
{
    let mut first: Vec<MenuItem> = Vec::new();
    if any_selected {
        first.push(item("Restore", Command::Restore, None));
        first.push(item("Delete Permanently", Command::DeletePermanently, Some("Shift+Delete")));
        assert(menu::item_views(first@) =~= seq![
            shown_item("Restore"@, commands::action_name(Command::Restore), None),
            shown_item("Delete Permanently"@, commands::action_name(Command::DeletePermanently), Some("Shift+Delete"@)),
        ]);
    } else {
        assert(menu::item_views(first@) =~= Seq::<Option<menu::ItemView>>::empty());
    }
    context_menu.group(&first);
    assert(menu::row_views(context_menu.rows@) =~= menu::item_views(first@));
    let mut second: Vec<MenuItem> = Vec::new();
    second.push(item("Empty Trash", Command::EmptyTrash, None));
    assert(menu::item_views(second@) =~= seq![
        shown_item("Empty Trash"@, commands::action_name(Command::EmptyTrash), None),
    ]);
    context_menu.group(&second);
}

/// Fills the menu of a folder in which nothing is selected.
fn folder_groups(context_menu: &mut ContextMenu)
    requires
        old(context_menu).valid(),
        menu::row_views(old(context_menu).rows@).len() == 0,
    ensures
        final(context_menu).valid(),
        menu::row_views(final(context_menu).rows@) == folder_menu(),
{
    let mut one: Vec<MenuItem> = Vec::new();
    one.push(item("New Folder", Command::NewFolder, Some("Ctrl+Shift+N")));
    one.push(item("New File", Command::NewFile, Some("Ctrl+Shift+T")));
    assert(menu::item_views(one@) =~= seq![
        shown_item("New Folder"@, commands::action_name(Command::NewFolder), Some("Ctrl+Shift+N"@)),
        shown_item("New File"@, commands::action_name(Command::NewFile), Some("Ctrl+Shift+T"@)),
    ]);
    context_menu.group(&one);
    let mut two: Vec<MenuItem> = Vec::new();
    two.push(item("Paste", Command::Paste, Some("Ctrl+V")));
    two.push(item("Select All", Command::SelectAll, Some("Ctrl+A")));
    assert(menu::item_views(two@) =~= seq![
        shown_item("Paste"@, commands::action_name(Command::Paste), Some("Ctrl+V"@)),
        shown_item("Select All"@, commands::action_name(Command::SelectAll), Some("Ctrl+A"@)),
    ]);
    context_menu.group(&two);
    let mut three: Vec<MenuItem> = Vec::new();
    three.push(item("Open Terminal Here", Command::OpenTerminal, Some("Ctrl+Alt+T")));
    three.push(item("Add to Favourites", Command::AddFavourite, Some("Ctrl+D")));
    assert(menu::item_views(three@) =~= seq![
        shown_item("Open Terminal Here"@, commands::action_name(Command::OpenTerminal), Some("Ctrl+Alt+T"@)),
        shown_item("Add to Favourites"@, commands::action_name(Command::AddFavourite), Some("Ctrl+D"@)),
    ]);
    context_menu.group(&three);
    let mut four: Vec<MenuItem> = Vec::new();
    four.push(item("Properties", Command::Properties, Some("Alt+Return")));
    assert(menu::item_views(four@) =~= seq![
        shown_item("Properties"@, commands::action_name(Command::Properties), Some("Alt+Return"@)),
    ]);
    context_menu.group(&four);
}

/// Fills the menu of a selection.
fn selection_groups(
    context_menu: &mut ContextMenu,
    single: bool,
    first_is_dir: bool,
    has_dir: bool,
    has_archive: bool,
)
    requires
        old(context_menu).valid(),
        menu::row_views(old(context_menu).rows@).len() == 0,
    ensures
        final(context_menu).valid(),
        menu::row_views(final(context_menu).rows@) == selection_menu(
            single,
            first_is_dir,
            has_dir,
            has_archive,
        ),
{
    let mut one: Vec<MenuItem> = Vec::new();
    one.push(item("Open", Command::Open, Some("Return")));
    if single && first_is_dir {
        one.push(item("Open in New Tab", Command::OpenInNewTab, None));
    } else if single {
        one.push(item("Open With…", Command::OpenWith, None));
    }
    let ghost open = seq![shown_item("Open"@, commands::action_name(Command::Open), Some("Return"@))];
    assert(menu::item_views(one@) =~= (if single && first_is_dir {
        open.push(shown_item("Open in New Tab"@, commands::action_name(Command::OpenInNewTab), None))
    } else if single {
        open.push(shown_item("Open With…"@, commands::action_name(Command::OpenWith), None))
    } else {
        open
    }));
    context_menu.group(&one);

    let mut two: Vec<MenuItem> = Vec::new();
    two.push(item("Cut", Command::Cut, Some("Ctrl+X")));
    two.push(item("Copy", Command::Copy, Some("Ctrl+C")));
    two.push(item("Copy Path", Command::CopyPath, Some("Ctrl+Shift+C")));
    if single {
        two.push(item("Rename…", Command::Rename, Some("F2")));
    }
    let ghost clip = seq![
        shown_item("Cut"@, commands::action_name(Command::Cut), Some("Ctrl+X"@)),
        shown_item("Copy"@, commands::action_name(Command::Copy), Some("Ctrl+C"@)),
        shown_item("Copy Path"@, commands::action_name(Command::CopyPath), Some("Ctrl+Shift+C"@)),
    ];
    assert(menu::item_views(two@) =~= (if single {
        clip.push(shown_item("Rename…"@, commands::action_name(Command::Rename), Some("F2"@)))
    } else {
        clip
    }));
    context_menu.group(&two);

    let mut three: Vec<MenuItem> = Vec::new();
    if has_archive {
        three.push(item("Extract Here", Command::ExtractHere, Some("Ctrl+E")));
        three.push(item("Extract To…", Command::ExtractTo, None));
    }
    three.push(item("Compress…", Command::Compress, Some("Ctrl+Shift+E")));
    let ghost extract: Seq<Option<menu::ItemView>> = if has_archive {
        seq![
            shown_item("Extract Here"@, commands::action_name(Command::ExtractHere), Some("Ctrl+E"@)),
            shown_item("Extract To…"@, commands::action_name(Command::ExtractTo), None),
        ]
    } else {
        seq![]
    };
    assert(menu::item_views(three@) =~= extract.push(
        shown_item("Compress…"@, commands::action_name(Command::Compress), Some("Ctrl+Shift+E"@)),
    ));
    context_menu.group(&three);

    let mut four: Vec<MenuItem> = Vec::new();
    four.push(item("Move to Trash", Command::Trash, Some("Delete")));
    four.push(item("Delete Permanently", Command::DeletePermanently, Some("Shift+Delete")));
    four.push(item("Shred…", Command::Shred, Some("Ctrl+Shift+Delete")));
    assert(menu::item_views(four@) =~= seq![
        shown_item("Move to Trash"@, commands::action_name(Command::Trash), Some("Delete"@)),
        shown_item("Delete Permanently"@, commands::action_name(Command::DeletePermanently), Some("Shift+Delete"@)),
        shown_item("Shred…"@, commands::action_name(Command::Shred), Some("Ctrl+Shift+Delete"@)),
    ]);
    context_menu.group(&four);

    let mut five: Vec<MenuItem> = Vec::new();
    if has_dir {
        five.push(item("Add to Favourites", Command::AddFavourite, Some("Ctrl+D")));
    }
    five.push(item("Properties", Command::Properties, Some("Alt+Return")));
    let ghost favourite: Seq<Option<menu::ItemView>> = if has_dir {
        seq![shown_item("Add to Favourites"@, commands::action_name(Command::AddFavourite), Some("Ctrl+D"@))]
    } else {
        seq![]
    };
    assert(menu::item_views(five@) =~= favourite.push(
        shown_item("Properties"@, commands::action_name(Command::Properties), Some("Alt+Return"@)),
    ));
    context_menu.group(&five);
}

/// Every selected file that is an archive is extracted, each once and in the
/// order of the selection, and nothing else is: the result gives, for each of
/// the archives, its place in the selection.
pub proof fn law_every_archive_is_extracted(
    entries: Seq<FileEntry>,
    is_archive: Seq<bool>,
    n: nat,
) -> (at: Seq<int>)
    requires
        n <= entries.len(),
        n <= is_archive.len(),
    ensures
        at.len() == archives_among(entries, is_archive, n).len(),
        forall|k: int|
            0 <= k < at.len() ==> 0 <= #[trigger] at[k] < n && !entries[at[k]].is_dir
                && is_archive[at[k]] && archives_among(entries, is_archive, n)[k]
                == entries[at[k]].path@,
        forall|j: int, k: int| 0 <= j < k < at.len() ==> #[trigger] at[j] < #[trigger] at[k],
        forall|i: int|
            0 <= i < n && !(#[trigger] entries[i]).is_dir && is_archive[i] ==> at.contains(i),
    decreases n,
{
    if n == 0 {
        Seq::empty()
    } else {
        let m = (n - 1) as nat;
        let front = law_every_archive_is_extracted(entries, is_archive, m);
        if !entries[n - 1].is_dir && is_archive[n - 1] {
            let at = front.push(n - 1);
            assert(archives_among(entries, is_archive, n) == archives_among(
                entries,
                is_archive,
                m,
            ).push(entries[n - 1].path@));
            assert forall|i: int|
                0 <= i < n && !(#[trigger] entries[i]).is_dir && is_archive[i] implies at.contains(
                i,
            ) by {
                if i < m {
                    let k = choose|k: int| 0 <= k < front.len() && front[k] == i;
                    assert(at[k] == i);
                } else {
                    assert(at[front.len() as int] == i);
                }
            }
            at
        } else {
            assert(archives_among(entries, is_archive, n) == archives_among(
                entries,
                is_archive,
                m,
            ));
            front
        }
    }
}

/// An item of the trash is restored exactly when it is at one of the given
/// paths, by where it came from for an undo and by where it is in the trash
/// otherwise, whatever else it is.
pub proof fn law_what_is_asked_for_is_restored(
    items: Seq<TrashItem>,
    paths: Seq<Seq<u8>>,
    n: nat,
    i: int,
)
    requires
        n <= items.len() <= usize::MAX,
        0 <= i < n,
    ensures
        restorable(items, paths, true, n).contains(i as usize) <==> exists|j: int|
            0 <= j < paths.len() && path::components(#[trigger] paths[j]) == path::components(
                items[i].original_path@,
            ),
        restorable(items, paths, false, n).contains(i as usize) <==> exists|j: int|
            0 <= j < paths.len() && path::components(#[trigger] paths[j]) == path::components(
                items[i].file_path@,
            ),
{
    lemma_restored(items, paths, true, n, i);
    lemma_restored(items, paths, false, n, i);
}

/// The items to restore are places in the trash, in its order and each once.
pub proof fn law_items_are_restored_once(
    items: Seq<TrashItem>,
    paths: Seq<Seq<u8>>,
    by_origin: bool,
    n: nat,
)
    requires
        n <= items.len() <= usize::MAX,
    ensures
        forall|k: int|
            0 <= k < restorable(items, paths, by_origin, n).len() ==> (#[trigger] restorable(
                items,
                paths,
                by_origin,
                n,
            )[k]) < n,
        forall|j: int, k: int|
            0 <= j < k < restorable(items, paths, by_origin, n).len() ==> (#[trigger] restorable(
                items,
                paths,
                by_origin,
                n,
            )[j]) < (#[trigger] restorable(items, paths, by_origin, n)[k]),
    decreases n,
{
    if n > 0 {
        let m = (n - 1) as nat;
        law_items_are_restored_once(items, paths, by_origin, m);
        let front = restorable(items, paths, by_origin, m);
        let all = restorable(items, paths, by_origin, n);
        assert(all == front || all == front.push(m as usize));
        assert forall|k: int| 0 <= k < all.len() implies (#[trigger] all[k]) < n by {
            if k < front.len() {
                assert(all[k] == front[k]);
            }
        }
        assert forall|j: int, k: int| 0 <= j < k < all.len() implies (#[trigger] all[j]) < (
        #[trigger] all[k]) by {
            assert(all[j] == front[j]);
            if k < front.len() {
                assert(all[k] == front[k]);
            }
        }
    }
}

/// An item is among those to restore exactly when it is at one of the paths.
proof fn lemma_restored(
    items: Seq<TrashItem>,
    paths: Seq<Seq<u8>>,
    by_origin: bool,
    n: nat,
    i: int,
)
    requires
        n <= items.len() <= usize::MAX,
        0 <= i < n,
    ensures
        restorable(items, paths, by_origin, n).contains(i as usize) <==> file_view::among(
            if by_origin {
                items[i].original_path@
            } else {
                items[i].file_path@
            },
            paths,
        ),
    decreases n,
{
    let m = (n - 1) as nat;
    let front = restorable(items, paths, by_origin, m);
    let all = restorable(items, paths, by_origin, n);
    law_items_are_restored_once(items, paths, by_origin, m);
    if i < m {
        lemma_restored(items, paths, by_origin, m, i);
        if front.contains(i as usize) {
            let k = choose|k: int| 0 <= k < front.len() && front[k] == i as usize;
            assert(all[k] == i as usize);
        }
        if all.contains(i as usize) {
            let k = choose|k: int| 0 <= k < all.len() && all[k] == i as usize;
            assert(front[k] == i as usize);
        }
    } else {
        if all.len() > front.len() {
            assert(all[front.len() as int] == i as usize);
        } else if all.contains(i as usize) {
            let k = choose|k: int| 0 <= k < all.len() && all[k] == i as usize;
            assert(front[k] < m);
        }
    }
}

/// What a paste brings is every file that was copied or cut, in order, to the
/// folder that is shown: moved where it was cut, and copied where it was not.
/// With nothing copied in this window the system's clipboard is read.
pub proof fn law_a_paste_brings_every_file(
    plan: PastePlan,
    clip: Clip,
    dest: Seq<u8>,
    other: PastePlan,
)
    requires
        pastes(plan, Some(clip), dest),
        pastes(other, None, dest),
    ensures
        plan is Transfer,
        plan->Transfer_0.sources@.len() == clip.paths@.len(),
        forall|i: int|
            0 <= i < clip.paths@.len() ==> (#[trigger] plan->Transfer_0.sources@[i])@
                == clip.paths@[i]@,
        plan->Transfer_0.dest@ == dest,
        plan->Transfer_0.is_move == clip.is_cut,
        other is ReadClipboard,
        other->ReadClipboard_0@ == dest,
        !clip.is_cut ==> after_paste(Some(clip)) == Some(clip),
        clip.is_cut ==> after_paste(Some(clip)) is None,
        after_paste(None) is None,
{
    let sources = plan->Transfer_0.sources@;
    assert(file_view::path_views(sources).len() == sources.len());
    assert(file_view::path_views(clip.paths@).len() == clip.paths@.len());
    assert forall|i: int| 0 <= i < clip.paths@.len() implies (#[trigger] sources[i])@
        == clip.paths@[i]@ by {
        assert(file_view::path_views(sources)[i] == file_view::path_views(clip.paths@)[i]);
    }
}

/// Files dropped on the folder they are in stay where they are; as soon as one
/// of them is from another folder, they are brought there.
pub proof fn law_a_drop_brings_what_is_elsewhere(
    paths: Seq<FilePath>,
    folder: Seq<u8>,
    other: Seq<u8>,
    name: Seq<u8>,
    k: int,
)
    requires
        path::is_name(name),
    ensures
        (forall|i: int|
            0 <= i < paths.len() ==> exists|n: Seq<u8>|
                path::is_name(n) && (#[trigger] paths[i])@ == #[trigger] path::joined(folder, n))
            ==> all_in(paths, folder),
        0 <= k < paths.len() && paths[k]@ == path::joined(other, name) && path::components(other)
            != path::components(folder) ==> !all_in(paths, folder),
        all_in(Seq::empty(), folder),
{
    if forall|i: int|
        0 <= i < paths.len() ==> exists|n: Seq<u8>|
            path::is_name(n) && (#[trigger] paths[i])@ == #[trigger] path::joined(folder, n) {
        assert forall|i: int| 0 <= i < paths.len() implies (path::parent(
            (#[trigger] paths[i])@,
        ) matches Some(parent) && path::components(parent) == path::components(folder)) by {
            let n = choose|n: Seq<u8>|
                path::is_name(n) && paths[i]@ == #[trigger] path::joined(folder, n);
            path::law_parent_of_an_entry(folder, n);
        }
    }
    path::law_parent_of_an_entry(other, name);
}

/// An archive is first run without a password; one is asked for only where a run
/// without one failed for want of it, and an archive whose password is not
/// given is left. Otherwise the run was the last one.
pub proof fn law_a_password_is_asked_for_when_needed(given: bool, required: bool)
    ensures
        extract_next(ExtractEvent::Start) == (ExtractStep::Run { password_given: false }),
        extract_next(ExtractEvent::Ran { password_given: given, password_required: required })
            == ExtractStep::Ask <==> required && !given,
        extract_next(ExtractEvent::Ran { password_given: given, password_required: required })
            == ExtractStep::Finish <==> !required || given,
        extract_next(ExtractEvent::Entered { given: false }) == ExtractStep::Stop,
{
}

/// The suggested name of an archive of one item is that item's name up to its
/// last dot; that of several items is the name of their folder, and `archive`
/// in the root.
pub proof fn law_archives_are_named_after_their_contents(
    entries: Seq<FileEntry>,
    folder: Seq<u8>,
    name: Seq<u8>,
    stem: Seq<u8>,
    word: Seq<u8>,
)
    requires
        path::is_name(name),
        stem.len() > 0,
        path::is_name(stem + seq![46u8] + word),
        !word.contains(46u8),
    ensures
        entries.len() == 1 && entries[0].path@ == path::joined(folder, stem + seq![46u8] + word)
            ==> archive_stem(entries, Some(folder)) == outside::lossy(stem),
        entries.len() == 1 && entries[0].path@ == path::joined(folder, name) && !name.contains(46u8)
            ==> archive_stem(entries, Some(folder)) == outside::lossy(name),
        entries.len() > 1 ==> archive_stem(entries, Some(path::joined(folder, name)))
            == outside::lossy(name),
        entries.len() > 1 ==> archive_stem(entries, Some(seq![47u8])) == "archive"@,
        entries.len() > 1 ==> archive_stem(entries, None) == "archive"@,
        entries.len() == 1 && path::is_name(seq![46u8] + word) && entries[0].path@ == path::joined(
            folder,
            seq![46u8] + word,
        ) ==> archive_stem(entries, Some(folder)) == outside::lossy(seq![46u8] + word),
{
    path::law_join_appends_a_name(folder, stem + seq![46u8] + word);
    path::law_join_appends_a_name(folder, name);
    path::law_the_stem_ends_at_the_last_dot(stem, word);
    if path::is_name(seq![46u8] + word) {
        path::law_join_appends_a_name(folder, seq![46u8] + word);
    }
    if !name.contains(46u8) {
        path::law_the_stem_ends_at_the_last_dot(stem, name);
    }
    assert(seq![65u8][0] != seq![46u8][0]);
    path::law_the_name_stands_last(folder, seq![65u8]);
}

/// The folder that becomes a favourite is the first folder of the selection;
/// there is none where no folder is selected.
pub proof fn law_the_first_folder_is_taken(entries: Seq<FileEntry>, i: int)
    ensures
        0 <= i < entries.len() && entries[i].is_dir && (forall|j: int|
            0 <= j < i ==> !(#[trigger] entries[j]).is_dir) ==> first_folder(entries) == Some(
            entries[i].path@,
        ),
        (forall|j: int| 0 <= j < entries.len() ==> !(#[trigger] entries[j]).is_dir)
            ==> first_folder(entries) is None,
    decreases entries.len(),
{
    if entries.len() > 0 && !entries[0].is_dir {
        let rest = entries.skip(1);
        law_the_first_folder_is_taken(rest, i - 1);
        assert forall|j: int| 0 <= j < rest.len() implies #[trigger] rest[j] == entries[j + 1] by {}
        if 0 < i < entries.len() {
            assert(rest[i - 1] == entries[i]);
        }
    }
}

/// The terminals to try are the user's choice, where there is one, and then all
/// that are known, in their order.
pub proof fn law_the_chosen_terminal_is_tried_first(preferred: &str, i: int)
    requires
        0 <= i < TERMINALS@.len(),
    ensures
        terminals(Some(preferred)).len() == TERMINALS@.len() + 1,
        terminals(Some(preferred))[0] == preferred@,
        terminals(Some(preferred))[i + 1] == TERMINALS@[i]@,
        terminals(None).len() == TERMINALS@.len(),
        terminals(None)[i] == TERMINALS@[i]@,
{
}

/// Each application for a type is offered, the recommended ones first and in
/// their order; none is offered that claims neither, and none of the others is
/// offered twice or beside a recommended one that is the same.
#[verifier::spinoff_prover]
#[verifier::rlimit(80)]
pub proof fn law_every_application_is_offered_once(
    recommended: Seq<Option<Seq<char>>>,
    all: Seq<Option<Seq<char>>>,
)
    ensures
        recommended.is_prefix_of(ordered_ids(recommended, all)),
        forall|x: Option<Seq<char>>| #[trigger]
            ordered_ids(recommended, all).contains(x) <==> recommended.contains(x) || all.contains(
                x,
            ),
        forall|i: int, j: int|
            0 <= i < j < ordered_ids(recommended, all).len() && recommended.len() <= j
                ==> #[trigger] ordered_ids(recommended, all)[i] != #[trigger] ordered_ids(
                recommended,
                all,
            )[j],
    decreases all.len(),
{
    let r = ordered_ids(recommended, all);
    if all.len() > 0 {
        law_every_application_is_offered_once(recommended, all.drop_last());
        let front = ordered_ids(recommended, all.drop_last());
        assert(r == front || r == front.push(all.last()));
        assert(all =~= all.drop_last().push(all.last()));
        assert forall|x: Option<Seq<char>>| #[trigger] r.contains(x) <==> recommended.contains(x)
            || all.contains(x) by {
            if all.contains(x) {
                let k = choose|k: int| 0 <= k < all.len() && all[k] == x;
                if k < all.len() - 1 {
                    assert(all.drop_last()[k] == x);
                    assert(front.contains(x));
                } else {
                    assert(x == all.last());
                    if r.len() > front.len() {
                        assert(r[front.len() as int] == x);
                    }
                }
            }
            if front.contains(x) {
                let k = choose|k: int| 0 <= k < front.len() && front[k] == x;
                assert(r[k] == x);
                if all.drop_last().contains(x) {
                    let m = choose|m: int|
                        0 <= m < all.drop_last().len() && all.drop_last()[m] == x;
                    assert(all[m] == x);
                }
            }
            if r.contains(x) && !front.contains(x) {
                let k = choose|k: int| 0 <= k < r.len() && r[k] == x;
                if k < front.len() {
                    assert(front[k] == x);
                }
                assert(all[all.len() - 1] == x);
            }
        }
        assert forall|i: int, j: int|
            0 <= i < j < r.len() && recommended.len() <= j implies #[trigger] r[i]
            != #[trigger] r[j] by {
            assert(r[i] == front[i]);
            if j < front.len() {
                assert(r[j] == front[j]);
            } else {
                assert(front.contains(front[i]));
            }
        }
        assert(recommended =~= r.subrange(0, recommended.len() as int));
    } else {
        assert(recommended =~= r.subrange(0, recommended.len() as int));
        assert(all =~= Seq::<Option<Seq<char>>>::empty());
    }
}

/// What is put on the system's clipboard says first whether the files were cut
/// or copied, and then names each file on a line of its own.
pub proof fn law_the_clipboard_names_every_file(uris: Seq<Seq<char>>, uri: Seq<char>)
    ensures
        copy_payload(true, seq![uri]) == "cut\n"@ + uri,
        copy_payload(false, seq![uri]) == "copy\n"@ + uri,
        uris.len() > 0 ==> copy_payload(true, uris.push(uri)) == copy_payload(true, uris) + "\n"@
            + uri,
        uris.len() > 0 ==> copy_payload(false, uris.push(uri)) == copy_payload(false, uris) + "\n"@
            + uri,
{
    text::law_joining_parts(uris, uri, "\n"@);
    assert("cut\n"@ + (text::joined(uris, "\n"@) + "\n"@ + uri) =~= "cut\n"@ + text::joined(
        uris,
        "\n"@,
    ) + "\n"@ + uri);
    assert("copy\n"@ + (text::joined(uris, "\n"@) + "\n"@ + uri) =~= "copy\n"@ + text::joined(
        uris,
        "\n"@,
    ) + "\n"@ + uri);
}

/// Copied paths stand one on each line, in order.
pub proof fn law_each_path_has_a_line(paths: Seq<FilePath>, p: FilePath)
    ensures
        paths_text(seq![p]) == outside::lossy(p@),
        paths.len() > 0 ==> paths_text(paths.push(p)) == paths_text(paths) + "\n"@ + outside::lossy(
            p@,
        ),
{
    let f = |q: FilePath| outside::lossy(q@);
    text::law_joining_parts(paths.map_values(f), outside::lossy(p@), "\n"@);
    assert(paths.push(p).map_values(f) =~= paths.map_values(f).push(outside::lossy(p@)));
    assert(seq![p].map_values(f) =~= seq![outside::lossy(p@)]);
}

/// Whether a menu has an item with that text for a command, and with those keys.
pub open spec fn offers(
    rows: Seq<Option<menu::ItemView>>,
    label: Seq<char>,
    command: Command,
    keys: Option<Seq<char>>,
) -> bool {
    exists|i: int|
        0 <= i < rows.len() && #[trigger] rows[i] == Some(
            (label, commands::action_name(command), keys),
        )
}

/// In the trash the menu empties it, and restores and deletes what is selected;
/// it has nothing else.
pub proof fn law_the_menu_of_the_trash(selected: nat)
    ensures
        offers(trash_menu(selected), "Empty Trash"@, Command::EmptyTrash, None),
        selected > 0 ==> offers(trash_menu(selected), "Restore"@, Command::Restore, None),
        selected > 0 ==> offers(
            trash_menu(selected),
            "Delete Permanently"@,
            Command::DeletePermanently, Some("Shift+Delete"@),
        ),
        trash_menu(selected).len() == (if selected > 0 {
            4int
        } else {
            1int
        }),
{
    let rows = trash_menu(selected);
    assert(rows[rows.len() - 1] == shown_item(
        "Empty Trash"@,
        commands::action_name(Command::EmptyTrash),
        None,
    ));
    if selected > 0 {
        assert(rows[0] is Some);
        assert(rows[1] is Some);
    }
}

/// The menu of a folder makes things in it, pastes into it and shows it.
#[verifier::spinoff_prover]
#[verifier::rlimit(80)]
pub proof fn law_the_menu_of_a_folder()
    ensures
        offers(folder_menu(), "New Folder"@, Command::NewFolder, Some("Ctrl+Shift+N"@)),
        offers(folder_menu(), "New File"@, Command::NewFile, Some("Ctrl+Shift+T"@)),
        offers(folder_menu(), "Paste"@, Command::Paste, Some("Ctrl+V"@)),
        offers(folder_menu(), "Select All"@, Command::SelectAll, Some("Ctrl+A"@)),
        offers(folder_menu(), "Open Terminal Here"@, Command::OpenTerminal, Some("Ctrl+Alt+T"@)),
        offers(folder_menu(), "Add to Favourites"@, Command::AddFavourite, Some("Ctrl+D"@)),
        offers(folder_menu(), "Properties"@, Command::Properties, Some("Alt+Return"@)),
        folder_menu().len() == 10,
{
    let rows = folder_menu();
    assert(rows[0] is Some && rows[1] is Some && rows[3] is Some && rows[4] is Some);
    assert(rows[6] is Some && rows[7] is Some && rows[9] is Some);
}

/// The menu of a selection opens, copies, compresses and deletes it, whatever it
/// is. A single item can be renamed, and opened in a new tab where it is a
/// folder or with a chosen application where it is none; archives can be
/// extracted, and folders become favourites. It has nothing else.
#[verifier::spinoff_prover]
#[verifier::rlimit(80)]
pub proof fn law_the_menu_of_a_selection(single: bool, dir: bool, has_dir: bool, has_archive: bool)
    ensures
        ({
            let rows = selection_menu(single, dir, has_dir, has_archive);
            &&& offers(rows, "Open"@, Command::Open, Some("Return"@))
            &&& single && dir ==> offers(rows, "Open in New Tab"@, Command::OpenInNewTab, None)
            &&& single && !dir ==> offers(rows, "Open With…"@, Command::OpenWith, None)
            &&& offers(rows, "Cut"@, Command::Cut, Some("Ctrl+X"@))
            &&& offers(rows, "Copy"@, Command::Copy, Some("Ctrl+C"@))
            &&& offers(rows, "Copy Path"@, Command::CopyPath, Some("Ctrl+Shift+C"@))
            &&& single ==> offers(rows, "Rename…"@, Command::Rename, Some("F2"@))
            &&& has_archive ==> offers(rows, "Extract Here"@, Command::ExtractHere, Some("Ctrl+E"@))
            &&& has_archive ==> offers(rows, "Extract To…"@, Command::ExtractTo, None)
            &&& offers(rows, "Compress…"@, Command::Compress, Some("Ctrl+Shift+E"@))
            &&& offers(rows, "Move to Trash"@, Command::Trash, Some("Delete"@))
            &&& offers(rows, "Delete Permanently"@, Command::DeletePermanently, Some("Shift+Delete"@))
            &&& offers(rows, "Shred…"@, Command::Shred, Some("Ctrl+Shift+Delete"@))
            &&& has_dir ==> offers(rows, "Add to Favourites"@, Command::AddFavourite, Some("Ctrl+D"@))
            &&& offers(rows, "Properties"@, Command::Properties, Some("Alt+Return"@))
            &&& rows.len() == 13 + (if single {
                2int
            } else {
                0int
            }) + (if has_archive {
                2int
            } else {
                0int
            }) + (if has_dir {
                1int
            } else {
                0int
            })
        }),
{
    let rows = selection_menu(single, dir, has_dir, has_archive);
    let one = if single {
        1int
    } else {
        0int
    };
    let two = if has_archive {
        2int
    } else {
        0int
    };
    let b = 2 + one;
    let c = b + 4 + one;
    let d = c + two + 2;
    let f = d + 4;
    assert(rows[0] is Some);
    if single {
        assert(rows[1] is Some);
        assert(rows[b + 3] is Some);
    }
    assert(rows[b] is Some && rows[b + 1] is Some && rows[b + 2] is Some);
    if has_archive {
        assert(rows[c] is Some && rows[c + 1] is Some);
    }
    assert(rows[c + two] is Some);
    assert(rows[d] is Some && rows[d + 1] is Some && rows[d + 2] is Some);
    if has_dir {
        assert(rows[f] is Some);
        assert(rows[f + 1] is Some);
    } else {
        assert(rows[f] is Some);
    }
}

/// The menu is that of the trash inside it; elsewhere it is that of the folder
/// where nothing is selected, and that of the selection otherwise.
pub proof fn law_the_menu_goes_by_the_selection(
    entries: Seq<FileEntry>,
    is_archive: Seq<bool>,
    i: int,
)
    requires
        entries.len() == is_archive.len(),
    ensures
        menu_for(entries, is_archive, true) == trash_menu(entries.len()),
        entries.len() == 0 ==> menu_for(entries, is_archive, false) == folder_menu(),
        entries.len() == 1 ==> menu_for(entries, is_archive, false) == selection_menu(
            true,
            entries[0].is_dir,
            entries[0].is_dir,
            is_archive[0] && !entries[0].is_dir,
        ),
        entries.len() > 1 && 0 <= i < entries.len() && entries[i].is_dir ==> offers(
            menu_for(entries, is_archive, false),
            "Add to Favourites"@,
            Command::AddFavourite, Some("Ctrl+D"@),
        ),
        entries.len() > 1 && 0 <= i < entries.len() && !entries[i].is_dir && is_archive[i]
            ==> offers(
            menu_for(entries, is_archive, false),
            "Extract Here"@,
            Command::ExtractHere, Some("Ctrl+E"@),
        ),
{
    let n = entries.len();
    let at = law_every_archive_is_extracted(entries, is_archive, n);
    if n == 1 {
        assert(any_dir(entries) == entries[0].is_dir);
        if is_archive[0] && !entries[0].is_dir {
            assert(at.contains(0));
        } else if at.len() > 0 {
            assert(at[0] == 0);
        }
    }
    if n > 1 && 0 <= i < n {
        law_the_menu_of_a_selection(false, entries[0].is_dir, any_dir(entries), archives_among(
            entries,
            is_archive,
            n,
        ).len() > 0);
        if entries[i].is_dir {
            assert(any_dir(entries));
        } else if is_archive[i] {
            assert(at.contains(i));
        }
    }
}

/// What the end of a job shows is one thing: its failures or an error, in a
/// dialog with that heading, or a message, which alone can offer to undo it.
pub proof fn law_the_end_of_a_job_shows_one_thing(
    end: JobEnd,
    heading: Seq<char>,
    body: Seq<char>,
    errors: Seq<(FilePath, String)>,
    said: Option<Seq<char>>,
    undo: bool,
)
    ensures
        shows_error(end, heading, body) ==> end.alert is Some && end.alert->0@.heading == heading
            && end.alert->0@.body == Some(body) && end.toast is None && !end.undo,
        shows_failures(end, heading, errors) ==> end.alert is Some && end.alert->0@.heading
            == heading && end.alert->0@.body == Some(
            text::trimmed_end(dialogs::failures_text(errors)),
        ) && end.toast is None && !end.undo,
        says(end, said, undo) ==> end.alert is None && end.undo == undo && (end.toast is Some
            <==> said is Some) && (end.toast matches Some(t) ==> t@ == said->0),
{
}

/// What is said of the clipboard and of a transfer: how many files were copied
/// or cut, or that none was selected, and how much was copied or moved.
pub proof fn law_toasts_say_what_was_done(what: Seq<char>, n: nat, bytes: u64)
    ensures
        nothing_selected_text(what) == "Select something to "@ + what,
        n > 0 ==> copy_toast(true, n) == "Cut "@ + chrome::counted(n, " item"@),
        n > 0 ==> copy_toast(false, n) == "Copied "@ + chrome::counted(n, " item"@),
        copy_toast(true, 0) == "Select something to cut"@,
        copy_toast(false, 0) == "Select something to copy"@,
        transfer_text(true, bytes, n) == "Moved "@ + outside::size_text(bytes) + " in "@
            + chrome::counted(n, " item"@),
        transfer_text(false, bytes, n) == "Copied "@ + outside::size_text(bytes) + " in "@
            + chrome::counted(n, " item"@),
{
}

/// A prompt for a name shows the name at first, with all of it selected or, for
/// a file that has one, with the part before its extension selected; Enter
/// accepts it.
pub proof fn law_prompts_show_the_name(
    prompt: TextPrompt,
    heading: Seq<char>,
    initial: Seq<char>,
    label: Seq<char>,
    stem: bool,
)
    requires
        asks_name(prompt, heading, initial, label, stem),
    ensures
        prompt.initial@ == initial,
        prompt.alert@.heading == heading,
        prompt.alert@.responses[1] == ("accept"@, label, dialogs::Appearance::Suggested),
        prompt.alert@.default_response == "accept"@,
        prompt.alert@.close_response == "cancel"@,
        !stem ==> prompt.selected is None,
        stem && dialogs::stem_chars(initial) is Some ==> prompt.selected is Some
            && prompt.selected->0 == dialogs::stem_chars(initial)->0,
{
}

/// An error has a heading, a text and one answer.
pub proof fn law_errors_are_acknowledged(heading: Seq<char>, body: Seq<char>, after: Seq<char>)
    ensures
        error_alert(heading, body).heading == heading,
        error_alert(heading, body).body == Some(body),
        error_alert(heading, body).responses == seq![
            ("ok"@, "OK"@, dialogs::Appearance::Plain),
        ],
        error_alert(heading, body).close_response == "ok"@,
        around(heading, body, after) == heading + body + after,
{
}

} // verus!
