//! Modal dialogs: what each of them says, which answers it offers, and what
//! the user's answer means.

use crate::outside;
use crate::path;
use crate::path::FilePath;
use crate::sidebar;
use crate::text;
use vstd::prelude::*;
use vstd::string::*;
use vstd::utf8::*;

verus! {

// ── alerts ─────────────────────────────────────────────────────────────────

/// How an answer is drawn.
#[derive(Clone, Copy, Debug, PartialEq, Eq, Structural)]
pub enum Appearance {
    /// As it is.
    Plain,
    /// As the answer to expect.
    Suggested,
    /// In red.
    Destructive,
}

/// An answer that a dialog offers.
#[derive(Debug)]
pub struct Response {
    /// What it is known by.
    pub id: &'static str,
    /// Its text.
    pub label: String,
    /// How it is drawn.
    pub appearance: Appearance,
}

/// A dialog with a heading, a text and some answers.
#[derive(Debug)]
pub struct Alert {
    /// The heading.
    pub heading: String,
    /// The text.
    pub body: Option<String>,
    /// The answers.
    pub responses: Vec<Response>,
    /// The answer that Enter gives.
    pub default_response: &'static str,
    /// The answer that closing the dialog gives.
    pub close_response: &'static str,
}

/// The plain values of an answer.
pub type ResponseView = (Seq<char>, Seq<char>, Appearance);

/// The plain values of a dialog.
pub struct AlertView {
    /// The heading.
    pub heading: Seq<char>,
    /// The text.
    pub body: Option<Seq<char>>,
    /// The answers.
    pub responses: Seq<ResponseView>,
    /// The answer that Enter gives.
    pub default_response: Seq<char>,
    /// The answer that closing the dialog gives.
    pub close_response: Seq<char>,
}

/// The plain values of some answers.
pub open spec fn response_views(responses: Seq<Response>) -> Seq<ResponseView> {
    responses.map_values(|r: Response| (r.id@, r.label@, r.appearance))
}

impl View for Alert {
    type V = AlertView;

    open spec fn view(&self) -> AlertView {
        AlertView {
            heading: self.heading@,
            body: sidebar::text_of(self.body),
            responses: response_views(self.responses@),
            default_response: self.default_response@,
            close_response: self.close_response@,
        }
    }
}

/// Closing the dialog is one of its answers, and so is Enter.
pub open spec fn answerable(alert: AlertView) -> bool {
    &&& exists|i: int|
        0 <= i < alert.responses.len() && (#[trigger] alert.responses[i]).0
            == alert.close_response
    &&& exists|i: int|
        0 <= i < alert.responses.len() && (#[trigger] alert.responses[i]).0
            == alert.default_response
}

/// An answer.
fn response(id: &'static str, label: &str, appearance: Appearance) -> (r: Response)
    ensures
        r.id@ == id@ && r.label@ == label@ && r.appearance == appearance,
{
    Response { id, label: text::copied(label), appearance }
}

/// A dialog that can be cancelled or accepted.
pub open spec fn two_way(
    heading: Seq<char>,
    body: Option<Seq<char>>,
    accept: Seq<char>,
    accept_label: Seq<char>,
    appearance: Appearance,
    default_response: Seq<char>,
) -> AlertView {
    AlertView {
        heading,
        body,
        responses: seq![
            ("cancel"@, "Cancel"@, Appearance::Plain),
            (accept, accept_label, appearance),
        ],
        default_response,
        close_response: "cancel"@,
    }
}

/// A dialog that can be cancelled or accepted.
pub fn two_way_alert(
    heading: &str,
    body: Option<String>,
    accept: &'static str,
    accept_label: &str,
    appearance: Appearance,
    default_response: &'static str,
) -> (r: Alert)
    ensures
        r@ == two_way(
            heading@,
            sidebar::text_of(body),
            accept@,
            accept_label@,
            appearance,
            default_response@,
        ),
{
    let mut responses: Vec<Response> = Vec::new();
    responses.push(response("cancel", "Cancel", Appearance::Plain));
    responses.push(response(accept, accept_label, appearance));
    assert(response_views(responses@) =~= seq![
        ("cancel"@, "Cancel"@, Appearance::Plain),
        (accept@, accept_label@, appearance),
    ]);
    Alert {
        heading: text::copied(heading),
        body,
        responses,
        default_response,
        close_response: "cancel",
    }
}

/// Every dialog that can be cancelled or accepted can be closed, and Enter
/// gives one of its answers.
pub proof fn law_two_way_dialogs_are_answerable(
    heading: Seq<char>,
    body: Option<Seq<char>>,
    accept: Seq<char>,
    accept_label: Seq<char>,
    appearance: Appearance,
    accept_is_default: bool,
)
    ensures
        answerable(
            two_way(
                heading,
                body,
                accept,
                accept_label,
                appearance,
                if accept_is_default {
                    accept
                } else {
                    "cancel"@
                },
            ),
        ),
{
    let alert = two_way(
        heading,
        body,
        accept,
        accept_label,
        appearance,
        if accept_is_default {
            accept
        } else {
            "cancel"@
        },
    );
    assert(alert.responses[0].0 == "cancel"@);
    assert(alert.responses[1].0 == accept);
}

// ── questions and errors ───────────────────────────────────────────────────

/// A yes/no question. `destructive` styles the accept button in red.
pub fn confirm(heading: &str, body: &str, accept_label: &str, destructive: bool) -> (r: Alert)
    ensures
        r@ == two_way(
            heading@,
            Some(body@),
            "accept"@,
            accept_label@,
            if destructive {
                Appearance::Destructive
            } else {
                Appearance::Suggested
            },
            "cancel"@,
        ),
{
    two_way_alert(
        heading,
        Some(text::copied(body)),
        "accept",
        accept_label,
        if destructive {
            Appearance::Destructive
        } else {
            Appearance::Suggested
        },
        "cancel",
    )
}

/// Whether an answer accepts.
pub fn accepted(response: &str) -> (r: bool)
    ensures
        r == (response@ == "accept"@),
{
    text::same(response, "accept")
}

/// An error. There is nothing to decide.
pub fn show_error(heading: &str, body: &str) -> (r: Alert)
    ensures
        r@ == (AlertView {
            heading: heading@,
            body: Some(body@),
            responses: seq![("ok"@, "OK"@, Appearance::Plain)],
            default_response: "ok"@,
            close_response: "ok"@,
        }),
{
    let mut responses: Vec<Response> = Vec::new();
    responses.push(response("ok", "OK", Appearance::Plain));
    assert(response_views(responses@) =~= seq![("ok"@, "OK"@, Appearance::Plain)]);
    Alert {
        heading: text::copied(heading),
        body: Some(text::copied(body)),
        responses,
        default_response: "ok",
        close_response: "ok",
    }
}

// ── a line of text ─────────────────────────────────────────────────────────

/// A dialog that asks for a line of text.
#[derive(Debug)]
pub struct TextPrompt {
    /// The dialog.
    pub alert: Alert,
    /// The text that the entry starts with.
    pub initial: String,
    /// How many characters from its start are selected; all of them where this
    /// is not given.
    pub selected: Option<usize>,
    /// Whether the text can be accepted as it is.
    pub accept_enabled: bool,
}

/// How many characters of a name stand before its extension, where it has a
/// name at all.
pub open spec fn stem_chars(initial: Seq<char>) -> Option<nat> {
    match path::file_stem(encode_utf8(initial)) {
        Some(stem) => Some(outside::lossy(stem).len()),
        None => None,
    }
}

/// Prompts for a single line of text.
///
/// `select_stem` selects only the part before the extension, which is what you
/// want when renaming `photo.jpg` and almost never want otherwise.
pub fn prompt_text(
    heading: &str,
    body: Option<&str>,
    initial: &str,
    accept_label: &str,
    select_stem: bool,
) -> (r: TextPrompt)
    ensures
        r.alert@ == two_way(
            heading@,
            (match body {
                Some(b) => Some(b@),
                None => None,
            }),
            "accept"@,
            accept_label@,
            Appearance::Suggested,
            "accept"@,
        ),
        r.initial@ == initial@,
        match (r.selected, stem_chars(initial@)) {
            (Some(n), Some(m)) => select_stem && n == m,
            (None, None) => true,
            (None, Some(_)) => !select_stem,
            (Some(_), None) => false,
        },
        r.accept_enabled == (text::trimmed(initial@).len() > 0),
{
    let selected: Option<usize> = if select_stem {
        match FilePath::new(initial).file_stem_text() {
            Some(stem) => Some(text::chars_of(stem.as_str()).len()),
            None => None,
        }
    } else {
        None
    };
    let alert = two_way_alert(
        heading,
        match body {
            Some(b) => Some(text::copied(b)),
            None => None,
        },
        "accept",
        accept_label,
        Appearance::Suggested,
        "accept",
    );
    TextPrompt {
        alert,
        initial: text::copied(initial),
        selected,
        accept_enabled: is_filled(initial),
    }
}

/// Whether a text can be accepted: an empty name can never be valid.
pub fn is_filled(text: &str) -> (r: bool)
    ensures
        r == (text::trimmed(text@).len() > 0),
{
    text::trim_chars(text).len() > 0
}

/// The text that was entered, where it was accepted.
pub fn entered_text(response: &str, entered: &str) -> (r: Option<String>)
    ensures
        r is Some <==> response@ == "accept"@,
        r matches Some(s) ==> s@ == text::trimmed(entered@),
{
    if accepted(response) {
        Some(text::trim(entered))
    } else {
        None
    }
}

// ── conflicts ──────────────────────────────────────────────────────────────

/// What to do about an existing destination.
#[derive(Clone, Copy, Debug, PartialEq, Eq, Structural)]
pub enum ConflictChoice {
    /// Leave it alone.
    Skip,
    /// Leave all that follow alone.
    SkipAll,
    /// Keep both.
    Rename,
    /// Keep both, for all that follow.
    RenameAll,
    /// Overwrite it.
    Replace,
    /// Overwrite all that follow.
    ReplaceAll,
    /// Stop.
    Cancel,
}

/// The dialog about an existing destination.
#[derive(Debug)]
pub struct ConflictDialog {
    /// The dialog.
    pub alert: Alert,
    /// The captions of the two files' details: the existing one's first.
    pub captions: (&'static str, &'static str),
    /// The text of the box that answers for all that follow, where it is
    /// offered.
    pub apply_to_all: Option<&'static str>,
}

/// The name of the file at a path, or nothing where it has none.
pub open spec fn name_or_nothing(p: Seq<u8>) -> Seq<char> {
    match path::file_name(p) {
        Some(name) => outside::lossy(name),
        None => ""@,
    }
}

/// The name of the file at a path.
pub fn shown_name(p: &FilePath) -> (r: String)
    ensures
        r@ == name_or_nothing(p@),
{
    match p.file_name_text() {
        Some(name) => name,
        None => text::copied(""),
    }
}

/// The text of the dialog about an existing destination.
pub open spec fn conflict_text(dest: Seq<u8>) -> Seq<char> {
    "“"@ + name_or_nothing(dest) + "” already exists in "@ + (match path::parent(dest) {
        Some(parent) => outside::lossy(parent),
        None => ""@,
    }) + ".\n\nReplacing it overwrites the existing file permanently."@
}

/// The dialog about an existing destination during a copy or move. It shows
/// both files' details so the choice is informed rather than a guess.
pub fn resolve_conflict(dest: &FilePath, apply_to_all_possible: bool) -> (r: ConflictDialog)
    ensures
        r.alert@ == (AlertView {
            heading: "A file with that name already exists"@,
            body: Some(conflict_text(dest@)),
            responses: seq![
                ("cancel"@, "Cancel"@, Appearance::Plain),
                ("skip"@, "Skip"@, Appearance::Plain),
                ("rename"@, "Keep Both"@, Appearance::Plain),
                ("replace"@, "Replace"@, Appearance::Destructive),
            ],
            default_response: "rename"@,
            close_response: "cancel"@,
        }),
        r.captions.0@ == "Existing file"@,
        r.captions.1@ == "New file"@,
        r.apply_to_all is Some <==> apply_to_all_possible,
        r.apply_to_all matches Some(label) ==> label@ == "Apply this to all remaining conflicts"@,
{
    let mut body = text::copied("“");
    body.append(shown_name(dest).as_str());
    body.append("” already exists in ");
    match dest.parent() {
        Some(parent) => body.append(parent.display().as_str()),
        None => body.append(""),
    }
    body.append(".\n\nReplacing it overwrites the existing file permanently.");
    let mut responses: Vec<Response> = Vec::new();
    responses.push(response("cancel", "Cancel", Appearance::Plain));
    responses.push(response("skip", "Skip", Appearance::Plain));
    responses.push(response("rename", "Keep Both", Appearance::Plain));
    responses.push(response("replace", "Replace", Appearance::Destructive));
    assert(response_views(responses@) =~= seq![
        ("cancel"@, "Cancel"@, Appearance::Plain),
        ("skip"@, "Skip"@, Appearance::Plain),
        ("rename"@, "Keep Both"@, Appearance::Plain),
        ("replace"@, "Replace"@, Appearance::Destructive),
    ]);
    ConflictDialog {
        alert: Alert {
            heading: text::copied("A file with that name already exists"),
            body: Some(body),
            responses,
            default_response: "rename",
            close_response: "cancel",
        },
        captions: ("Existing file", "New file"),
        apply_to_all: if apply_to_all_possible {
            Some("Apply this to all remaining conflicts")
        } else {
            None
        },
    }
}

/// What an answer to the dialog means. The box counts only where it was
/// offered.
pub open spec fn choice_for(response: Seq<char>, checked: bool, offered: bool) -> ConflictChoice {
    let all = offered && checked;
    if response == "skip"@ {
        if all {
            ConflictChoice::SkipAll
        } else {
            ConflictChoice::Skip
        }
    } else if response == "rename"@ {
        if all {
            ConflictChoice::RenameAll
        } else {
            ConflictChoice::Rename
        }
    } else if response == "replace"@ {
        if all {
            ConflictChoice::ReplaceAll
        } else {
            ConflictChoice::Replace
        }
    } else {
        ConflictChoice::Cancel
    }
}

/// What an answer to the dialog means.
pub fn conflict_choice(response: &str, checked: bool, apply_to_all_possible: bool) -> (r:
    ConflictChoice)
    ensures
        r == choice_for(response@, checked, apply_to_all_possible),
{
    let all = apply_to_all_possible && checked;
    if text::same(response, "skip") {
        if all {
            ConflictChoice::SkipAll
        } else {
            ConflictChoice::Skip
        }
    } else if text::same(response, "rename") {
        if all {
            ConflictChoice::RenameAll
        } else {
            ConflictChoice::Rename
        }
    } else if text::same(response, "replace") {
        if all {
            ConflictChoice::ReplaceAll
        } else {
            ConflictChoice::Replace
        }
    } else {
        ConflictChoice::Cancel
    }
}

/// Nothing is overwritten unless the user chose to replace, and an answer for
/// all that follow comes only from a box that was offered and checked.
pub proof fn law_only_replace_overwrites(response: Seq<char>, checked: bool, offered: bool)
    ensures
        ({
            let choice = choice_for(response, checked, offered);
            &&& (choice == ConflictChoice::Replace || choice == ConflictChoice::ReplaceAll)
                ==> response == "replace"@
            &&& (choice == ConflictChoice::SkipAll || choice == ConflictChoice::RenameAll
                || choice == ConflictChoice::ReplaceAll) ==> offered && checked
        }),
{
}

/// What is known of a file on disk.
#[derive(Clone, Copy, Debug, PartialEq, Eq, Structural)]
pub struct FileFacts {
    /// Whether it is a folder.
    pub is_dir: bool,
    /// Its size in bytes.
    pub size: u64,
    /// When it was last modified, in seconds since the epoch.
    pub modified: Option<i64>,
}

/// The size of a file, in words.
pub open spec fn size_word(facts: FileFacts) -> Seq<char> {
    if facts.is_dir {
        "folder"@
    } else {
        outside::size_text(facts.size)
    }
}

/// The details of a file: its size and when it was modified.
pub fn summary_text(facts: &FileFacts, modified: &str) -> (r: String)
    ensures
        r@ == size_word(*facts) + " · "@ + modified@,
{
    let mut out: String = if facts.is_dir {
        text::copied("folder")
    } else {
        outside::format_size(facts.size)
    };
    out.append(" · ");
    out.append(modified);
    out
}

/// The pattern that times are written by.
pub const TIME_PATTERN: &'static str = "%d %b %Y %H:%M";

/// Whether a text is that of a file's time in some time zone. It is empty where
/// the time is not known, or too far off to be written.
pub open spec fn is_time_of(modified: Option<i64>, text: Seq<char>) -> bool {
    match modified {
        Some(seconds) => if outside::EARLIEST_TIME <= seconds <= outside::LATEST_TIME {
            exists|offset: i32|
                -86_400 < offset < 86_400 && text == #[trigger] outside::time_text(
                    seconds,
                    offset,
                    TIME_PATTERN@,
                )
        } else {
            text == ""@
        },
        None => text == ""@,
    }
}

/// The details of a file, with the time in the machine's own time zone.
pub fn file_summary_row(facts: Option<FileFacts>) -> (r: String)
    ensures
        match facts {
            Some(f) => exists|modified: Seq<char>|
                r@ == #[trigger] (size_word(f) + " · "@ + modified) && is_time_of(
                    f.modified,
                    modified,
                ),
            None => r@ == "unavailable"@,
        },
{
    match facts {
        Some(f) => {
            let when: Option<String> = match f.modified {
                Some(seconds) => outside::local_time(seconds, TIME_PATTERN),
                None => None,
            };
            let modified: String = match when {
                Some(text) => text,
                None => text::copied(""),
            };
            let r = summary_text(&f, modified.as_str());
            assert(r@ == size_word(f) + " · "@ + modified@);
            r
        },
        None => text::copied("unavailable"),
    }
}

// ── shredding ──────────────────────────────────────────────────────────────

/// The dialog that confirms a shred.
#[derive(Debug)]
pub struct ShredDialog {
    /// The dialog.
    pub alert: Alert,
    /// A warning where the storage makes overwriting unreliable: its heading
    /// and its text.
    pub warning: Option<(String, String)>,
}

/// What a number of files is called.
pub open spec fn what_text(paths: Seq<FilePath>) -> Seq<char> {
    if paths.len() == 1 {
        "“"@ + name_or_nothing(paths[0]@) + "”"@
    } else {
        text::decimal(paths.len()) + " items"@
    }
}

/// What a number of files is called.
pub fn what_label(paths: &[FilePath]) -> (r: String)
    ensures
        r@ == what_text(paths@),
{
    if paths.len() == 1 {
        let mut out = text::copied("“");
        out.append(shown_name(&paths[0]).as_str());
        out.append("”");
        out
    } else {
        let mut out = text::decimal_of(paths.len() as u64);
        out.append(" items");
        out
    }
}

/// The text of the dialog that confirms a shred.
pub open spec fn shred_text(paths: Seq<FilePath>, passes: nat) -> Seq<char> {
    what_text(paths) + " will be overwritten "@ + text::decimal(passes) + " time"@
        + text::plural_ending(passes)
        + " and then deleted.\n\nThis cannot be undone, and the files will not go to the Trash."@
}

/// Confirms a shred, spelling out that it is unrecoverable and — when the
/// storage makes overwriting unreliable — that the guarantee does not hold.
/// Being quiet about that would be the wrong call: the user is choosing
/// shredding specifically for a guarantee that this storage cannot give.
pub fn confirm_shred(paths: &[FilePath], passes: u32, caveat: Option<(&str, &str)>) -> (r:
    ShredDialog)
    ensures
        r.alert@ == two_way(
            "Shred permanently?"@,
            Some(shred_text(paths@, passes as nat)),
            "shred"@,
            "Shred"@,
            Appearance::Destructive,
            "cancel"@,
        ),
        match (r.warning, caveat) {
            (Some((heading, body)), Some((fstype, reason))) => heading@
                == "Overwriting may not be effective on "@ + fstype@ && body@ == "This is a "@
                + reason@
                + ".\n\nThe files will still be deleted, but treat the overwrite as best-effort. Full-disk encryption is the reliable answer here."@,
            (None, None) => true,
            _ => false,
        },
{
    let mut body = what_label(paths);
    body.append(" will be overwritten ");
    body.append(text::decimal_of(passes as u64).as_str());
    body.append(" time");
    body.append(text::plural(passes as u64));
    body.append(
        " and then deleted.\n\nThis cannot be undone, and the files will not go to the Trash.",
    );
    let alert = two_way_alert(
        "Shred permanently?",
        Some(body),
        "shred",
        "Shred",
        Appearance::Destructive,
        "cancel",
    );
    let warning: Option<(String, String)> = match caveat {
        Some((fstype, reason)) => {
            let mut heading = text::copied("Overwriting may not be effective on ");
            heading.append(fstype);
            let mut why = text::copied("This is a ");
            why.append(reason);
            why.append(
                ".\n\nThe files will still be deleted, but treat the overwrite as best-effort. Full-disk encryption is the reliable answer here.",
            );
            Some((heading, why))
        },
        None => None,
    };
    ShredDialog { alert, warning }
}

/// Whether an answer confirms a shred.
pub fn shred_confirmed(response: &str) -> (r: bool)
    ensures
        r == (response@ == "shred"@),
{
    text::same(response, "shred")
}

// ── NTFS volumes that are not clean ────────────────────────────────────────

/// What the user chose to do about an NTFS volume Windows left dirty.
#[derive(Clone, Copy, Debug, PartialEq, Eq, Structural)]
pub enum NtfsChoice {
    /// Mount it read-only.
    ReadOnly,
    /// Clear the dirty flag and mount it.
    Repair,
    /// Discard the hibernated session and mount it.
    Force,
    /// Leave it.
    Cancel,
}

/// The dialog about a refused NTFS mount.
#[derive(Debug)]
pub struct NtfsDialog {
    /// The dialog.
    pub alert: Alert,
    /// The options with what they do.
    pub explainers: Vec<(&'static str, &'static str)>,
    /// The driver's own message, which is often the only clue when none of the
    /// options work.
    pub technical: String,
    /// What to install for the missing option.
    pub hint: Option<&'static str>,
}

/// Why the mount was refused.
pub open spec fn ntfs_cause(hibernated: bool) -> Seq<char> {
    if hibernated {
        "Windows is hibernated or was shut down with Fast Startup enabled, so it still considers this volume in use."@
    } else {
        "Windows did not unmount this volume cleanly, so it is marked as needing a check."@
    }
}

/// The options with what they do. The good one is named even where it is
/// missing: otherwise the dialog looks like read-only is all there is, when a
/// single package install would give the proper fix.
pub open spec fn ntfs_explainers(hibernated: bool, ntfsfix_available: bool) -> Seq<
    (Seq<char>, Seq<char>),
> {
    let readonly = (
        "Open read-only"@,
        "Always safe. You can browse and copy files off the volume, but not change anything."@,
    );
    let repair = if ntfsfix_available {
        (
            "Repair and mount"@,
            "Fixes this for good: clears the dirty flag with ntfsfix and asks Windows to check the volume on its next boot. Your files are not touched. Requires administrator access."@,
        )
    } else {
        (
            "Repair and mount — unavailable"@,
            "This clears the dirty flag properly, but it needs `ntfsfix`, which is not installed. It comes with the ntfsprogs package."@,
        )
    };
    if hibernated {
        seq![
            readonly,
            repair,
            (
                "Force read-write"@,
                "Deletes the Windows hibernation file. Your files are untouched, but the suspended Windows session cannot be resumed afterwards."@,
            ),
        ]
    } else {
        seq![readonly, repair]
    }
}

/// The answers that the dialog offers.
pub open spec fn ntfs_responses(hibernated: bool, ntfsfix_available: bool) -> Seq<ResponseView> {
    let first = seq![
        ("cancel"@, "Cancel"@, Appearance::Plain),
        (
            "readonly"@,
            "Open Read-Only"@,
            if ntfsfix_available {
                Appearance::Plain
            } else {
                Appearance::Suggested
            },
        ),
    ];
    let second = if ntfsfix_available {
        first.push(("repair"@, "Repair and Mount"@, Appearance::Suggested))
    } else {
        first
    };
    if hibernated {
        second.push(("force"@, "Force Read-Write"@, Appearance::Destructive))
    } else {
        second
    }
}

/// The dialog about a refused NTFS mount.
pub open spec fn ntfs_alert(label: Seq<char>, hibernated: bool, ntfsfix_available: bool) ->
    AlertView {
    AlertView {
        heading: "This NTFS volume is not clean"@,
        body: Some(
            "“"@ + label + "” could not be mounted for writing.\n\n"@ + ntfs_cause(hibernated)
                + "\n\nWhat would you like to do?"@,
        ),
        responses: ntfs_responses(hibernated, ntfsfix_available),
        default_response: "readonly"@,
        close_response: "cancel"@,
    }
}

/// Offers the real ways out of a refused NTFS mount.
///
/// Ordered by risk: read-only is always safe and is the default; repair clears
/// the dirty flag; force discards a hibernated Windows session. Repair is the
/// only option that ends the problem rather than working around it: it clears
/// the dirty flag, so the volume mounts clean and on the faster in-kernel driver
/// from then on. So it is the one that is suggested when it is available — it
/// still takes a deliberate click, and the explainer says what it does.
pub fn ntfs_recovery(
    volume_label: &str,
    error: &str,
    hibernated: bool,
    ntfsfix_available: bool,
) -> (r: NtfsDialog)
    ensures
        r.alert@ == ntfs_alert(volume_label@, hibernated, ntfsfix_available),
        sidebar::menu_texts(r.explainers@) == ntfs_explainers(hibernated, ntfsfix_available),
        r.technical@ == error@,
        r.hint is Some <==> !ntfsfix_available,
        r.hint matches Some(hint) ==> hint@ == "Install the ntfsprogs package to enable repair."@,
{
    let mut body = text::copied("“");
    body.append(volume_label);
    body.append("” could not be mounted for writing.\n\n");
    if hibernated {
        body.append(
            "Windows is hibernated or was shut down with Fast Startup enabled, so it still considers this volume in use.",
        );
    } else {
        body.append(
            "Windows did not unmount this volume cleanly, so it is marked as needing a check.",
        );
    }
    body.append("\n\nWhat would you like to do?");

    let mut explainers: Vec<(&'static str, &'static str)> = Vec::new();
    explainers.push(
        (
            "Open read-only",
            "Always safe. You can browse and copy files off the volume, but not change anything.",
        ),
    );
    if ntfsfix_available {
        explainers.push(
            (
                "Repair and mount",
                "Fixes this for good: clears the dirty flag with ntfsfix and asks Windows to check the volume on its next boot. Your files are not touched. Requires administrator access.",
            ),
        );
    } else {
        explainers.push(
            (
                "Repair and mount — unavailable",
                "This clears the dirty flag properly, but it needs `ntfsfix`, which is not installed. It comes with the ntfsprogs package.",
            ),
        );
    }
    if hibernated {
        explainers.push(
            (
                "Force read-write",
                "Deletes the Windows hibernation file. Your files are untouched, but the suspended Windows session cannot be resumed afterwards.",
            ),
        );
    }
    assert(sidebar::menu_texts(explainers@) =~= ntfs_explainers(hibernated, ntfsfix_available));

    let mut responses: Vec<Response> = Vec::new();
    responses.push(response("cancel", "Cancel", Appearance::Plain));
    responses.push(
        response(
            "readonly",
            "Open Read-Only",
            if ntfsfix_available {
                Appearance::Plain
            } else {
                Appearance::Suggested
            },
        ),
    );
    if ntfsfix_available {
        responses.push(response("repair", "Repair and Mount", Appearance::Suggested));
    }
    if hibernated {
        responses.push(response("force", "Force Read-Write", Appearance::Destructive));
    }
    assert(response_views(responses@) =~= ntfs_responses(hibernated, ntfsfix_available));
    NtfsDialog {
        alert: Alert {
            heading: text::copied("This NTFS volume is not clean"),
            body: Some(body),
            responses,
            default_response: "readonly",
            close_response: "cancel",
        },
        explainers,
        technical: text::copied(error),
        hint: if ntfsfix_available {
            None
        } else {
            Some("Install the ntfsprogs package to enable repair.")
        },
    }
}

/// What an answer to the dialog means.
pub open spec fn ntfs_choice_for(response: Seq<char>) -> NtfsChoice {
    if response == "readonly"@ {
        NtfsChoice::ReadOnly
    } else if response == "repair"@ {
        NtfsChoice::Repair
    } else if response == "force"@ {
        NtfsChoice::Force
    } else {
        NtfsChoice::Cancel
    }
}

/// What an answer to the dialog means.
pub fn ntfs_choice(response: &str) -> (r: NtfsChoice)
    ensures
        r == ntfs_choice_for(response@),
{
    if text::same(response, "readonly") {
        NtfsChoice::ReadOnly
    } else if text::same(response, "repair") {
        NtfsChoice::Repair
    } else if text::same(response, "force") {
        NtfsChoice::Force
    } else {
        NtfsChoice::Cancel
    }
}

/// Each answer that the dialog offers means something else. Read-only is always
/// among them and is the default, repair exactly when it can be done, and
/// discarding a hibernated session exactly when there is one. Closing the dialog
/// does nothing.
pub proof fn law_ntfs_offers_what_can_be_done(
    label: Seq<char>,
    hibernated: bool,
    ntfsfix_available: bool,
    choice: NtfsChoice,
)
    ensures
        answerable(ntfs_alert(label, hibernated, ntfsfix_available)),
        ntfs_choice_for(ntfs_alert(label, hibernated, ntfsfix_available).default_response)
            == NtfsChoice::ReadOnly,
        ntfs_choice_for(ntfs_alert(label, hibernated, ntfsfix_available).close_response)
            == NtfsChoice::Cancel,
        (exists|i: int|
            0 <= i < ntfs_responses(hibernated, ntfsfix_available).len() && ntfs_choice_for(
                (#[trigger] ntfs_responses(hibernated, ntfsfix_available)[i]).0,
            ) == choice) <==> match choice {
            NtfsChoice::ReadOnly => true,
            NtfsChoice::Cancel => true,
            NtfsChoice::Repair => ntfsfix_available,
            NtfsChoice::Force => hibernated,
        },
{
    let all = ntfs_responses(hibernated, ntfsfix_available);
    let alert = ntfs_alert(label, hibernated, ntfsfix_available);
    reveal_strlit("cancel");
    reveal_strlit("readonly");
    reveal_strlit("repair");
    reveal_strlit("force");
    assert("cancel"@.len() == 6 && "readonly"@.len() == 8 && "repair"@.len() == 6
        && "force"@.len() == 5);
    assert("cancel"@[0] == 'c' && "repair"@[0] == 'r');
    assert(all[0].0 == "cancel"@);
    assert(all[1].0 == "readonly"@);
    assert(ntfs_choice_for(all[0].0) == NtfsChoice::Cancel);
    assert(ntfs_choice_for(all[1].0) == NtfsChoice::ReadOnly);
    assert(alert.responses[0].0 == alert.close_response);
    assert(alert.responses[1].0 == alert.default_response);
    if ntfsfix_available {
        assert(all[2].0 == "repair"@);
        assert(ntfs_choice_for(all[2].0) == NtfsChoice::Repair);
    }
    if hibernated {
        assert(all[all.len() - 1].0 == "force"@);
        assert(ntfs_choice_for(all[all.len() - 1].0) == NtfsChoice::Force);
    }
}

// ── passwords ──────────────────────────────────────────────────────────────

/// Prompts for an archive passphrase.
pub fn ask_archive_password(archive_name: &str) -> (r: Alert)
    ensures
        r@ == two_way(
            "This archive is encrypted"@,
            Some("Enter the password for “"@ + archive_name@ + "”."@),
            "accept"@,
            "Extract"@,
            Appearance::Suggested,
            "accept"@,
        ),
{
    let mut body = text::copied("Enter the password for “");
    body.append(archive_name);
    body.append("”.");
    two_way_alert(
        "This archive is encrypted",
        Some(body),
        "accept",
        "Extract",
        Appearance::Suggested,
        "accept",
    )
}

/// The wording of the passphrase prompt.
pub open spec fn passphrase_text(volume_label: Seq<char>, retry: bool) -> Seq<char> {
    if retry {
        "That passphrase did not work. Try again for “"@ + volume_label + "”."@
    } else {
        "Enter the passphrase to unlock “"@ + volume_label + "”."@
    }
}

/// Asks for a LUKS passphrase.
///
/// `retry` switches the wording after a rejected attempt, so a mistyped
/// passphrase reads as a mistake rather than a failure of the drive. Nothing is
/// written to the volume either way — a wrong passphrase costs only the
/// attempt.
pub fn ask_passphrase(volume_label: &str, retry: bool) -> (r: Alert)
    ensures
        r@ == two_way(
            "This drive is encrypted"@,
            Some(passphrase_text(volume_label@, retry)),
            "accept"@,
            "Unlock"@,
            Appearance::Suggested,
            "accept"@,
        ),
{
    let mut body = if retry {
        text::copied("That passphrase did not work. Try again for “")
    } else {
        text::copied("Enter the passphrase to unlock “")
    };
    body.append(volume_label);
    body.append("”.");
    two_way_alert(
        "This drive is encrypted",
        Some(body),
        "accept",
        "Unlock",
        Appearance::Suggested,
        "accept",
    )
}

/// The password that was entered, where one was and it was accepted. It is
/// taken as it is.
pub fn entered_password(response: &str, entered: &str) -> (r: Option<String>)
    ensures
        r is Some <==> response@ == "accept"@ && entered@.len() > 0,
        r matches Some(s) ==> s@ == entered@,
{
    if accepted(response) && text::chars_of(entered).len() > 0 {
        Some(text::copied(entered))
    } else {
        None
    }
}

// ── downloads ──────────────────────────────────────────────────────────────

/// What a server said of a file.
#[derive(Debug)]
pub struct Probe {
    /// The name to save it as.
    pub filename: String,
    /// Its size in bytes.
    pub size: Option<u64>,
    /// Whether it can be fetched in parts.
    pub supports_ranges: bool,
}

/// The plain values of a probe.
pub type ProbeView = (Seq<char>, Option<u64>, bool);

impl View for Probe {
    type V = ProbeView;

    open spec fn view(&self) -> ProbeView {
        (self.filename@, self.size, self.supports_ranges)
    }
}

/// What a probe says, in words.
pub open spec fn probe_text(probe: ProbeView) -> Seq<char> {
    match probe.1 {
        Some(size) => outside::size_text(size) + (if probe.2 {
            " · will be split across several connections"@
        } else {
            " · single connection"@
        }),
        None => "Size unknown · single connection"@,
    }
}

/// What a probe says, in words.
pub fn describe(probe: &Probe) -> (r: String)
    ensures
        r@ == probe_text(probe@),
{
    match probe.size {
        Some(size) => {
            let mut out = outside::format_size(size);
            if probe.supports_ranges {
                out.append(" · will be split across several connections");
            } else {
                out.append(" · single connection");
            }
            out
        },
        None => text::copied("Size unknown · single connection"),
    }
}

/// Folder name over its path, so the button says both where it is going and
/// exactly where that is.
pub fn folder_button_content(path: &FilePath) -> (r: (String, String))
    ensures
        r.0@ == sidebar::favourite_label(path@),
        r.1@ == outside::lossy(path@),
{
    let name = match path.file_name_text() {
        Some(name) => name,
        None => path.display(),
    };
    (name, path.display())
}

/// What the download dialog shows while no link has been entered.
pub const PASTE_A_LINK: &'static str = "Paste a link to check it";

/// What the download dialog shows while a link is being checked.
pub const CHECKING: &'static str = "Checking…";

/// The download dialog: a URL, the name to save it as, and where to put it.
///
/// The URL is probed as it is typed, so the suggested filename and the size
/// come from the server rather than from guessing at the address — and so a
/// wrong URL is caught here, before any job starts.
#[derive(Debug)]
pub struct DownloadForm {
    /// Where the file goes.
    pub folder: FilePath,
    /// The name to save it as.
    pub name: String,
    /// Whether the name can be changed.
    pub name_enabled: bool,
    /// What is known of the link.
    pub status: String,
    /// Whether that is an error.
    pub error: bool,
    /// What the server said.
    pub probed: Option<Probe>,
    /// Whether the download can be started.
    pub accept_enabled: bool,
    /// Counts the links that have been typed, so that the answer for one that
    /// has changed since is not taken for the current one's.
    pub generation: u64,
}

/// Collects a URL, the name to save it as, and where to put it: the dialog as
/// it opens.
pub fn ask_download(start_dir: &FilePath) -> (r: DownloadForm)
    ensures
        r.valid(),
        r.folder@ == start_dir@,
        r.name@ == ""@,
        r.status@ == PASTE_A_LINK@,
        !r.error,
        r.probed is None,
        r.generation == 0,
{
    DownloadForm {
        folder: start_dir.copy(),
        name: text::copied(""),
        name_enabled: false,
        status: text::copied(PASTE_A_LINK),
        error: false,
        probed: None,
        accept_enabled: false,
        generation: 0,
    }
}

impl DownloadForm {
    /// The download can be started, and the file renamed, exactly while the
    /// server has said what it is.
    pub open spec fn valid(&self) -> bool {
        &&& self.accept_enabled == (self.probed is Some)
        &&& self.name_enabled == (self.probed is Some)
    }

    /// The link has changed. What was known of the previous one is forgotten.
    /// Returns the number under which the new one is to be probed, unless there
    /// is none.
    pub fn url_changed(&mut self, text: &str) -> (r: Option<u64>)
        requires
            old(self).generation < u64::MAX,
        ensures
            final(self).valid(),
            final(self).generation == old(self).generation + 1,
            final(self).probed is None,
            !final(self).error,
            final(self).folder == old(self).folder,
            final(self).name == old(self).name,
            r == (if text::trimmed(text@).len() == 0 {
                None
            } else {
                Some(final(self).generation)
            }),
            final(self).status@ == (if text::trimmed(text@).len() == 0 {
                PASTE_A_LINK@
            } else {
                CHECKING@
            }),
    {
        self.generation = self.generation + 1;
        self.probed = None;
        self.accept_enabled = false;
        self.name_enabled = false;
        self.error = false;
        if !is_filled(text) {
            self.status = text::copied(PASTE_A_LINK);
            return None;
        }
        self.status = text::copied(CHECKING);
        Some(self.generation)
    }

    /// The server has answered, or could not be asked. The answer counts only
    /// if the link is still the one it is for.
    pub fn probe_finished(&mut self, generation: u64, result: Result<Probe, String>)
        requires
            old(self).valid(),
        ensures
            final(self).valid(),
            final(self).generation == old(self).generation,
            final(self).folder == old(self).folder,
            generation != old(self).generation ==> *final(self) == *old(self),
            generation == old(self).generation ==> match result {
                Ok(probe) => {
                    &&& final(self).probed == Some(probe)
                    &&& final(self).name@ == probe.filename@
                    &&& final(self).status@ == probe_text(probe@)
                    &&& !final(self).error
                },
                Err(message) => {
                    &&& final(self).probed == old(self).probed
                    &&& final(self).name == old(self).name
                    &&& final(self).status@ == message@
                    &&& final(self).error
                },
            },
    {
        if generation != self.generation {
            return;
        }
        match result {
            Ok(probe) => {
                self.name = text::copied(probe.filename.as_str());
                self.name_enabled = true;
                self.error = false;
                self.status = describe(&probe);
                self.probed = Some(probe);
                self.accept_enabled = true;
            },
            Err(message) => {
                self.status = message;
                self.error = true;
            },
        }
    }

    /// Another folder has been picked.
    pub fn folder_picked(&mut self, path: &FilePath)
        requires
            old(self).valid(),
        ensures
            final(self).valid(),
            final(self).folder@ == path@,
            final(self).name == old(self).name,
            final(self).status == old(self).status,
            final(self).error == old(self).error,
            final(self).probed == old(self).probed,
            final(self).generation == old(self).generation,
    {
        self.folder = path.copy();
    }

    /// The dialog is over: what is to be downloaded and where to, if it was
    /// accepted and the server has said what it is. `chosen` is the name in the
    /// entry and `sanitized` what it is as the name of a file: the user may have
    /// renamed it, and their choice wins, but it ends up as a path.
    pub fn finish(self, accept: bool, chosen: &str, sanitized: &str) -> (r: Option<
        (Probe, FilePath),
    >)
        ensures
            r is Some <==> accept && self.probed is Some,
            r matches Some((probe, folder)) ==> {
                &&& folder@ == self.folder@
                &&& probe@ == (
                    if text::trimmed(chosen@).len() > 0 {
                        sanitized@
                    } else {
                        self.probed->0.filename@
                    },
                    self.probed->0.size,
                    self.probed->0.supports_ranges,
                )
            },
    {
        if !accept {
            return None;
        }
        match self.probed {
            Some(probe) => {
                let filename = if is_filled(chosen) {
                    text::copied(sanitized)
                } else {
                    text::copied(probe.filename.as_str())
                };
                Some(
                    (
                        Probe {
                            filename,
                            size: probe.size,
                            supports_ranges: probe.supports_ranges,
                        },
                        self.folder.copy(),
                    ),
                )
            },
            None => None,
        }
    }
}

// ── compressing ────────────────────────────────────────────────────────────

/// Asks for an archive name and format when compressing a selection.
pub fn ask_compress() -> (r: Alert)
    ensures
        r@ == two_way(
            "Compress"@,
            Some("Choose a name and a format."@),
            "accept"@,
            "Create"@,
            Appearance::Suggested,
            "accept"@,
        ),
{
    two_way_alert(
        "Compress",
        Some(text::copied("Choose a name and a format.")),
        "accept",
        "Create",
        Appearance::Suggested,
        "accept",
    )
}

/// The name and the format that were chosen, where the dialog was accepted with
/// a name that is not empty.
pub fn compress_choice(response: &str, entered: &str, selected: usize) -> (r: Option<
    (String, usize),
>)
    ensures
        r is Some <==> response@ == "accept"@ && text::trimmed(entered@).len() > 0,
        r matches Some((stem, format)) ==> stem@ == text::trimmed(entered@) && format == selected,
{
    if !accepted(response) {
        return None;
    }
    let stem = text::trim(entered);
    if !is_filled(entered) {
        return None;
    }
    Some((stem, selected))
}

// ── failures of a job ──────────────────────────────────────────────────────

/// How many failures are listed.
pub const SHOWN: usize = 8;

/// One line for each of the first `n` failures.
pub open spec fn failure_lines(errors: Seq<(FilePath, String)>, n: nat) -> Seq<char>
    decreases n,
{
    if n == 0 {
        Seq::empty()
    } else {
        failure_lines(errors, (n - 1) as nat) + ("• "@ + name_or_nothing(errors[n - 1].0@) + ": "@
            + errors[n - 1].1@ + "\n"@)
    }
}

/// The failures of a job: the first few, and how many more there are.
pub open spec fn failures_text(errors: Seq<(FilePath, String)>) -> Seq<char> {
    if errors.len() > SHOWN {
        failure_lines(errors, SHOWN as nat) + ("\n…and "@ + text::decimal(
            (errors.len() - SHOWN) as nat,
        ) + " more."@)
    } else {
        failure_lines(errors, errors.len())
    }
}

/// Summarises a finished job's failures without dumping a hundred lines. There
/// is nothing to show where nothing failed.
pub fn show_job_errors(heading: &str, errors: &[(FilePath, String)]) -> (r: Option<Alert>)
    ensures
        r is Some <==> errors@.len() > 0,
        r matches Some(alert) ==> alert@ == (AlertView {
            heading: heading@,
            body: Some(text::trimmed_end(failures_text(errors@))),
            responses: seq![("ok"@, "OK"@, Appearance::Plain)],
            default_response: "ok"@,
            close_response: "ok"@,
        }),
{
    if errors.len() == 0 {
        return None;
    }
    let shown: usize = if errors.len() > SHOWN {
        SHOWN
    } else {
        errors.len()
    };
    let mut body = String::new();
    let mut i: usize = 0;
    while i < shown
        invariant
            i <= shown <= errors@.len(),
            body@ == failure_lines(errors@, i as nat),
        decreases shown - i,
    {
        let mut line = text::copied("• ");
        line.append(shown_name(&errors[i].0).as_str());
        line.append(": ");
        line.append(errors[i].1.as_str());
        line.append("\n");
        body.append(line.as_str());
        i = i + 1;
    }
    if errors.len() > SHOWN {
        let mut more = text::copied("\n…and ");
        more.append(text::decimal_of((errors.len() - SHOWN) as u64).as_str());
        more.append(" more.");
        body.append(more.as_str());
    }
    Some(show_error(heading, text::trim_end(body.as_str()).as_str()))
}

/// Each answer about an existing file means what it says, for this file alone or
/// for all that follow; closing the dialog cancels.
pub proof fn law_conflicts_are_answered_as_chosen(checked: bool, offered: bool)
    ensures
        choice_for("skip"@, true, true) == ConflictChoice::SkipAll,
        choice_for("rename"@, true, true) == ConflictChoice::RenameAll,
        choice_for("replace"@, true, true) == ConflictChoice::ReplaceAll,
        !(checked && offered) ==> choice_for("skip"@, checked, offered) == ConflictChoice::Skip,
        !(checked && offered) ==> choice_for("rename"@, checked, offered)
            == ConflictChoice::Rename,
        !(checked && offered) ==> choice_for("replace"@, checked, offered)
            == ConflictChoice::Replace,
        choice_for("cancel"@, checked, offered) == ConflictChoice::Cancel,
{
    reveal_strlit("skip");
    reveal_strlit("rename");
    reveal_strlit("replace");
    reveal_strlit("cancel");
    assert("skip"@.len() == 4 && "rename"@.len() == 6 && "replace"@.len() == 7 && "cancel"@.len()
        == 6);
    assert("rename"@[0] == 'r' && "cancel"@[0] == 'c');
}

/// Each answer about an unclean volume means what it says.
pub proof fn law_ntfs_answers_mean_what_they_say()
    ensures
        ntfs_choice_for("readonly"@) == NtfsChoice::ReadOnly,
        ntfs_choice_for("repair"@) == NtfsChoice::Repair,
        ntfs_choice_for("force"@) == NtfsChoice::Force,
        ntfs_choice_for("cancel"@) == NtfsChoice::Cancel,
{
    reveal_strlit("cancel");
    reveal_strlit("readonly");
    reveal_strlit("repair");
    reveal_strlit("force");
    assert("cancel"@.len() == 6 && "readonly"@.len() == 8 && "repair"@.len() == 6
        && "force"@.len() == 5);
    assert("cancel"@[0] == 'c' && "repair"@[0] == 'r');
}

/// The answers about an unclean volume stand in the order of their risk: cancel,
/// read-only, repair where it can be done, force where Windows is hibernated.
/// Repair is the one that is suggested where it can be done, and read-only
/// otherwise; discarding the session is marked as destructive.
pub proof fn law_ntfs_answers_are_ordered_by_risk(hibernated: bool, ntfsfix_available: bool)
    ensures
        ({
            let all = ntfs_responses(hibernated, ntfsfix_available);
            &&& all.len() == 2 + (if ntfsfix_available {
                1int
            } else {
                0int
            }) + (if hibernated {
                1int
            } else {
                0int
            })
            &&& all[0] == ("cancel"@, "Cancel"@, Appearance::Plain)
            &&& all[1].0 == "readonly"@
            &&& all[1].2 == Appearance::Suggested <==> !ntfsfix_available
            &&& ntfsfix_available ==> all[2].0 == "repair"@ && all[2].2 == Appearance::Suggested
            &&& hibernated ==> all.last().0 == "force"@ && all.last().2 == Appearance::Destructive
        }),
        ntfs_explainers(hibernated, ntfsfix_available).len() == (if hibernated {
            3int
        } else {
            2int
        }),
{
}

/// A file is named in a message, and several are counted.
pub proof fn law_files_are_named_or_counted(paths: Seq<FilePath>, dir: Seq<u8>, name: Seq<u8>)
    requires
        path::is_name(name),
    ensures
        paths.len() == 1 && paths[0]@ == path::joined(dir, name) ==> what_text(paths) == "“"@
            + outside::lossy(name) + "”"@,
        paths.len() != 1 ==> what_text(paths) == text::decimal(paths.len()) + " items"@,
        name_or_nothing(path::joined(dir, name)) == outside::lossy(name),
{
    path::law_join_appends_a_name(dir, name);
}

/// A file that is in the way is named, with the folder it is in.
pub proof fn law_a_conflict_names_the_file(dir: Seq<u8>, sub: Seq<u8>, name: Seq<u8>)
    requires
        path::is_name(sub),
        path::is_name(name),
    ensures
        conflict_text(path::joined(path::joined(dir, sub), name)) == "“"@ + outside::lossy(name)
            + "” already exists in "@ + outside::lossy(path::joined(dir, sub))
            + ".\n\nReplacing it overwrites the existing file permanently."@,
{
    path::law_join_appends_a_name(path::joined(dir, sub), name);
    path::law_the_parent_is_the_directory(dir, sub, name);
}

/// Each failure has a line with the name of the file and why it failed, as long
/// as there are at most eight; beyond that the first eight are listed and the
/// others counted.
pub proof fn law_failures_are_listed(
    errors: Seq<(FilePath, String)>,
    error: (FilePath, String),
)
    ensures
        failures_text(Seq::empty()) == Seq::<char>::empty(),
        errors.len() < 8 ==> failures_text(errors.push(error)) == failures_text(errors) + ("• "@
            + name_or_nothing(error.0@) + ": "@ + error.1@ + "\n"@),
        errors.len() > 8 ==> failures_text(errors) == failures_text(errors.take(8)) + ("\n…and "@
            + text::decimal((errors.len() - 8) as nat) + " more."@),
{
    let all = errors.push(error);
    if errors.len() < 8 {
        lemma_lines_of_the_front(errors, all, errors.len());
    }
    if errors.len() > 8 {
        lemma_lines_of_the_front(errors, errors.take(8), 8);
    }
}

/// The lines of the first failures depend on these alone.
proof fn lemma_lines_of_the_front(
    a: Seq<(FilePath, String)>,
    b: Seq<(FilePath, String)>,
    n: nat,
)
    requires
        n <= a.len(),
        n <= b.len(),
        forall|i: int| 0 <= i < n ==> a[i] == b[i],
    ensures
        failure_lines(a, n) == failure_lines(b, n),
    decreases n,
{
    if n > 0 {
        lemma_lines_of_the_front(a, b, (n - 1) as nat);
        assert(a[n - 1] == b[n - 1]);
    }
}

/// A dialog that can be cancelled or accepted shows what it is given, and
/// closing it cancels.
pub proof fn law_two_way_dialogs_show_what_they_ask(
    heading: Seq<char>,
    body: Option<Seq<char>>,
    accept: Seq<char>,
    accept_label: Seq<char>,
    appearance: Appearance,
    default_response: Seq<char>,
)
    ensures
        ({
            let alert = two_way(
                heading,
                body,
                accept,
                accept_label,
                appearance,
                default_response,
            );
            &&& alert.heading == heading
            &&& alert.body == body
            &&& alert.responses == seq![
                ("cancel"@, "Cancel"@, Appearance::Plain),
                (accept, accept_label, appearance),
            ]
            &&& alert.default_response == default_response
            &&& alert.close_response == "cancel"@
        }),
{
}

/// What is known of a download is its size, and whether it can be split.
pub proof fn law_a_probe_says_what_it_knows(name: Seq<char>, size: u64, ranges: bool)
    ensures
        probe_text((name, Some(size), true)) == outside::size_text(size)
            + " · will be split across several connections"@,
        probe_text((name, Some(size), false)) == outside::size_text(size)
            + " · single connection"@,
        probe_text((name, None, ranges)) == "Size unknown · single connection"@,
        passphrase_text(name, false) == "Enter the passphrase to unlock “"@ + name + "”."@,
        passphrase_text(name, true) == "That passphrase did not work. Try again for “"@ + name
            + "”."@,
{
}

/// A file shows its size and a folder shows that it is one.
pub proof fn law_details_show_the_size(facts: FileFacts)
    ensures
        facts.is_dir ==> size_word(facts) == "folder"@,
        !facts.is_dir ==> size_word(facts) == outside::size_text(facts.size),
        is_time_of(None, ""@),
{
}

/// The part of a name that renaming selects goes up to its last dot, and is all
/// of it where it has none.
pub proof fn law_renaming_selects_the_stem(name: Seq<char>, stem: Seq<u8>, word: Seq<u8>)
    requires
        path::is_name(encode_utf8(name)),
        !word.contains(46u8),
    ensures
        stem.len() > 0 && encode_utf8(name) == stem + seq![46u8] + word ==> stem_chars(name)
            == Some(outside::lossy(stem).len()),
        encode_utf8(name) == word ==> stem_chars(name) == Some(outside::lossy(word).len()),
        encode_utf8(name) == seq![46u8] + word ==> stem_chars(name) == Some(
            outside::lossy(seq![46u8] + word).len(),
        ),
{
    let s = encode_utf8(name);
    path::law_separators_part_components(Seq::empty(), s);
    assert(path::components(s) == seq![s]);
    assert(path::names(s)) by {
        if s == path::root() {
            assert(s[0] == path::SLASH);
            assert(s.contains(s[0]));
        }
    }
    assert(path::file_name(s) == Some(s));
    path::law_the_stem_ends_at_the_last_dot(stem, word);
}

/// A shred says what is overwritten and how often.
pub proof fn law_a_shred_says_how_often(paths: Seq<FilePath>, passes: nat)
    ensures
        shred_text(paths, 1) == what_text(paths) + " will be overwritten "@ + text::decimal(1)
            + " time"@ + ""@
            + " and then deleted.\n\nThis cannot be undone, and the files will not go to the Trash."@,
        passes != 1 ==> shred_text(paths, passes) == what_text(paths) + " will be overwritten "@
            + text::decimal(passes) + " time"@ + "s"@
            + " and then deleted.\n\nThis cannot be undone, and the files will not go to the Trash."@,
{
}

/// A file whose time is known shows that time, in some time zone; a text that is
/// empty stands only for a time that is not known, or that lies hundreds of
/// thousands of years away.
pub proof fn law_known_times_are_shown(seconds: i64, text: Seq<char>) -> (offset: i32)
    requires
        is_time_of(Some(seconds), text),
        -8_000_000_000_000 <= seconds <= 8_000_000_000_000,
    ensures
        text == outside::time_text(seconds, offset, "%d %b %Y %H:%M"@),
        -86_400 < offset < 86_400,
{
    choose|offset: i32|
        -86_400 < offset < 86_400 && text == #[trigger] outside::time_text(
            seconds,
            offset,
            TIME_PATTERN@,
        )
}

/// A download can be started exactly while it is known what it is.
pub proof fn law_downloads_start_when_they_are_known(form: DownloadForm)
    requires
        form.valid(),
    ensures
        form.accept_enabled <==> form.probed is Some,
        form.name_enabled <==> form.probed is Some,
{
}

} // verus!
