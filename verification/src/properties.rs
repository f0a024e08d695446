//! The properties dialog.
//!
//! For a folder the interesting number — total size on disk — requires walking
//! the tree, so it is computed on the side and filled in while the dialog is
//! already on screen.

use crate::entry::EntryView;
use crate::entry::FileEntry;
use crate::outside;
use crate::path;
use crate::path::FilePath;
use crate::text;
use crate::thumbs;
use crate::thumbs::ThemedIcon;
use vstd::prelude::*;
use vstd::string::*;

verus! {

/// The subtitle of a size that is still being added up.
pub const CALCULATING: &'static str = "Calculating…";

/// The content type of a file that the name alone did not settle.
pub const UNKNOWN_TYPE: &'static str = "application/octet-stream";

// ── rows ───────────────────────────────────────────────────────────────────

/// A title and what stands under it.
#[derive(Debug)]
pub struct InfoRow {
    /// The title.
    pub title: &'static str,
    /// What stands under it.
    pub subtitle: String,
}

impl View for InfoRow {
    type V = (Seq<char>, Seq<char>);

    open spec fn view(&self) -> (Seq<char>, Seq<char>) {
        (self.title@, self.subtitle@)
    }
}

/// The titles and subtitles of some rows.
pub open spec fn row_texts(rows: Seq<InfoRow>) -> Seq<(Seq<char>, Seq<char>)> {
    rows.map_values(|row: InfoRow| row@)
}

/// A row.
pub fn info_row(title: &'static str, subtitle: String) -> (r: InfoRow)
    ensures
        r@ == (title@, subtitle@),
{
    InfoRow { title, subtitle }
}

/// What the dialog for one item shows.
#[derive(Debug)]
pub struct SingleProperties {
    /// The icon at the top.
    pub icon: ThemedIcon,
    /// The name under it.
    pub name: String,
    /// The kind of file under that.
    pub kind: String,
    /// The rows under "General"; the first is the size.
    pub general: Vec<InfoRow>,
    /// The rows under "Permissions".
    pub permissions: Vec<InfoRow>,
    /// The rows under "Details".
    pub details: Vec<InfoRow>,
    /// Whether the size is to be added up by walking the tree.
    pub walk: bool,
}

/// What the dialog for several items shows.
#[derive(Debug)]
pub struct MultipleProperties {
    /// The heading.
    pub summary: String,
    /// The rows under "General"; the second is the total size.
    pub general: Vec<InfoRow>,
    /// Whether the size is to be added up by walking the trees.
    pub walk: bool,
}

/// Which dialog a selection gets.
#[derive(Clone, Copy, Debug, PartialEq, Eq, Structural)]
pub enum Presentation {
    /// None, since nothing is selected.
    Nothing,
    /// The one for a single item.
    Single,
    /// The one for several.
    Multiple,
}

/// Which dialog a selection gets.
pub fn present(entries: &[FileEntry]) -> (r: Presentation)
    ensures
        r == (if entries@.len() == 0 {
            Presentation::Nothing
        } else if entries@.len() == 1 {
            Presentation::Single
        } else {
            Presentation::Multiple
        }),
{
    if entries.len() == 0 {
        Presentation::Nothing
    } else if entries.len() == 1 {
        Presentation::Single
    } else {
        Presentation::Multiple
    }
}

// ── one item ───────────────────────────────────────────────────────────────

/// The size of a file in words and in bytes.
pub open spec fn file_size_text(size: u64) -> Seq<char> {
    outside::size_text(size) + " ("@ + text::decimal(size as nat) + " bytes)"@
}

/// The folder that holds an item; the root is its own.
pub open spec fn parent_text(s: Seq<u8>) -> Seq<char> {
    match path::parent(s) {
        Some(parent) => outside::lossy(parent),
        None => "/"@,
    }
}

/// The folder that holds an item.
pub fn parent_display(path: &FilePath) -> (r: String)
    ensures
        r@ == parent_text(path@),
{
    match path.parent() {
        Some(parent) => parent.display(),
        None => text::copied("/"),
    }
}

/// The things that can be done with an item.
pub open spec fn capabilities(entry: EntryView) -> Seq<Seq<char>> {
    let read: Seq<Seq<char>> = if entry.can_read {
        seq![
            if entry.is_dir {
                "list"@
            } else {
                "read"@
            },
        ]
    } else {
        seq![]
    };
    let write: Seq<Seq<char>> = if entry.can_write {
        seq![
            if entry.is_dir {
                "add and remove items"@
            } else {
                "write"@
            },
        ]
    } else {
        seq![]
    };
    let execute: Seq<Seq<char>> = if entry.can_execute {
        seq![
            if entry.is_dir {
                "enter"@
            } else {
                "execute"@
            },
        ]
    } else {
        seq![]
    };
    read + write + execute
}

/// The things that can be done with an item, in words.
pub open spec fn capabilities_text(entry: EntryView) -> Seq<char> {
    if capabilities(entry).len() == 0 {
        "nothing"@
    } else {
        text::joined(capabilities(entry), ", "@)
    }
}

/// The things that can be done with an item, in words.
pub fn capabilities_label(entry: &FileEntry) -> (r: String)
    ensures
        r@ == capabilities_text(entry@),
{
    let mut parts: Vec<String> = Vec::new();
    let ghost mut said: Seq<Seq<char>> = seq![];
    if entry.can_read {
        let word: &'static str = if entry.is_dir {
            "list"
        } else {
            "read"
        };
        parts.push(text::copied(word));
        proof {
            said = said.push(word@);
        }
    }
    assert(text::views(parts@) =~= said);
    if entry.can_write {
        let word: &'static str = if entry.is_dir {
            "add and remove items"
        } else {
            "write"
        };
        parts.push(text::copied(word));
        proof {
            said = said.push(word@);
        }
    }
    assert(text::views(parts@) =~= said);
    if entry.can_execute {
        let word: &'static str = if entry.is_dir {
            "enter"
        } else {
            "execute"
        };
        parts.push(text::copied(word));
        proof {
            said = said.push(word@);
        }
    }
    assert(text::views(parts@) =~= said);
    assert(said =~= capabilities(entry@));
    if parts.len() == 0 {
        return text::copied("nothing");
    }
    text::join(&parts, ", ")
}

/// Whether the contents of an item are worth looking into for its type: only a
/// file whose name did not settle it.
pub open spec fn unsettled(entry: EntryView) -> bool {
    !entry.is_dir && entry.content_type == UNKNOWN_TYPE@
}

/// Whether the contents of an item are worth looking into for its type.
pub fn needs_sniffing(entry: &FileEntry) -> (r: bool)
    ensures
        r == unsettled(entry@),
{
    !entry.is_dir && text::same(entry.content_type.as_str(), UNKNOWN_TYPE)
}

/// The entry's media type; `sniffed` is what a look inside the file found, and
/// counts only if the name alone did not settle it.
///
/// Listing a folder deliberately avoids this: an extensionless file is
/// classified by opening and reading it, which is far too expensive to do for
/// every file in a directory. For the one file whose properties are open it
/// costs nothing, and it is exactly where the precise answer is worth having.
pub fn precise_content_type(entry: &FileEntry, sniffed: Option<&str>) -> (r: String)
    ensures
        r@ == (match sniffed {
            Some(found) => if unsettled(entry@) {
                found@
            } else {
                entry.content_type@
            },
            None => entry.content_type@,
        }),
{
    match sniffed {
        Some(found) if needs_sniffing(entry) => text::copied(found),
        _ => text::copied(entry.content_type.as_str()),
    }
}

/// The rows under "General".
pub open spec fn general_texts(entry: EntryView, modified: Seq<char>) -> Seq<
    (Seq<char>, Seq<char>),
> {
    let rows = seq![
        (
            "Size"@,
            if entry.is_dir {
                CALCULATING@
            } else {
                file_size_text(entry.size)
            },
        ),
        ("Location"@, parent_text(entry.path)),
        ("Modified"@, modified),
    ];
    if entry.is_symlink {
        rows.push(
            (
                "Symbolic link to"@,
                match entry.symlink_target {
                    Some(target) => target,
                    None => "unknown"@,
                },
            ),
        )
    } else {
        rows
    }
}

/// The permission bits, in words and in octal.
pub open spec fn mode_text(permissions: Seq<char>, mode: u32) -> Seq<char> {
    permissions + " ("@ + text::numeral((mode & 0o7777) as nat, 8) + ")"@
}

/// What the dialog for one item shows. `kind`, `modified` and `permissions` are
/// the entry's own labels, and `media_type` its precise content type.
pub fn build_single(
    entry: &FileEntry,
    kind: &str,
    modified: &str,
    permissions: &str,
    media_type: &str,
) -> (r: SingleProperties)
    ensures
        match r.icon {
            ThemedIcon::Named(name) => entry.is_dir && name@ == (if entry.is_symlink {
                "folder-symbolic"@
            } else {
                "folder"@
            }),
            ThemedIcon::ForContentType(t) => !entry.is_dir && t@ == entry.content_type@,
        },
        r.name@ == entry.display_name@,
        r.kind@ == kind@,
        row_texts(r.general@) == general_texts(entry@, modified@),
        row_texts(r.permissions@) == seq![
            ("Mode"@, mode_text(permissions@, entry.mode)),
            ("You can"@, capabilities_text(entry@)),
        ],
        row_texts(r.details@) == seq![
            ("Full path"@, outside::lossy(entry.path@)),
            ("Media type"@, media_type@),
        ],
        r.walk == entry.is_dir,
{
    let size = if entry.is_dir {
        text::copied(CALCULATING)
    } else {
        let mut s = outside::format_size(entry.size);
        s.append(" (");
        s.append(text::decimal_of(entry.size).as_str());
        s.append(" bytes)");
        s
    };
    let mut general: Vec<InfoRow> = Vec::new();
    general.push(info_row("Size", size));
    general.push(info_row("Location", parent_display(&entry.path)));
    general.push(info_row("Modified", text::copied(modified)));
    if entry.is_symlink {
        let target = match &entry.symlink_target {
            Some(target) => text::copied(target.as_str()),
            None => text::copied("unknown"),
        };
        general.push(info_row("Symbolic link to", target));
    }
    assert(row_texts(general@) =~= general_texts(entry@, modified@));

    let mut mode = text::copied(permissions);
    mode.append(" (");
    mode.append(text::numeral_of((entry.mode & 0o7777) as u64, 8).as_str());
    mode.append(")");
    let mut access: Vec<InfoRow> = Vec::new();
    access.push(info_row("Mode", mode));
    access.push(info_row("You can", capabilities_label(entry)));
    assert(row_texts(access@) =~= seq![
        ("Mode"@, mode_text(permissions@, entry.mode)),
        ("You can"@, capabilities_text(entry@)),
    ]);

    let mut details: Vec<InfoRow> = Vec::new();
    details.push(info_row("Full path", entry.path.display()));
    details.push(info_row("Media type", text::copied(media_type)));
    assert(row_texts(details@) =~= seq![
        ("Full path"@, outside::lossy(entry.path@)),
        ("Media type"@, media_type@),
    ]);

    SingleProperties {
        icon: thumbs::icon_for(entry.content_type.as_str(), entry.is_dir, entry.is_symlink),
        name: text::copied(entry.display_name.as_str()),
        kind: text::copied(kind),
        general,
        permissions: access,
        details,
        walk: entry.is_dir,
    }
}

// ── several items ──────────────────────────────────────────────────────────

/// The plain values of some entries.
pub open spec fn entry_views(entries: Seq<FileEntry>) -> Seq<EntryView> {
    entries.map_values(|entry: FileEntry| entry@)
}

/// How many of the entries are folders.
pub open spec fn folder_count(entries: Seq<EntryView>) -> nat
    decreases entries.len(),
{
    if entries.len() == 0 {
        0
    } else {
        folder_count(entries.drop_last()) + (if entries.last().is_dir {
            1nat
        } else {
            0nat
        })
    }
}

/// The size of those entries that are no folders.
pub open spec fn file_bytes(entries: Seq<EntryView>) -> nat
    decreases entries.len(),
{
    if entries.len() == 0 {
        0
    } else {
        file_bytes(entries.drop_last()) + (if entries.last().is_dir {
            0nat
        } else {
            entries.last().size as nat
        })
    }
}

/// A count of files and one of folders.
pub open spec fn contents_text(files: nat, folders: nat) -> Seq<char> {
    text::decimal(files) + " file"@ + text::plural_ending(files) + ", "@ + text::decimal(folders)
        + " folder"@ + text::plural_ending(folders)
}

/// A count of files and one of folders.
fn contents_label(files: u64, folders: u64) -> (r: String)
    ensures
        r@ == contents_text(files as nat, folders as nat),
{
    let mut out = text::decimal_of(files);
    out.append(" file");
    out.append(text::plural(files));
    out.append(", ");
    out.append(text::decimal_of(folders).as_str());
    out.append(" folder");
    out.append(text::plural(folders));
    out
}

/// More entries are no smaller.
proof fn lemma_file_bytes_grow(entries: Seq<EntryView>, n: int)
    requires
        0 <= n <= entries.len(),
    ensures
        file_bytes(entries.take(n)) <= file_bytes(entries),
        folder_count(entries.take(n)) <= n,
    decreases entries.len(),
{
    if n == entries.len() {
        assert(entries.take(n) =~= entries);
        if n > 0 {
            lemma_file_bytes_grow(entries.drop_last(), n - 1);
            assert(entries.drop_last().take(n - 1) =~= entries.drop_last());
        }
    } else {
        lemma_file_bytes_grow(entries.drop_last(), n);
        assert(entries.drop_last().take(n) =~= entries.take(n));
    }
}

/// What the dialog for several items shows. The location is that of the first.
pub fn build_multiple(entries: &[FileEntry]) -> (r: MultipleProperties)
    requires
        file_bytes(entry_views(entries@)) <= u64::MAX,
    ensures
        r.summary@ == text::decimal(entries@.len()) + " items selected"@,
        row_texts(r.general@) == ({
            let all = entry_views(entries@);
            let folders = folder_count(all);
            seq![
                ("Contents"@, contents_text((all.len() - folders) as nat, folders)),
                (
                    "Total size"@,
                    if folders > 0 {
                        CALCULATING@
                    } else {
                        outside::size_text(file_bytes(all) as u64)
                    },
                ),
            ] + (if all.len() > 0 {
                seq![("Location"@, parent_text(all[0].path))]
            } else {
                Seq::empty()
            })
        }),
        r.walk == (folder_count(entry_views(entries@)) > 0),
{
    let ghost all = entry_views(entries@);
    let mut folders: usize = 0;
    let mut bytes: u64 = 0;
    let mut i: usize = 0;
    while i < entries.len()
        invariant
            i <= entries@.len(),
            all == entry_views(entries@),
            file_bytes(all) <= u64::MAX,
            folders <= i,
            folders == folder_count(all.take(i as int)),
            bytes == file_bytes(all.take(i as int)),
        decreases entries@.len() - i,
    {
        proof {
            lemma_file_bytes_grow(all, i as int + 1);
            assert(all.take(i as int + 1).drop_last() =~= all.take(i as int));
            assert(all[i as int] == entries@[i as int]@);
        }
        if entries[i].is_dir {
            folders = folders + 1;
        } else {
            bytes = bytes + entries[i].size;
        }
        i = i + 1;
    }
    assert(all.take(all.len() as int) =~= all);
    let mut summary = text::decimal_of(entries.len() as u64);
    summary.append(" items selected");
    let files: usize = entries.len() - folders;
    let mut general: Vec<InfoRow> = Vec::new();
    general.push(info_row("Contents", contents_label(files as u64, folders as u64)));
    let size = if folders > 0 {
        text::copied(CALCULATING)
    } else {
        outside::format_size(bytes)
    };
    general.push(info_row("Total size", size));
    if entries.len() > 0 {
        general.push(info_row("Location", parent_display(&entries[0].path)));
        assert(all[0] == entries@[0]@);
    }
    assert(row_texts(general@) =~= seq![
        ("Contents"@, contents_text((all.len() - folders) as nat, folders as nat)),
        (
            "Total size"@,
            if folders > 0 {
                CALCULATING@
            } else {
                outside::size_text(bytes)
            },
        ),
    ] + (if all.len() > 0 {
        seq![("Location"@, parent_text(all[0].path))]
    } else {
        Seq::empty()
    }));
    MultipleProperties { summary, general, walk: folders > 0 }
}

// ── sizes of trees ─────────────────────────────────────────────────────────

/// What the walk through one folder found, unless the dialog went away in the
/// meantime.
pub fn size_walk_label(bytes: u64, files: u64, dirs: u64, stopped: bool) -> (r: Option<String>)
    ensures
        r is Some <==> !stopped,
        r matches Some(s) ==> s@ == outside::size_text(bytes) + " · "@ + contents_text(
            files as nat,
            dirs as nat,
        ),
{
    if stopped {
        return None;
    }
    let mut out = outside::format_size(bytes);
    out.append(" · ");
    out.append(contents_label(files, dirs).as_str());
    Some(out)
}

/// What the walk through several items found, unless the dialog went away in
/// the meantime.
pub fn multi_size_walk_label(bytes: u64, files: u64, stopped: bool) -> (r: Option<String>)
    ensures
        r is Some <==> !stopped,
        r matches Some(s) ==> s@ == outside::size_text(bytes) + " in "@ + text::decimal(
            files as nat,
        ) + " file"@ + text::plural_ending(files as nat),
{
    if stopped {
        return None;
    }
    let mut out = outside::format_size(bytes);
    out.append(" in ");
    out.append(text::decimal_of(files).as_str());
    out.append(" file");
    out.append(text::plural(files));
    Some(out)
}

/// What one of several items turned out to be.
#[derive(Clone, Copy, Debug, PartialEq, Eq, Structural)]
pub enum Walked {
    /// A folder with that many bytes in that many files.
    Folder { bytes: u64, files: u64 },
    /// A file of that many bytes.
    File { bytes: u64 },
    /// Nothing that could be looked at.
    Gone,
}

/// The bytes of an item.
pub open spec fn walked_bytes(item: Walked) -> nat {
    match item {
        Walked::Folder { bytes, .. } => bytes as nat,
        Walked::File { bytes } => bytes as nat,
        Walked::Gone => 0,
    }
}

/// The files of an item.
pub open spec fn walked_files(item: Walked) -> nat {
    match item {
        Walked::Folder { files, .. } => files as nat,
        Walked::File { .. } => 1,
        Walked::Gone => 0,
    }
}

/// The bytes and files so far with those of one more item.
pub fn add_walked(total: u64, files: u64, item: Walked) -> (r: (u64, u64))
    requires
        total + walked_bytes(item) <= u64::MAX,
        files + walked_files(item) <= u64::MAX,
    ensures
        r.0 == total + walked_bytes(item),
        r.1 == files + walked_files(item),
{
    match item {
        Walked::Folder { bytes, files: count } => (total + bytes, files + count),
        Walked::File { bytes } => (total + bytes, files + 1),
        Walked::Gone => (total, files),
    }
}

/// Everything that can be done with an item is named, in the words for a folder
/// or for a file, and nothing else is.
pub proof fn law_capabilities_are_named(entry: EntryView)
    ensures
        capabilities(entry).len() == (if entry.can_read {
            1int
        } else {
            0int
        }) + (if entry.can_write {
            1int
        } else {
            0int
        }) + (if entry.can_execute {
            1int
        } else {
            0int
        }),
        entry.can_read ==> capabilities(entry)[0] == (if entry.is_dir {
            "list"@
        } else {
            "read"@
        }),
        entry.can_write ==> capabilities(entry).contains(
            if entry.is_dir {
                "add and remove items"@
            } else {
                "write"@
            },
        ),
        entry.can_execute ==> capabilities(entry).last() == (if entry.is_dir {
            "enter"@
        } else {
            "execute"@
        }),
        !entry.can_read && !entry.can_write && !entry.can_execute ==> capabilities_text(entry)
            == "nothing"@,
        entry.can_read || entry.can_write || entry.can_execute ==> capabilities_text(entry)
            == text::joined(capabilities(entry), ", "@),
{
    if entry.can_write {
        let at = if entry.can_read {
            1int
        } else {
            0int
        };
        assert(capabilities(entry)[at] == (if entry.is_dir {
            "add and remove items"@
        } else {
            "write"@
        }));
    }
}

/// Each entry adds to the folders or its size to that of the files.
pub proof fn law_entries_add_up(entries: Seq<EntryView>, entry: EntryView)
    ensures
        folder_count(Seq::empty()) == 0,
        file_bytes(Seq::empty()) == 0,
        entry.is_dir ==> folder_count(entries.push(entry)) == folder_count(entries) + 1
            && file_bytes(entries.push(entry)) == file_bytes(entries),
        !entry.is_dir ==> folder_count(entries.push(entry)) == folder_count(entries) && file_bytes(
            entries.push(entry),
        ) == file_bytes(entries) + entry.size,
{
    assert(entries.push(entry).drop_last() =~= entries);
}

/// The general rows of a file show its size, where it is and when it was
/// modified; a link shows where it leads too, and the size of a folder has to be
/// found out.
pub proof fn law_general_rows(entry: EntryView, modified: Seq<char>)
    ensures
        ({
            let rows = general_texts(entry, modified);
            &&& rows.len() == (if entry.is_symlink {
                4int
            } else {
                3int
            })
            &&& !entry.is_dir ==> rows[0] == (
                "Size"@,
                outside::size_text(entry.size) + " ("@ + text::decimal(entry.size as nat)
                    + " bytes)"@,
            )
            &&& entry.is_dir ==> rows[0] == ("Size"@, CALCULATING@)
            &&& rows[1] == ("Location"@, parent_text(entry.path))
            &&& rows[2] == ("Modified"@, modified)
            &&& entry.is_symlink && entry.symlink_target is Some ==> rows[3] == (
                "Symbolic link to"@,
                entry.symlink_target->0,
            )
            &&& entry.is_symlink && entry.symlink_target is None ==> rows[3] == (
                "Symbolic link to"@,
                "unknown"@,
            )
        }),
{
}

/// The location of an item is the folder it is in.
pub proof fn law_the_location_is_the_folder(dir: Seq<u8>, sub: Seq<u8>, name: Seq<u8>)
    requires
        path::is_name(sub),
        path::is_name(name),
    ensures
        parent_text(path::joined(path::joined(dir, sub), name)) == outside::lossy(
            path::joined(dir, sub),
        ),
        parent_text(path::root() + name) == outside::lossy(path::root()),
{
    path::law_the_parent_is_the_directory(dir, sub, name);
}

/// Only a file whose name did not tell its type is looked into.
pub proof fn law_only_unknown_files_are_looked_into(entry: EntryView)
    ensures
        unsettled(entry) <==> !entry.is_dir && entry.content_type == UNKNOWN_TYPE@,
        contents_text(1, 1) == text::decimal(1) + " file"@ + ""@ + ", "@ + text::decimal(1)
            + " folder"@ + ""@,
        contents_text(2, 0) == text::decimal(2) + " file"@ + "s"@ + ", "@ + text::decimal(0)
            + " folder"@ + "s"@,
{
}

/// A folder counts with all that is in it, a file with itself, and what is gone
/// with nothing.
pub proof fn law_walked_items_count(bytes: u64, files: u64)
    ensures
        walked_bytes(Walked::Folder { bytes, files }) == bytes,
        walked_files(Walked::Folder { bytes, files }) == files,
        walked_bytes(Walked::File { bytes }) == bytes,
        walked_files(Walked::File { bytes }) == 1,
        walked_bytes(Walked::Gone) == 0,
        walked_files(Walked::Gone) == 0,
{
}

/// Permissions are shown in words and in octal, without the bits that tell the
/// kind of file.
pub proof fn law_modes_are_shown_in_octal(permissions: Seq<char>, mode: u32)
    ensures
        mode <= 0o7777 ==> mode_text(permissions, mode) == permissions + " ("@ + text::numeral(
            mode as nat,
            8,
        ) + ")"@,
        mode_text(permissions, mode) == mode_text(permissions, mode & 0o7777),
{
    assert(mode <= 0o7777 ==> mode & 0o7777 == mode) by (bit_vector);
    assert((mode & 0o7777) & 0o7777 == mode & 0o7777) by (bit_vector);
}

} // verus!
