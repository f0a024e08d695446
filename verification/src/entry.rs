//! What is known of a file or folder, and the settings that say how folders are
//! shown.

use crate::path::FilePath;
use crate::text;
use vstd::prelude::*;
use vstd::string::*;

verus! {

/// A file or folder as a directory listing describes it.
#[derive(Debug)]
pub struct FileEntry {
    /// Where it is.
    pub path: FilePath,
    /// Its name.
    pub name: String,
    /// Its name as it is shown.
    pub display_name: String,
    /// Its name in lower case, which searches look through.
    pub search_key: String,
    /// Whether it is a folder.
    pub is_dir: bool,
    /// Whether it is a symbolic link.
    pub is_symlink: bool,
    /// Where the link leads.
    pub symlink_target: Option<String>,
    /// Whether it is hidden.
    pub is_hidden: bool,
    /// Its size in bytes.
    pub size: u64,
    /// When it was last modified, in seconds since the epoch.
    pub modified: Option<i64>,
    /// The type of its contents.
    pub content_type: String,
    /// Whether it can be read.
    pub can_read: bool,
    /// Whether it can be written.
    pub can_write: bool,
    /// Whether it can be executed.
    pub can_execute: bool,
    /// Its permission bits.
    pub mode: u32,
}

/// The plain values of an entry.
pub struct EntryView {
    /// Where it is.
    pub path: Seq<u8>,
    /// Its name.
    pub name: Seq<char>,
    /// Its name as it is shown.
    pub display_name: Seq<char>,
    /// Its name in lower case.
    pub search_key: Seq<char>,
    /// Whether it is a folder.
    pub is_dir: bool,
    /// Whether it is a symbolic link.
    pub is_symlink: bool,
    /// Where the link leads.
    pub symlink_target: Option<Seq<char>>,
    /// Whether it is hidden.
    pub is_hidden: bool,
    /// Its size in bytes.
    pub size: u64,
    /// When it was last modified.
    pub modified: Option<i64>,
    /// The type of its contents.
    pub content_type: Seq<char>,
    /// Whether it can be read.
    pub can_read: bool,
    /// Whether it can be written.
    pub can_write: bool,
    /// Whether it can be executed.
    pub can_execute: bool,
    /// Its permission bits.
    pub mode: u32,
}

impl View for FileEntry {
    type V = EntryView;

    open spec fn view(&self) -> EntryView {
        EntryView {
            path: self.path@,
            name: self.name@,
            display_name: self.display_name@,
            search_key: self.search_key@,
            is_dir: self.is_dir,
            is_symlink: self.is_symlink,
            symlink_target: match self.symlink_target {
                Some(target) => Some(target@),
                None => None,
            },
            is_hidden: self.is_hidden,
            size: self.size,
            modified: self.modified,
            content_type: self.content_type@,
            can_read: self.can_read,
            can_write: self.can_write,
            can_execute: self.can_execute,
            mode: self.mode,
        }
    }
}

impl FileEntry {
    /// A copy of the entry.
    pub fn copy(&self) -> (r: FileEntry)
        ensures
            r@ == self@,
    {
        FileEntry {
            path: self.path.copy(),
            name: text::copied(self.name.as_str()),
            display_name: text::copied(self.display_name.as_str()),
            search_key: text::copied(self.search_key.as_str()),
            is_dir: self.is_dir,
            is_symlink: self.is_symlink,
            symlink_target: match &self.symlink_target {
                Some(target) => Some(text::copied(target.as_str())),
                None => None,
            },
            is_hidden: self.is_hidden,
            size: self.size,
            modified: self.modified,
            content_type: text::copied(self.content_type.as_str()),
            can_read: self.can_read,
            can_write: self.can_write,
            can_execute: self.can_execute,
            mode: self.mode,
        }
    }
}

/// What files are sorted by.
#[derive(Clone, Copy, Debug, PartialEq, Eq, Structural)]
pub enum SortKey {
    /// Their names.
    Name,
    /// Their sizes.
    Size,
    /// When they were last modified.
    Modified,
    /// What kind of file they are.
    Kind,
}

/// The two presentations of a folder.
#[derive(Clone, Copy, Debug, PartialEq, Eq, Structural)]
pub enum ViewMode {
    /// An icon grid.
    Grid,
    /// A details list.
    List,
}

/// Which colour scheme is used.
#[derive(Clone, Copy, Debug, PartialEq, Eq, Structural)]
pub enum Theme {
    /// The desktop's.
    System,
    /// Light.
    Light,
    /// Dark.
    Dark,
}

} // verus!
