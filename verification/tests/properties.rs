//! The properties dialog.

use fileman::entry::FileEntry;
use fileman::path::FilePath;
use fileman::properties::add_walked;
use fileman::properties::build_multiple;
use fileman::properties::build_single;
use fileman::properties::capabilities_label;
use fileman::properties::multi_size_walk_label;
use fileman::properties::needs_sniffing;
use fileman::properties::parent_display;
use fileman::properties::precise_content_type;
use fileman::properties::present;
use fileman::properties::size_walk_label;
use fileman::properties::Presentation;
use fileman::properties::Walked;

/// A file or folder in `/d`.
fn entry(name: &str, is_dir: bool, size: u64) -> FileEntry {
    FileEntry {
        path: FilePath::new("/d").join_text(name),
        name: name.to_string(),
        display_name: name.to_string(),
        search_key: name.to_string(),
        is_dir,
        is_symlink: false,
        symlink_target: None,
        is_hidden: false,
        size,
        modified: None,
        content_type: if is_dir { "inode/directory" } else { "text/plain" }.to_string(),
        can_read: true,
        can_write: true,
        can_execute: false,
        mode: 0o100644,
    }
}

#[test]
fn one_item_gets_its_own_dialog() {
    assert_eq!(present(&[]), Presentation::Nothing);
    assert_eq!(present(&[entry("a", false, 1)]), Presentation::Single);
    assert_eq!(present(&[entry("a", false, 1), entry("b", true, 1)]), Presentation::Multiple);
}

#[test]
fn a_file_shows_its_size_in_words_and_bytes() {
    let mut file = entry("a.txt", false, 1500);
    file.is_symlink = true;
    let shown = build_single(&file, "Text", "Yesterday", "rw-r--r--", "text/plain");
    let rows: Vec<(&str, &str)> =
        shown.general.iter().map(|r| (r.title, r.subtitle.as_str())).collect();
    assert_eq!(
        rows,
        [
            ("Size", "1.50 kB (1500 bytes)"),
            ("Location", "/d"),
            ("Modified", "Yesterday"),
            ("Symbolic link to", "unknown"),
        ]
    );
    assert_eq!(shown.permissions[0].subtitle, "rw-r--r-- (644)");
    assert_eq!(shown.permissions[1].subtitle, "read, write");
    assert_eq!(shown.details[0].subtitle, "/d/a.txt");
    assert!(!shown.walk);
    assert!(build_single(&entry("d", true, 0), "Folder", "", "", "").walk);
}

#[test]
fn what_can_be_done_depends_on_the_kind() {
    let mut item = entry("d", true, 0);
    item.can_execute = true;
    assert_eq!(capabilities_label(&item), "list, add and remove items, enter");
    item.is_dir = false;
    assert_eq!(capabilities_label(&item), "read, write, execute");
    item.can_read = false;
    item.can_write = false;
    item.can_execute = false;
    assert_eq!(capabilities_label(&item), "nothing");
}

#[test]
fn only_an_unsettled_type_is_looked_into() {
    let mut item = entry("README", false, 1);
    assert!(!needs_sniffing(&item));
    assert_eq!(precise_content_type(&item, Some("x/y")), "text/plain");
    item.content_type = "application/octet-stream".to_string();
    assert!(needs_sniffing(&item));
    assert_eq!(precise_content_type(&item, Some("x/y")), "x/y");
    assert_eq!(precise_content_type(&item, None), "application/octet-stream");
}

#[test]
fn several_items_are_counted() {
    let shown = build_multiple(&[entry("a", false, 1000), entry("b", false, 500)]);
    assert_eq!(shown.summary, "2 items selected");
    assert_eq!(shown.general[0].subtitle, "2 files, 0 folders");
    assert_eq!(shown.general[1].subtitle, "1.50 kB");
    assert_eq!(shown.general[2].subtitle, "/d");
    assert!(!shown.walk);
    let shown = build_multiple(&[entry("a", false, 1000), entry("b", true, 500)]);
    assert_eq!(shown.general[0].subtitle, "1 file, 1 folder");
    assert_eq!(shown.general[1].subtitle, "Calculating…");
    assert!(shown.walk);
}

#[test]
fn no_items_have_no_location() {
    let shown = build_multiple(&[]);
    assert_eq!(shown.summary, "0 items selected");
    assert_eq!(shown.general.len(), 2);
    assert_eq!(shown.general[0].subtitle, "0 files, 0 folders");
    assert_eq!(shown.general[1].subtitle, "0 B");
    assert!(!shown.walk);
}

#[test]
fn a_walk_reports_unless_it_was_stopped() {
    assert_eq!(
        size_walk_label(2000, 1, 2, false),
        Some("2 kB · 1 file, 2 folders".to_string())
    );
    assert_eq!(size_walk_label(2000, 1, 2, true), None);
    assert_eq!(multi_size_walk_label(2000, 3, false), Some("2 kB in 3 files".to_string()));
    assert_eq!(multi_size_walk_label(2000, 3, true), None);
    let (total, files) = add_walked(10, 1, Walked::Folder { bytes: 5, files: 3 });
    assert_eq!(add_walked(total, files, Walked::File { bytes: 7 }), (22, 5));
    assert_eq!(add_walked(22, 5, Walked::Gone), (22, 5));
}

#[test]
fn the_root_is_its_own_location() {
    assert_eq!(parent_display(&FilePath::new("/a/b")), "/a");
    assert_eq!(parent_display(&FilePath::root()), "/");
}
