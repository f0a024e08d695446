//! Paths by their components.

use fileman::path::FilePath;
use std::path::Path;

/// Paths with every oddity that a path may have.
const ODD: [&str; 18] = [
    "", "/", "//", ".", "./", "..", "/..", "a", "a/", "a//b", "./a", "a/.", "a/./b", "/a/b/..",
    "../a", "/.hidden", "a.b.c", "dir/archive.tar.gz",
];

#[test]
fn names_parents_and_stems_agree_with_std() {
    for s in ODD {
        let ours = FilePath::new(s);
        let theirs = Path::new(s);
        assert_eq!(
            ours.file_name_text(),
            theirs.file_name().map(|n| n.to_string_lossy().into_owned()),
            "{s:?}"
        );
        assert_eq!(
            ours.file_stem_text(),
            theirs.file_stem().map(|n| n.to_string_lossy().into_owned()),
            "{s:?}"
        );
        assert_eq!(
            ours.parent().map(|p| p.display()),
            theirs.parent().map(|p| p.display().to_string()),
            "{s:?}"
        );
        assert_eq!(ours.is_absolute(), theirs.is_absolute(), "{s:?}");
        assert_eq!(ours.components().len(), theirs.components().count(), "{s:?}");
        assert_eq!(ours.display(), s);
    }
}

#[test]
fn equality_and_prefixes_agree_with_std() {
    for a in ODD {
        for b in ODD {
            let (ours_a, ours_b) = (FilePath::new(a), FilePath::new(b));
            assert_eq!(ours_a.same_as(&ours_b), Path::new(a) == Path::new(b), "{a:?} {b:?}");
            assert_eq!(
                ours_a.starts_with(&ours_b),
                Path::new(a).starts_with(Path::new(b)),
                "{a:?} {b:?}"
            );
            assert_eq!(
                ours_a.join(&ours_b).display(),
                Path::new(a).join(b).display().to_string(),
                "{a:?} {b:?}"
            );
        }
    }
}

#[test]
fn the_parent_of_an_entry_is_its_directory() {
    let dir = FilePath::new("/home/ada");
    let entry = dir.join_text("notes.txt");
    assert_eq!(entry.display(), "/home/ada/notes.txt");
    assert!(entry.parent().unwrap().same_as(&dir));
    assert_eq!(entry.file_name_text(), Some("notes.txt".to_string()));
    assert!(FilePath::root().parent().is_none());
}

#[test]
fn bytes_that_are_no_text_are_shown_with_replacements() {
    let path = FilePath::from_bytes(vec![b'/', b'a', 0xFF, b'b']);
    assert_eq!(path.display(), "/a\u{FFFD}b");
    assert_eq!(path.file_name(), Some(vec![b'a', 0xFF, b'b']));
    assert!(path.same_as(&path.copy()));
}
