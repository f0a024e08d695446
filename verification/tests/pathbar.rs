//! The path bar.

use fileman::path::FilePath;
use fileman::pathbar::complete;
use fileman::pathbar::crumbs_for;
use fileman::pathbar::expand_env;
use fileman::pathbar::home_dir;
use fileman::pathbar::normalize;
use fileman::pathbar::resolve_from;
use fileman::pathbar::Page;
use fileman::pathbar::PathBar;

/// Variables that are set.
fn env(pairs: &[(&str, &str)]) -> Vec<(String, String)> {
    pairs.iter().map(|(name, value)| (name.to_string(), value.to_string())).collect()
}

#[test]
fn normalize_resolves_parent_components() {
    assert_eq!(normalize(&FilePath::new("/a/b/../c")).display(), "/a/c");
    assert_eq!(normalize(&FilePath::new("/a/./b")).display(), "/a/b");
    assert_eq!(normalize(&FilePath::new("/..")).display(), "/");
}

#[test]
fn env_expansion_leaves_unknown_variables_alone() {
    let env = env(&[("FILEMAN_TEST_DIR", "/tmp/x")]);
    assert_eq!(expand_env("$FILEMAN_TEST_DIR/y", &env), "/tmp/x/y");
    assert_eq!(expand_env("${FILEMAN_TEST_DIR}/y", &env), "/tmp/x/y");
    assert_eq!(expand_env("$NOT_SET_ANYWHERE_12345/y", &env), "$NOT_SET_ANYWHERE_12345/y");
}

#[test]
fn an_unknown_name_in_braces_stays_as_it_is() {
    assert_eq!(expand_env("${NOT_SET}/y", &[]), "${NOT_SET}/y");
    assert_eq!(expand_env("a$", &[]), "a$");
    assert_eq!(expand_env("$$", &[]), "$$");
    assert_eq!(expand_env("${", &[]), "${");
    assert_eq!(expand_env("plain text", &env(&[("plain", "x")])), "plain text");
}

#[test]
fn names_end_where_no_letter_follows() {
    let env = env(&[("A", "1"), ("A_B", "2"), ("é", "3")]);
    assert_eq!(expand_env("$A-$A_B-$é.$A", &env), "1-2-3.1");
    assert_eq!(expand_env("${A}${A_B}", &env), "12");
    // What closes a name in braces is skipped, whatever it is.
    assert_eq!(expand_env("${A-x", &env), "1x");
}

#[test]
fn normalizing_keeps_a_relative_path_relative() {
    assert_eq!(normalize(&FilePath::new("a/../b")).display(), "b");
    assert_eq!(normalize(&FilePath::new("a/..")).display(), "/");
    assert_eq!(normalize(&FilePath::new("../../x")).display(), "x");
    assert_eq!(normalize(&FilePath::new("")).display(), "/");
    for s in ["/a//b/", "../x/./y", "/", "a/b/../../c"] {
        let once = normalize(&FilePath::new(s));
        assert_eq!(normalize(&once).display(), once.display());
    }
}

#[test]
fn typed_texts_are_resolved() {
    let here = FilePath::new("/srv/data");
    let home = FilePath::new("/home/ada");
    let env = env(&[("SUB", "music")]);
    let resolve = |text: &str| {
        resolve_from(&here, text, Some(&home), &env).map(|path| path.display())
    };
    assert_eq!(resolve("  "), None);
    assert_eq!(resolve("/etc/../var"), Some("/var".to_string()));
    assert_eq!(resolve("sub/dir"), Some("/srv/data/sub/dir".to_string()));
    assert_eq!(resolve("~"), Some("/home/ada".to_string()));
    assert_eq!(resolve("~/$SUB"), Some("/home/ada/$SUB".to_string()));
    assert_eq!(resolve("$SUB/x"), Some("/srv/data/music/x".to_string()));
    assert_eq!(resolve("file:///tmp/a%20b"), Some("/tmp/a b".to_string()));
    assert_eq!(resolve("$UNSET"), Some("/srv/data/$UNSET".to_string()));
}

#[test]
fn without_a_home_the_tilde_leads_nowhere() {
    let here = FilePath::new("/srv");
    assert!(resolve_from(&here, "~/x", None, &[]).is_none());
}

#[test]
fn crumbs_start_at_home_or_at_the_root() {
    let home = FilePath::new("/home/ada");
    let crumbs = crumbs_for(&FilePath::new("/home/ada/Music/Live"), Some(&home));
    let labels: Vec<&str> = crumbs.iter().map(|c| c.label.as_str()).collect();
    assert_eq!(labels, ["Home", "Music", "Live"]);
    assert_eq!(crumbs[1].target.display(), "/home/ada/Music");
    assert!(crumbs[2].current && !crumbs[0].current);

    let crumbs = crumbs_for(&FilePath::new("/usr/lib"), Some(&home));
    let targets: Vec<String> = crumbs.iter().map(|c| c.target.display()).collect();
    assert_eq!(targets, ["/", "/usr", "/usr/lib"]);
}

#[test]
fn the_bar_switches_between_crumbs_and_text() {
    let mut bar = PathBar::new();
    bar.set_path_from(&FilePath::new("/usr/lib"), None);
    assert!(matches!(bar.page, Page::Crumbs));
    bar.start_editing();
    assert!(matches!(bar.page, Page::Entry));
    assert_eq!(bar.entry, "/usr/lib");
    assert!(bar.selected);
    assert!(!bar.key_pressed(false));
    assert!(matches!(bar.page, Page::Entry));
    assert!(bar.key_pressed(true));
    assert!(matches!(bar.page, Page::Crumbs));
}

#[test]
fn a_wrong_path_is_marked_and_stays_editable() {
    let mut bar = PathBar::new();
    bar.start_editing();
    assert!(bar.commit(None).is_none());
    assert!(bar.error);
    let gone = bar.commit(Some(FilePath::new("/tmp")));
    assert_eq!(gone.unwrap().display(), "/tmp");
}

#[test]
fn one_directory_completes_the_last_segment() {
    let entries =
        [("Music".to_string(), true), ("Movies".to_string(), true), ("Mu.txt".to_string(), false)];
    let done = complete("/home/Mu", "Mu", &entries).unwrap();
    assert_eq!(done.text, "/home/Music");
    assert_eq!(done.select_from, 8);
    assert!(complete("/home/M", "M", &entries).is_none());
    assert!(complete("/home/X", "X", &entries).is_none());
}

#[test]
fn completions_are_looked_for_at_the_end_of_the_text() {
    let home = FilePath::new("/home/ada");
    let mut bar = PathBar::new();
    bar.set_path_from(&FilePath::new("/srv"), Some(&home));
    let found = bar.changed("/usr/li", 7, Some(&home)).unwrap();
    assert_eq!(found.dir.display(), "/usr");
    assert_eq!(found.prefix, "li");
    assert!(bar.changed("/usr/li", 3, Some(&home)).is_none());
    assert!(bar.changed("/usr/", 5, Some(&home)).is_none());
    assert!(bar.changed("usr", 3, Some(&home)).is_none());
    assert!(bar.changed("~/Mu", 4, Some(&home)).unwrap().dir.same_as(&home));
    assert_eq!(bar.changed("/u", 2, Some(&home)).unwrap().dir.display(), "/");
}

#[test]
fn the_home_directory_is_absolute_where_there_is_one() {
    if let Some(home) = home_dir() {
        assert!(!home.bytes.is_empty());
        let bar = PathBar::new();
        assert!(bar.resolve("~", &[]).unwrap().same_as(&normalize(&home)));
    }
}
