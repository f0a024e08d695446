//! The window: tabs, navigation and search.

use fileman::chrome::apply_theme;
use fileman::chrome::current_dir_entry;
use fileman::chrome::folder_status;
use fileman::chrome::icon_size_changed;
use fileman::chrome::launch_failed;
use fileman::chrome::mouse_button;
use fileman::chrome::open_path;
use fileman::chrome::recent_entry;
use fileman::chrome::remember_geometry;
use fileman::chrome::scroll_zoom;
use fileman::chrome::trash_entry;
use fileman::chrome::update_capacity;
use fileman::chrome::view_icon;
use fileman::chrome::zoom;
use fileman::chrome::zoom_texts;
use fileman::chrome::Activation;
use fileman::chrome::BannerClick;
use fileman::chrome::ColorScheme;
use fileman::chrome::Debounce;
use fileman::chrome::Geometry;
use fileman::chrome::HistoryFacts;
use fileman::chrome::Metadata;
use fileman::chrome::MouseNavigation;
use fileman::chrome::OpenPlan;
use fileman::chrome::PathKind;
use fileman::chrome::ReloadPlan;
use fileman::chrome::TrashItem;
use fileman::entry::FileEntry;
use fileman::entry::Theme;
use fileman::entry::ViewMode;
use fileman::file_view::FilterChange;
use fileman::path::FilePath;
use fileman::pathbar::home_dir;
use fileman::window::display_title;
use fileman::window::display_title_from;
use fileman::window::BannerAction;
use fileman::window::Load;
use fileman::window::Location;
use fileman::window::Monitor;
use fileman::window::Window;

/// A file or folder in `/d`.
fn entry(name: &str, is_dir: bool, size: u64) -> FileEntry {
    FileEntry {
        path: FilePath::new("/d").join_text(name),
        name: name.to_string(),
        display_name: name.to_string(),
        search_key: name.to_lowercase(),
        is_dir,
        is_symlink: false,
        symlink_target: None,
        is_hidden: false,
        size,
        modified: None,
        content_type: String::new(),
        can_read: true,
        can_write: true,
        can_execute: false,
        mode: 0,
    }
}

/// A location in the file system.
fn at(path: &str) -> Location {
    Location::Directory(FilePath::new(path))
}

/// A window that has gone to `/d`.
fn window() -> Window {
    let mut window = Window::new(&FilePath::new("/d"), false, ViewMode::Grid);
    window.navigate_from(at("/d"), true, false, None);
    window
}

#[test]
fn navigating_starts_afresh() {
    let mut window = window();
    let generation = window.tabs[0].scan_generation;
    assert!(window.scan_batch(0, generation, vec![entry("a", false, 1)]));
    let home = FilePath::new("/home/ada");
    let plan = window.navigate_from(at("/home/ada"), true, false, Some(&home));
    assert_eq!(plan.window_title.as_deref(), Some("Home"));
    assert_eq!(plan.tab_title, "ada");
    assert_eq!(plan.push_history.unwrap().display(), "/home/ada");
    assert!(matches!(plan.monitor, Monitor::Watch(_)));
    assert!(matches!(plan.load, Load::Directory(_)));
    assert!(window.tabs[0].view.model.is_empty());
    // What comes late from the folder that was left is dropped.
    assert!(!window.scan_batch(0, generation, vec![entry("late", false, 1)]));
    assert!(window.tabs[0].view.model.is_empty());
    assert!(!window.scan_finished(0, generation, Some("late")));
    assert!(!window.banner.revealed);
}

#[test]
fn the_trash_has_no_directory() {
    let mut window = window();
    let plan = window.navigate_from(Location::Trash, true, false, None);
    assert!(plan.push_history.is_none());
    assert!(matches!(plan.monitor, Monitor::Stop));
    assert_eq!(plan.window_title.as_deref(), Some("Trash"));
    assert!(window.in_trash() && window.current_dir().is_none());
    assert!(window.load_trash(plan.generation, vec![entry("a", false, 1)], false));
    assert_eq!(window.banner.button, Some("Empty Trash"));
    assert_eq!(window.banner_clicked(), BannerClick::EmptyTrash);
    assert!(window.go_up(false, None).is_none());
    assert_eq!(
        window.sync_to_active_tab().virtual_place,
        Some(("Trash", "user-trash-symbolic"))
    );
    assert!(matches!(
        window.activate_item(&entry("a", false, 1)),
        Activation::Toast("Restore this item before opening it")
    ));
}

#[test]
fn recent_files_can_be_cleared() {
    let mut window = window();
    let plan = window.navigate_from(Location::Recent, true, false, None);
    assert!(plan.window_title.is_none());
    assert!(matches!(plan.monitor, Monitor::Keep));
    assert!(window.load_recent(plan.generation, vec![]));
    assert_eq!(window.banner.title, "No recently used files yet");
    assert_eq!(window.banner_clicked(), BannerClick::Nothing);
    let plan = window.navigate_from(Location::Recent, true, false, None);
    assert!(window.load_recent(plan.generation, vec![entry("a", false, 1)]));
    assert_eq!(window.banner.button, Some("Clear"));
    assert_eq!(window.banner_clicked(), BannerClick::ClearRecent);
    assert!(!window.load_recent(0, vec![entry("b", false, 1)]));
    assert_eq!(window.tabs[0].view.model.len(), 1);
}

#[test]
fn navigate_to_knows_the_home_directory() {
    let mut window = window();
    if let Some(home) = home_dir() {
        let plan = window.navigate_to(Location::Directory(home.copy()), false, false);
        assert_eq!(plan.window_title.as_deref(), Some("Home"));
        assert!(plan.push_history.is_none());
        assert_eq!(display_title(&home), "Home");
    }
    assert_eq!(display_title_from(&FilePath::new("/usr/lib"), None), "lib");
    assert_eq!(display_title_from(&FilePath::root(), None), "/");
}

#[test]
fn tabs_are_opened_cycled_and_closed() {
    let mut window = window();
    assert!(!window.shows_tab_strip());
    let plan = window.open_in_new_tab(at("/e"), false, ViewMode::Grid, None);
    assert!(plan.push_history.is_none());
    window.open_in_new_tab(Location::Trash, false, ViewMode::Grid, None);
    assert_eq!((window.tabs.len(), window.active), (3, 2));
    assert!(window.shows_tab_strip());
    window.cycle_tab(1);
    assert_eq!(window.active, 0);
    window.cycle_tab(-1);
    assert_eq!(window.active, 2);
    window.cycle_tab(-7);
    window.cycle_tab(7);
    assert_eq!(window.active, 2);
    window.select_tab(1);
    assert_eq!(window.current_dir().unwrap().display(), "/e");
    assert!(!window.close_tab(0));
    assert_eq!(window.current_dir().unwrap().display(), "/e");
    assert!(!window.close_tab(0));
    assert!(window.in_trash());
    assert!(window.close_tab(0), "closing the last tab closes the window");
    assert_eq!(window.tabs.len(), 1);
    window.cycle_tab(1);
    assert_eq!(window.active, 0);
}

#[test]
fn a_scan_belongs_to_the_tab_that_started_it() {
    let mut window = window();
    let first = window.tabs[0].scan_generation;
    window.open_in_new_tab(at("/e"), false, ViewMode::Grid, None);
    assert!(window.scan_batch(0, first, vec![entry("a", false, 1)]));
    assert_eq!(window.tabs[0].view.model.len(), 1);
    assert!(window.tabs[1].view.model.is_empty());
    assert!(!window.scan_finished(0, first, None), "another tab is in front");
    let second = window.tabs[1].scan_generation;
    assert!(window.scan_finished(1, second, Some("Permission denied")));
    assert_eq!(window.banner.title, "Could not read this folder: Permission denied");
    assert_eq!(window.banner.action, BannerAction::Nothing);
}

#[test]
fn a_search_walks_below_the_folder() {
    let mut window = window();
    let plan = window.update_search("Re ", None);
    assert_eq!(plan.filter, Some(FilterChange::MoreStrict));
    let (root, what, generation) = plan.walk.unwrap();
    assert_eq!((root.display().as_str(), what.as_str()), ("/d", "Re"));
    assert!(window.searching);
    assert_eq!(window.banner.title, "Searching for “Re” in d…");
    assert_eq!(window.banner.button, Some("Stop"));
    assert!(window.search_matches(generation, vec![entry("report", false, 1)]));
    assert!(window.search_finished(generation, "Re", 1, false));
    assert_eq!(window.banner.title, "1 match below this folder");

    let plan = window.update_search("x", None);
    assert!(plan.walk.is_none());
    assert!(!window.searching && !window.banner.revealed);
    assert!(!window.search_matches(generation, vec![entry("late", false, 1)]));
    assert!(!window.search_finished(generation, "Re", 1, false));
}

#[test]
fn a_search_can_be_stopped() {
    let mut window = window();
    let (_, _, generation) = window.update_search("report", None).walk.unwrap();
    assert_eq!(window.banner_clicked(), BannerClick::Stopped);
    assert!(!window.searching && !window.banner.revealed);
    assert!(!window.search_matches(generation, vec![]));
    window.update_search("report", None);
    window.stop_search();
    assert!(!window.searching);
    assert_eq!(window.search_closed(), Some(FilterChange::LessStrict));
    window.navigate_from(Location::Trash, false, false, None);
    assert!(window.update_search("report", None).walk.is_none());
}

#[test]
fn the_outcome_of_a_search_is_told() {
    let mut window = window();
    for (total, truncated, title) in [
        (0, false, "No matches for “q” below this folder"),
        (2, false, "2 matches below this folder"),
        (500, true, "Showing the first 500 matches — narrow the search to see fewer"),
    ] {
        let (_, _, generation) = window.update_search("qq", None).walk.unwrap();
        assert!(window.search_finished(generation, "q", total, truncated));
        assert_eq!(window.banner.title, title);
    }
}

#[test]
fn going_somewhere_says_where() {
    let mut window = window();
    let home = FilePath::new("/");
    let facts = HistoryFacts { previous: Some(FilePath::new("/a/b")), next: None };
    let buttons = window.update_nav_buttons(&facts, Some(&home));
    assert_eq!(buttons.back.tooltip, "Back to “b”  (Alt+Left)");
    assert!(buttons.back.sensitive && !buttons.forward.sensitive);
    assert_eq!(buttons.forward.tooltip, "Forward  (Alt+Right)");
    assert_eq!(buttons.up.tooltip, "Up to “Home”  (Alt+Up)");
    let plan = window.go_up(false, None).unwrap();
    assert_eq!(plan.push_history.unwrap().display(), "/");
    assert!(!window.update_nav_buttons(&facts, None).up.sensitive);
    assert!(window.go_back(None, false, None).is_none());
    let plan = window.go_back(Some(FilePath::new("/a/b")), false, None).unwrap();
    assert!(plan.push_history.is_none());
    assert_eq!(window.current_dir().unwrap().display(), "/a/b");
    window.go_forward(Some(FilePath::new("/c")), false, None);
    assert_eq!(window.current_dir().unwrap().display(), "/c");
}

#[test]
fn a_folder_that_is_gone_is_left() {
    let mut window = window();
    let plan = window.reload(false, &[]);
    assert!(matches!(plan, ReloadPlan::Recover(p) if p.display() == "/d"));
    let (message, _) =
        window.recover_from_missing_directory(&FilePath::new("/d"), FilePath::new("/"), false, None);
    assert_eq!(message, "“/d” is no longer available");
    assert_eq!(window.current_dir().unwrap().display(), "/");
    let generation = window.tabs[0].scan_generation;
    window.scan_batch(0, generation, vec![entry("a", false, 1), entry("b", false, 1)]);
    window.tabs[0].view.select_all();
    match window.reload(true, &[1, 0]) {
        ReloadPlan::Again { reselect, .. } => {
            let names: Vec<String> = reselect.iter().map(|p| p.display()).collect();
            assert_eq!(names, ["/d/b", "/d/a"]);
        }
        ReloadPlan::Recover(_) => panic!("the folder is there"),
    }
}

#[test]
fn opening_a_path_enters_or_reveals_it() {
    let path = FilePath::new("/d/a.txt");
    assert!(matches!(open_path(&path, PathKind::Directory), OpenPlan::Enter(_)));
    match open_path(&path, PathKind::File) {
        OpenPlan::Reveal { folder, file } => {
            assert_eq!((folder.display(), file.display()), ("/d".into(), "/d/a.txt".into()));
        }
        other => panic!("{other:?}"),
    }
    match open_path(&path, PathKind::Missing) {
        OpenPlan::Toast(message) => assert_eq!(message, "“/d/a.txt” does not exist"),
        other => panic!("{other:?}"),
    }
    assert!(matches!(open_path(&FilePath::root(), PathKind::File), OpenPlan::Nothing));
    let window = window();
    assert!(matches!(window.activate_item(&entry("s", true, 0)), Activation::Enter(_)));
    assert!(matches!(window.activate_item(&entry("s", false, 0)), Activation::Launch(_)));
    assert_eq!(launch_failed(true, "no"), None);
    assert_eq!(launch_failed(false, "no"), Some("Could not open: no".to_string()));
    let onto = window.drop_destination(Some(FilePath::new("/d/s")));
    assert_eq!(onto.unwrap().display(), "/d/s");
    assert_eq!(window.drop_destination(None).unwrap().display(), "/d");
}

#[test]
fn the_status_counts_what_is_shown() {
    assert_eq!(folder_status(0, 0, 0), "0 files");
    assert_eq!(folder_status(3, 1500, 1), "1 folder, 2 files, 1.50 kB");
    assert_eq!(folder_status(2, 0, 2), "2 folders");
    let mut window = window();
    let generation = window.tabs[0].scan_generation;
    window.scan_batch(
        0,
        generation,
        vec![entry("a", false, 1000), entry("b", false, 500), entry("c", true, 4096)],
    );
    let order = [0, 1, 2];
    assert_eq!(window.update_status(&order), "1 folder, 2 files, 1.50 kB");
    let only = |window: &mut Window, path: &str| {
        window.tabs[0].view.select_paths(&[FilePath::new(path)], &order);
    };
    only(&mut window, "/d/a");
    assert_eq!(window.update_status(&order), "“a” selected (1 kB)");
    only(&mut window, "/d/c");
    assert_eq!(window.update_status(&order), "“c” selected (folder)");
    window.tabs[0].view.select_all();
    assert_eq!(window.update_status(&order), "3 items selected (1.50 kB)");
    assert_eq!(update_capacity(Some((1000, 2000))), "1 kB free of 2 kB");
    assert_eq!(update_capacity(None), "");
}

#[test]
fn appearance_follows_the_settings() {
    assert_eq!(apply_theme(Theme::System), ColorScheme::Default);
    assert_eq!(apply_theme(Theme::Light), ColorScheme::ForceLight);
    assert_eq!(apply_theme(Theme::Dark), ColorScheme::ForceDark);
    assert_eq!(view_icon(ViewMode::Grid), "view-list-symbolic");
    assert_eq!(view_icon(ViewMode::List), "view-grid-symbolic");
    let (readout, message) = zoom_texts(48);
    assert_eq!((readout.as_str(), message.as_str()), ("48px", "Icon size: 48px"));
    assert_eq!(scroll_zoom(true, true), Some(1));
    assert_eq!(scroll_zoom(true, false), Some(-1));
    assert_eq!(scroll_zoom(false, true), None);
    assert_eq!(mouse_button(8), Some(MouseNavigation::Back));
    assert_eq!(mouse_button(9), Some(MouseNavigation::Forward));
    assert_eq!(mouse_button(1), None);
}

#[test]
fn a_maximised_size_is_not_remembered() {
    let before = Geometry { width: 900, height: 600, maximized: false, sidebar_visible: true };
    let after = remember_geometry(before, true, 1920, 1080, false);
    assert_eq!((after.width, after.height), (900, 600));
    assert!(after.maximized && !after.sidebar_visible);
    let after = remember_geometry(before, false, 1000, 700, true);
    assert_eq!((after.width, after.height), (1000, 700));
}

#[test]
fn a_burst_of_changes_costs_one_timer() {
    let mut timer = Debounce::new();
    assert_eq!(timer.schedule(1), None);
    assert_eq!(timer.schedule(2), Some(1));
    assert!(!timer.fired(1));
    assert!(timer.fired(2));
    assert!(!timer.fired(2));
}

/// What is known of an ordinary executable.
fn metadata() -> Metadata {
    Metadata {
        is_dir: false,
        is_symlink: false,
        size: 10,
        readonly: true,
        mode: 0o755,
        modified: Some(7),
    }
}

#[test]
fn entries_are_made_without_a_scan() {
    let path = FilePath::new("/a/Run.sh");
    let recent = recent_entry(&path, 99, Some(metadata()), "text/x-sh").unwrap();
    assert_eq!(recent.modified, Some(99));
    assert_eq!(recent.search_key, "run.sh");
    assert!(recent.can_execute && !recent.can_write);
    assert!(recent_entry(&path, 99, None, "").is_none());
    assert!(recent_entry(&FilePath::root(), 99, Some(metadata()), "").is_none());

    let item = TrashItem {
        name: "Run.2.sh".to_string(),
        file_path: FilePath::new("/t/files/Run.2.sh"),
        original_path: path,
        is_dir: false,
        size: 10,
    };
    let trashed = trash_entry(&item, Some(metadata()), "text/x-sh").unwrap();
    assert_eq!(trashed.display_name, "Run.sh");
    assert_eq!(trashed.name, "Run.2.sh");
    assert_eq!(trashed.modified, Some(7));
    assert!(trash_entry(&item, None, "").is_none());

    let folder = current_dir_entry(&FilePath::root(), Some(metadata())).unwrap();
    assert_eq!((folder.name.as_str(), folder.display_name.as_str()), ("/", "/"));
    assert_eq!(folder.content_type, "inode/directory");
    assert!(folder.is_dir);
    assert!(current_dir_entry(&FilePath::root(), None).is_none());
}

#[test]
fn the_settings_are_those_of_all_tabs() {
    let mut window = window();
    window.open_in_new_tab(at("/e"), true, ViewMode::List, None);
    assert!(window.tabs[1].view.show_hidden);
    assert_eq!(window.tabs[1].view.mode, ViewMode::List);
    assert!(!window.tabs[0].view.show_hidden);
    // The other tab takes the setting up when it goes somewhere, and keeps its
    // own presentation.
    window.select_tab(0);
    window.navigate_from(at("/f"), true, true, None);
    assert!(window.tabs[0].view.show_hidden);
    assert_eq!(window.tabs[0].view.mode, ViewMode::Grid);
    window.go_up(false, None);
    assert!(!window.tabs[0].view.show_hidden);
}

#[test]
fn closing_a_tab_behind_the_front_moves_nothing() {
    let mut window = window();
    window.open_in_new_tab(at("/e"), false, ViewMode::Grid, None);
    window.open_in_new_tab(at("/f"), false, ViewMode::Grid, None);
    window.select_tab(1);
    assert!(!window.close_tab(2));
    assert_eq!(window.active, 1);
    assert!(!window.close_tab(0));
    assert_eq!(window.active, 0);
}

#[test]
fn a_new_icon_size_shows_everywhere() {
    let plan = zoom(Some(64)).unwrap();
    assert_eq!((plan.size, plan.readout.as_str()), (64, "64px"));
    assert_eq!(plan.message.as_deref(), Some("Icon size: 64px"));
    assert!(plan.clear_thumbnails && plan.refresh_items && plan.save);
    assert!(zoom(None).is_none());
    let reset = icon_size_changed(48);
    assert_eq!(reset.readout, "48px");
    assert!(reset.message.is_none() && reset.save);
}
