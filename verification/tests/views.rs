//! The list of files and its rows.

use fileman::caption::elide_name;
use fileman::entry::FileEntry;
use fileman::entry::SortKey;
use fileman::entry::ViewMode;
use fileman::file_object::FileObject;
use fileman::file_view::apply_icon;
use fileman::file_view::column_heading;
use fileman::file_view::dropped;
use fileman::file_view::filter;
use fileman::file_view::grid_metrics;
use fileman::file_view::is_among;
use fileman::file_view::name_cell_text;
use fileman::file_view::opens_menu;
use fileman::file_view::sort_from_column;
use fileman::file_view::tile_text;
use fileman::file_view::Column;
use fileman::file_view::FileView;
use fileman::file_view::FilterChange;
use fileman::file_view::FocusTarget;
use fileman::path::FilePath;
use std::cmp::Ordering;

/// An ordinary file or folder in `/d`.
fn entry(name: &str, is_dir: bool, size: u64) -> FileEntry {
    FileEntry {
        path: FilePath::new("/d").join_text(name),
        name: name.to_string(),
        display_name: name.to_string(),
        search_key: name.to_lowercase(),
        is_dir,
        is_symlink: false,
        symlink_target: None,
        is_hidden: name.starts_with('.'),
        size,
        modified: Some(100),
        content_type: if is_dir { "inode/directory" } else { "text/plain" }.to_string(),
        can_read: true,
        can_write: true,
        can_execute: is_dir,
        mode: 0o644,
    }
}

/// A view of three shown rows and a hidden one.
fn view() -> FileView {
    let mut view = FileView::new(false, ViewMode::Grid);
    view.append_batch(vec![
        entry("Alpha.txt", false, 10),
        entry("beta", true, 4096),
        entry(".secret", false, 5),
        entry("gamma.txt", false, 30),
    ]);
    view
}

/// The names of some objects.
fn names(objects: &[FileObject]) -> Vec<String> {
    objects.iter().map(|o| o.display_name()).collect()
}

const ORDER: [usize; 4] = [0, 1, 2, 3];

#[test]
fn an_object_without_an_entry_is_empty() {
    let mut object = FileObject { entry: None };
    assert_eq!(object.display_name(), "");
    assert!(!object.is_dir() && !object.is_hidden());
    assert_eq!(object.path().display(), "");
    object.replace(entry("a", true, 0));
    assert_eq!(object.display_name(), "a");
    assert!(object.is_dir());
    assert_eq!(object.entry().path.display(), "/d/a");
}

#[test]
fn the_search_key_is_searched() {
    let object = FileObject::new(entry("Alpha.txt", false, 1));
    assert!(object.matches_search("alpha"));
    assert!(object.matches_search("a.t"));
    assert!(object.matches_search(""));
    assert!(!object.matches_search("Alpha"));
}

#[test]
fn objects_are_compared_by_their_entries() {
    let a = FileObject::new(entry("a", false, 1));
    let b = FileObject::new(entry("b", false, 2));
    let by_size = |x: &FileEntry, y: &FileEntry| x.size.cmp(&y.size);
    assert_eq!(a.compare_to(&b, by_size), Ordering::Less);
    assert_eq!(b.compare_to(&a, by_size), Ordering::Greater);
    let empty = FileObject { entry: None };
    assert_eq!(a.compare_to(&empty, by_size), Ordering::Equal);
}

#[test]
fn hidden_files_and_other_names_are_filtered_out() {
    let secret = FileObject::new(entry(".secret", false, 1));
    assert!(!filter(&secret, false, ""));
    assert!(filter(&secret, true, ""));
    assert!(filter(&secret, true, "sec"));
    assert!(!filter(&secret, true, "x"));
}

#[test]
fn only_shown_rows_are_selected() {
    let mut view = view();
    assert!(view.selected(&ORDER).is_empty());
    view.select_all();
    assert_eq!(names(&view.selected(&ORDER)), ["Alpha.txt", "beta", "gamma.txt"]);
    assert_eq!(names(&view.selected(&[3, 1])), ["gamma.txt", "beta"]);
    view.select_none();
    assert!(view.selected_paths(&ORDER).is_empty());
}

#[test]
fn inverting_twice_restores_the_selection() {
    let mut view = view();
    view.select_paths(&[FilePath::new("/d/beta")], &ORDER);
    view.invert_selection();
    assert_eq!(names(&view.selected(&ORDER)), ["Alpha.txt", "gamma.txt"]);
    view.invert_selection();
    assert_eq!(names(&view.selected(&ORDER)), ["beta"]);
}

#[test]
fn paths_are_selected_and_the_first_is_scrolled_to() {
    let mut view = view();
    let wanted = [FilePath::new("/d/gamma.txt"), FilePath::new("/d//beta")];
    assert_eq!(view.select_paths(&wanted, &[3, 2, 1, 0]), Some(0));
    assert_eq!(names(&view.selected(&ORDER)), ["beta", "gamma.txt"]);
    assert_eq!(view.select_paths(&[FilePath::new("/elsewhere")], &ORDER), None);
    assert!(view.selected(&ORDER).is_empty());
}

#[test]
fn shown_rows_are_counted() {
    let mut view = view();
    assert_eq!(view.visible_stats(), (3, 40, 1));
    view.refilter(true);
    assert_eq!(view.visible_stats(), (4, 45, 1));
    view.set_search("A.t");
    assert_eq!(view.visible_stats(), (2, 40, 0));
    view.clear();
    assert_eq!(view.visible_stats(), (0, 0, 0));
}

#[test]
fn a_filter_change_is_told_as_what_it_is() {
    let mut view = view();
    assert_eq!(view.set_search("al"), Some(FilterChange::MoreStrict));
    assert_eq!(view.set_search("alp"), Some(FilterChange::MoreStrict));
    assert_eq!(view.set_search("ALP"), None);
    assert_eq!(view.set_search("al"), Some(FilterChange::LessStrict));
    assert_eq!(view.set_search("beta"), Some(FilterChange::Different));
    assert_eq!(view.set_search(""), Some(FilterChange::LessStrict));
}

#[test]
fn a_narrower_filter_drops_rows_from_the_selection() {
    let mut view = view();
    view.select_all();
    view.set_search("alpha");
    assert_eq!(names(&view.selected(&ORDER)), ["Alpha.txt"]);
    view.set_search("");
    assert_eq!(names(&view.selected(&ORDER)), ["Alpha.txt"]);
}

#[test]
fn one_view_has_the_model_at_a_time() {
    let mut view = view();
    let plan = view.set_view_mode(ViewMode::List);
    assert!(plan.list_has_model && !plan.grid_has_model);
    assert_eq!(plan.visible_child, "list");
    assert_eq!(view.focus_first(), FocusTarget::FirstInList);
    let plan = view.set_view_mode(ViewMode::Grid);
    assert!(!plan.list_has_model && plan.grid_has_model);
    assert_eq!(plan.visible_child, "grid");
    assert_eq!(view.focus_first(), FocusTarget::FirstInGrid);
    view.clear();
    assert_eq!(view.focus_first(), FocusTarget::View);
}

#[test]
fn a_click_beside_the_items_clears_the_selection() {
    let mut view = view();
    view.select_all();
    view.click_released(false, true);
    view.click_released(true, false);
    assert_eq!(view.selected(&ORDER).len(), 3);
    view.click_released(false, false);
    assert!(view.selected(&ORDER).is_empty());
}

#[test]
fn columns_stand_for_sort_keys() {
    for (key, column) in [
        (SortKey::Name, Column::Name),
        (SortKey::Size, Column::Size),
        (SortKey::Modified, Column::Modified),
        (SortKey::Kind, Column::Kind),
    ] {
        for descending in [false, true] {
            assert_eq!(view().apply_sort_from_config(key, descending), (column, descending));
            assert_eq!(sort_from_column(column, descending), (key, descending));
        }
    }
    assert_eq!(column_heading(Column::Name).0, "Name");
    assert_eq!(column_heading(Column::Kind).0, "Type");
}

#[test]
fn tiles_show_what_fits_and_say_the_rest() {
    let metrics = grid_metrics(48);
    assert_eq!((metrics.width, metrics.caption_chars, metrics.name_budget), (104, 14, 24));
    let short = tile_text(&entry("short.txt", false, 1), &metrics);
    assert_eq!(short.label, "short.txt");
    assert_eq!(short.tooltip, Some("/d/short.txt".to_string()));
    let name = "a-name-that-is-much-too-long-for-its-tile.txt";
    let long = tile_text(&entry(name, false, 1), &metrics);
    assert_eq!(long.label, elide_name(name, 24));
    assert_eq!(long.tooltip, Some(format!("/d/{name}")));
    assert!(tile_text(&entry(".x", false, 1), &metrics).dimmed);
    assert_eq!(name_cell_text(&entry("short.txt", false, 1)).label, "short.txt");
}

#[test]
fn thumbnails_are_for_small_pictures() {
    let mut picture = entry("p.png", false, 1000);
    picture.content_type = "image/png".to_string();
    assert!(apply_icon(&picture, true, 1000, 64).1.is_some());
    assert!(apply_icon(&picture, true, 999, 64).1.is_none());
    assert!(apply_icon(&picture, false, 1000, 64).1.is_none());
    assert!(apply_icon(&entry("a.txt", false, 1), true, 1000, 64).1.is_none());
    assert!(apply_icon(&entry("d", true, 1), true, 1000, 64).1.is_none());
}

#[test]
fn the_menu_key_opens_the_menu() {
    assert!(opens_menu(true, false, false));
    assert!(opens_menu(false, true, true));
    assert!(!opens_menu(false, true, false));
    assert!(!opens_menu(false, false, true));
}

#[test]
fn drops_go_into_the_folder_below() {
    let files = || vec![FilePath::new("/a")];
    assert!(dropped(Vec::new(), None).is_none());
    let folder = FileObject::new(entry("beta", true, 0));
    let (_, into) = dropped(files(), Some(&folder)).unwrap();
    assert_eq!(into.unwrap().display(), "/d/beta");
    let file = FileObject::new(entry("a.txt", false, 0));
    assert!(dropped(files(), Some(&file)).unwrap().1.is_none());
    assert!(dropped(files(), None).unwrap().1.is_none());
}

#[test]
fn paths_are_among_others_by_their_components() {
    let all = [FilePath::new("/a/b"), FilePath::new("/c")];
    assert!(is_among(&FilePath::new("/a//b/"), &all));
    assert!(!is_among(&FilePath::new("/a"), &all));
}

#[test]
fn zooming_changes_the_tiles() {
    let mut view = view();
    let (metrics, list_icon, plan) = view.refresh_items(96, ViewMode::List);
    assert_eq!(metrics.icon_size, 96);
    assert_eq!(metrics.width, 152);
    assert_eq!(list_icon, 32);
    assert_eq!(plan.visible_child, "list");
}
