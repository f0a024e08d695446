//! The context menu.

use fileman::menu::ContextMenu;
use fileman::menu::MenuItem;
use fileman::menu::MenuRow;

/// The rows in a readable form.
fn shown(menu: &ContextMenu) -> Vec<String> {
    menu.rows
        .iter()
        .map(|row| match row {
            MenuRow::Separator => "-".to_string(),
            MenuRow::Item { label, .. } => label.clone(),
        })
        .collect()
}

#[test]
fn sections_are_separated_only_between_items() {
    let mut menu = ContextMenu::new();
    assert!(menu.is_empty());
    menu.section();
    menu.item("Open", "win.open", Some("Return"));
    menu.section();
    menu.section();
    menu.item("Copy", "win.copy", None);
    menu.section();
    assert_eq!(shown(&menu), ["Open", "-", "Copy"]);
    assert!(!menu.is_empty());
    menu.begin();
    assert!(menu.is_empty());
}

#[test]
fn an_empty_group_leaves_no_trace() {
    let mut menu = ContextMenu::new();
    let one = [MenuItem { label: "Open", action: "win.open", accel: None }];
    menu.group(&[]);
    menu.group(&one);
    menu.group(&[]);
    menu.group(&one);
    assert_eq!(shown(&menu), ["Open", "-", "Open"]);
}

#[test]
fn the_menu_is_moved_back_inside_the_window() {
    let mut menu = ContextMenu::new();
    menu.item("Open", "win.open", None);
    assert_eq!(menu.show_at(50, 60, 100, 100, Some((800, 600))), (50, 60));
    assert_eq!(menu.show_at(790, 590, 100, 100, Some((800, 600))), (674, 474));
    // A menu that is larger than the window starts near its edge.
    assert_eq!(menu.show_at(50, 5, 2000, 2000, Some((800, 600))), (8, 5));
    // Nothing is known of a window that has not been laid out yet.
    assert_eq!(menu.show_at(790, 590, 100, 100, Some((0, 0))), (790, 590));
    assert_eq!(menu.show_at(790, 590, 100, 100, None), (790, 590));
}
