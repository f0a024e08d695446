//! The places sidebar.

use fileman::path::FilePath;
use fileman::sidebar::dropped_onto;
use fileman::sidebar::make_volume_row;
use fileman::sidebar::menu_action;
use fileman::sidebar::NetworkRoot;
use fileman::sidebar::Place;
use fileman::sidebar::Sidebar;
use fileman::sidebar::SidebarAction;
use fileman::sidebar::Surroundings;
use fileman::sidebar::Target;
use fileman::sidebar::Volume;
use fileman::sidebar::VolumeCategory;

/// A drive.
fn volume(label: &str, category: VolumeCategory, mount: Option<&str>) -> Volume {
    Volume {
        label: label.to_string(),
        size_label: "1 TB".to_string(),
        icon_name: "drive-harddisk-symbolic".to_string(),
        category,
        is_encrypted: false,
        read_only: false,
        fstype: "ext4".to_string(),
        mount_point: mount.map(FilePath::new),
        drive_name: "Disk".to_string(),
        device: FilePath::new("/dev/sda1"),
        uuid: "abcd".to_string(),
        ejectable: false,
        can_power_off: false,
    }
}

/// A system with one place and no network.
fn around(available: Vec<bool>) -> Surroundings {
    Surroundings {
        places: vec![Place {
            label: "Home".to_string(),
            path: FilePath::new("/home/ada"),
            icon: "user-home-symbolic".to_string(),
        }],
        network: None,
        available,
    }
}

/// The headings.
fn titles(sidebar: &Sidebar) -> Vec<&'static str> {
    sidebar.sections.iter().map(|s| s.title).collect()
}

/// The labels of a section.
fn labels(sidebar: &Sidebar, section: usize) -> Vec<&str> {
    sidebar.sections[section].rows.iter().map(|r| r.label.as_str()).collect()
}

#[test]
fn drives_are_grouped_by_category() {
    let mut sidebar = Sidebar::new();
    sidebar.set_volumes(
        vec![
            volume("Stick", VolumeCategory::Removable, None),
            volume("Card", VolumeCategory::Removable, None),
            volume("C", VolumeCategory::Windows, None),
            volume("Data", VolumeCategory::Internal, Some("/data")),
        ],
        &around(vec![]),
    );
    assert_eq!(
        titles(&sidebar),
        ["Places", "System", "Removable Devices", "Windows", "On This Computer"]
    );
    assert_eq!(labels(&sidebar, 2), ["Stick", "Card"]);
    assert_eq!(labels(&sidebar, 4), ["Data"]);
}

#[test]
fn favourites_have_a_section_while_there_are_any() {
    let mut sidebar = Sidebar::new();
    sidebar.set_favourites(
        vec![FilePath::new("/srv/music"), FilePath::new("/gone")],
        &around(vec![true, false]),
    );
    assert_eq!(titles(&sidebar), ["Places", "Favourites", "System"]);
    let rows = &sidebar.sections[1].rows;
    assert_eq!(rows[0].label, "music");
    assert!(rows[0].sensitive && !rows[1].sensitive);
    assert_eq!(rows[1].tooltip, Some("/gone (unavailable)".to_string()));
    let actions: Vec<&str> = rows[0].menu.iter().map(|(_, action)| *action).collect();
    assert_eq!(actions, ["sidebar.unfavourite", "sidebar.open-window"]);
    sidebar.set_favourites(vec![], &around(vec![]));
    assert_eq!(titles(&sidebar), ["Places", "System"]);
}

#[test]
fn the_trash_shows_its_count() {
    let mut sidebar = Sidebar::new();
    assert!(!sidebar.set_trash_count(0, &around(vec![])));
    assert!(sidebar.sections.is_empty());
    assert!(sidebar.set_trash_count(12, &around(vec![])));
    assert_eq!(labels(&sidebar, 1), ["Recent", "Network", "Trash", "Other Locations"]);
    assert_eq!(sidebar.sections[1].rows[2].badge, Some("12".to_string()));
    assert!(sidebar.set_trash_count(0, &around(vec![])));
    assert_eq!(sidebar.sections[1].rows[2].badge, None);
}

#[test]
fn the_network_row_says_what_is_behind_it() {
    let mut sidebar = Sidebar::new();
    sidebar.set_volumes(vec![], &around(vec![]));
    assert!(!sidebar.sections[1].rows[1].sensitive);
    let mut with = around(vec![]);
    with.network = Some(NetworkRoot { path: FilePath::new("/run/gvfs"), is_empty: true });
    sidebar.set_volumes(vec![], &with);
    assert_eq!(
        sidebar.sections[1].rows[1].tooltip,
        Some("No network shares are mounted yet".to_string())
    );
    let root = FilePath::new("/run/gvfs");
    assert!(matches!(
        sidebar.activate_row(1, 1, Some(&root)),
        SidebarAction::Navigate(p) if p.display() == "/run/gvfs"
    ));
    assert!(matches!(sidebar.activate_row(1, 1, None), SidebarAction::Nothing));
}

#[test]
fn the_current_place_is_highlighted() {
    let mut sidebar = Sidebar::new();
    sidebar.set_volumes(
        vec![volume("Data", VolumeCategory::Internal, Some("/data"))],
        &around(vec![]),
    );
    sidebar.set_current(&FilePath::new("/data/"), None);
    assert_eq!(sidebar.sections[2].selected, Some(0));
    assert_eq!(sidebar.sections[0].selected, None);
    sidebar.set_current(&FilePath::new("/home/ada"), None);
    assert_eq!(sidebar.sections[2].selected, None);
    assert_eq!(sidebar.sections[0].selected, Some(0));
    // A rebuild keeps the highlight.
    sidebar.set_trash_count(3, &around(vec![]));
    assert_eq!(sidebar.sections[0].selected, Some(0));
}

#[test]
fn clicking_a_drive_mounts_it_once() {
    let mut sidebar = Sidebar::new();
    sidebar.set_volumes(
        vec![
            volume("Data", VolumeCategory::Internal, Some("/data")),
            volume("Spare", VolumeCategory::Internal, None),
        ],
        &around(vec![]),
    );
    assert!(matches!(
        sidebar.activate_row(2, 0, None),
        SidebarAction::Navigate(p) if p.display() == "/data"
    ));
    assert!(matches!(sidebar.activate_row(2, 1, None), SidebarAction::Mount(1)));
    assert!(matches!(sidebar.activate_row(1, 0, None), SidebarAction::OpenRecent));
    assert!(matches!(sidebar.activate_row(1, 2, None), SidebarAction::OpenTrash));
    assert!(matches!(sidebar.activate_row(9, 0, None), SidebarAction::Nothing));
}

#[test]
fn drives_say_what_they_are() {
    let mut drive = volume("Data", VolumeCategory::Internal, None);
    assert_eq!(drive.subtitle(), "1 TB  ext4");
    assert_eq!(drive.tooltip(), "Disk — /dev/sda1\nUUID: abcd");
    drive.read_only = true;
    assert_eq!(drive.subtitle(), "1 TB  ext4  read-only");
    drive.is_encrypted = true;
    assert_eq!(drive.subtitle(), "1 TB  encrypted");
    drive.drive_name = String::new();
    drive.uuid = String::new();
    assert_eq!(drive.tooltip(), "/dev/sda1");
    let (used, detail, tooltip) = drive.usage(1500, 5000);
    assert_eq!(used, 3500);
    assert_eq!(detail, "1.50 kB free");
    assert_eq!(tooltip, "Data: 3.50 kB of 5 kB used");
    assert_eq!(drive.usage(10, 5).0, 0);
}

#[test]
fn the_menu_of_a_drive_fits_its_state() {
    let mut drive = volume("Data", VolumeCategory::Windows, None);
    assert_eq!(drive.menu(), [("Mount", "volume.mount")]);
    drive.fstype = "ntfs".to_string();
    assert_eq!(
        drive.menu(),
        [("Mount", "volume.mount"), ("Mount Read-Only", "volume.mount-read-only")]
    );
    drive.mount_point = Some(FilePath::new("/c"));
    drive.can_power_off = true;
    assert_eq!(
        drive.menu(),
        [
            ("Open", "volume.open"),
            ("Unmount", "volume.unmount"),
            ("Eject — safe to unplug", "volume.eject"),
        ]
    );
    let row = make_volume_row(&drive, 0);
    assert!(row.unmount_button);
    assert_eq!(row.drop.as_ref().unwrap().display(), "/c");

    let drives = vec![drive];
    let target = Target::Volume(0);
    assert!(matches!(
        menu_action("volume.open", &drives, &target),
        SidebarAction::Navigate(_)
    ));
    assert!(matches!(
        menu_action("volume.unmount", &drives, &target),
        SidebarAction::Unmount(0)
    ));
    assert!(matches!(menu_action("volume.eject", &drives, &target), SidebarAction::Eject(0)));
    assert!(matches!(menu_action("volume.mount", &drives, &target), SidebarAction::Mount(0)));
    assert!(matches!(
        menu_action("volume.mount-read-only", &drives, &target),
        SidebarAction::MountReadOnly(0)
    ));
    assert!(matches!(
        menu_action("volume.open", &drives, &Target::Volume(5)),
        SidebarAction::Nothing
    ));
    let favourite = Target::Path(FilePath::new("/f"));
    assert!(matches!(
        menu_action("sidebar.unfavourite", &drives, &favourite),
        SidebarAction::RemoveFavourite(_)
    ));
    assert!(matches!(
        menu_action("sidebar.open-window", &drives, &favourite),
        SidebarAction::OpenWindow(_)
    ));
}

#[test]
fn files_are_dropped_onto_folders_only() {
    let mounted = make_volume_row(&volume("D", VolumeCategory::Internal, Some("/d")), 0);
    let (files, folder) = dropped_onto(vec![FilePath::new("/a")], &mounted).unwrap();
    assert_eq!((files.len(), folder.display()), (1, "/d".to_string()));
    assert!(dropped_onto(vec![], &mounted).is_none());
    let unmounted = make_volume_row(&volume("D", VolumeCategory::Internal, None), 0);
    assert!(dropped_onto(vec![FilePath::new("/a")], &unmounted).is_none());
}
