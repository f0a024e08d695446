//! What the menus and shortcuts do.

use fileman::actions::archive_path;
use fileman::actions::chosen_app;
use fileman::actions::compress_finished;
use fileman::actions::compress_selected;
use fileman::actions::copy_paths_as_text;
use fileman::actions::create_new;
use fileman::actions::created;
use fileman::actions::delete_finished;
use fileman::actions::delete_selected;
use fileman::actions::drop_files;
use fileman::actions::emptied_trash;
use fileman::actions::empty_trash;
use fileman::actions::extract_finished;
use fileman::actions::extract_one;
use fileman::actions::extract_selected;
use fileman::actions::favourite_target;
use fileman::actions::items_to_restore;
use fileman::actions::leave_before_unmount;
use fileman::actions::mount_volume;
use fileman::actions::mounted_label;
use fileman::actions::mounting_label;
use fileman::actions::new_window_start;
use fileman::actions::open_terminal;
use fileman::actions::open_with;
use fileman::actions::open_with_dialog;
use fileman::actions::other_view;
use fileman::actions::paste_files;
use fileman::actions::properties_of;
use fileman::actions::recover_ntfs;
use fileman::actions::recovered_ntfs;
use fileman::actions::rename_selected;
use fileman::actions::renames;
use fileman::actions::restore_finished;
use fileman::actions::restore_refused;
use fileman::actions::same_filesystem;
use fileman::actions::selected_or_toast;
use fileman::actions::show_context_menu;
use fileman::actions::shred_finished;
use fileman::actions::thumbnail_bytes;
use fileman::actions::thumbnail_megabytes;
use fileman::actions::toggled_favourite;
use fileman::actions::transfer_finished;
use fileman::actions::unlock_step;
use fileman::actions::unmount_error;
use fileman::actions::unmount_finished;
use fileman::actions::wants_password;
use fileman::actions::which;
use fileman::actions::AppChoice;
use fileman::actions::CompressPlan;
use fileman::actions::Created;
use fileman::actions::ExtractEvent;
use fileman::actions::ExtractPlan;
use fileman::actions::ExtractStep;
use fileman::actions::JobEnd;
use fileman::actions::JobOutcome;
use fileman::actions::MountPlan;
use fileman::actions::MountResult;
use fileman::actions::PastePlan;
use fileman::actions::PropertiesOf;
use fileman::actions::RecoverStep;
use fileman::actions::RenamePlan;
use fileman::actions::UnlockEvent;
use fileman::actions::UnlockStep;
use fileman::chrome::TrashItem;
use fileman::commands::keys_of;
use fileman::commands::sort_key;
use fileman::commands::sort_state;
use fileman::commands::theme;
use fileman::commands::theme_state;
use fileman::commands::Command;
use fileman::commands::ACCELERATORS;
use fileman::commands::COMMANDS;
use fileman::commands::MAIN_MENU;
use fileman::commands::SHORTCUTS;
use fileman::dialogs::Alert;
use fileman::dialogs::NtfsChoice;
use fileman::entry::FileEntry;
use fileman::entry::SortKey;
use fileman::entry::Theme;
use fileman::entry::ViewMode;
use fileman::menu::ContextMenu;
use fileman::menu::MenuRow;
use fileman::path::FilePath;
use fileman::window::Location;
use fileman::window::Window;

/// A file or folder in `/d`.
fn entry(name: &str, is_dir: bool) -> FileEntry {
    FileEntry {
        path: FilePath::new("/d").join_text(name),
        name: name.to_string(),
        display_name: name.to_string(),
        search_key: name.to_string(),
        is_dir,
        is_symlink: false,
        symlink_target: None,
        is_hidden: false,
        size: 1,
        modified: None,
        content_type: String::new(),
        can_read: true,
        can_write: true,
        can_execute: false,
        mode: 0,
    }
}

/// Some paths.
fn paths(all: &[&str]) -> Vec<FilePath> {
    all.iter().map(|p| FilePath::new(p)).collect()
}

/// The texts of some paths.
fn shown(all: &[FilePath]) -> Vec<String> {
    all.iter().map(|p| p.display()).collect()
}

/// A job that went well.
fn outcome(items: u64, bytes: u64) -> JobOutcome {
    JobOutcome {
        errors: vec![],
        cancelled: false,
        bytes_done: bytes,
        items_done: items,
        created: vec![],
    }
}

/// A job in which one item failed.
fn failure(message: &str) -> JobOutcome {
    let mut failed = outcome(0, 0);
    failed.errors.push((FilePath::new("/d/x"), message.to_string()));
    failed
}

/// The heading and the text of an alert.
fn said(alert: &Option<Alert>) -> (String, String) {
    let alert = alert.as_ref().unwrap();
    (alert.heading.clone(), alert.body.clone().unwrap())
}

/// What a job's end says.
fn toast(end: &JobEnd) -> Option<&str> {
    end.toast.as_deref()
}

#[test]
fn every_documented_shortcut_is_bound() {
    for (command, key) in [
        (Command::GoBack, "<Alt>Left"),
        (Command::GoForward, "<Alt>Right"),
        (Command::GoUp, "<Alt>Up"),
        (Command::EditPath, "<Ctrl>l"),
        (Command::FocusSearch, "<Ctrl>f"),
        (Command::ToggleHidden, "<Ctrl>h"),
        (Command::Rename, "F2"),
        (Command::Trash, "Delete"),
        (Command::DeletePermanently, "<Shift>Delete"),
        (Command::Shred, "<Ctrl><Shift>Delete"),
        (Command::ExtractHere, "<Ctrl>e"),
        (Command::Compress, "<Ctrl><Shift>e"),
        (Command::NewTab, "<Ctrl>t"),
        (Command::CloseTab, "<Ctrl>w"),
        (Command::NextTab, "<Ctrl>Tab"),
        (Command::PreviousTab, "<Ctrl><Shift>Tab"),
        (Command::Download, "<Ctrl><Shift>d"),
        (Command::AddFavourite, "<Ctrl>d"),
        (Command::ToggleView, "<Ctrl><Shift>v"),
        (Command::Properties, "<Alt>Return"),
        (Command::ToggleSidebar, "F9"),
    ] {
        assert!(keys_of(command).contains(&key), "{command:?} lacks {key}");
    }
    assert_eq!(keys_of(Command::ZoomIn), ["<Ctrl>plus", "<Ctrl>equal", "<Ctrl>KP_Add"]);
    assert!(keys_of(Command::Close).is_empty());
}

#[test]
fn no_key_is_bound_twice() {
    for (i, (_, key, _)) in ACCELERATORS.iter().enumerate() {
        for (_, other, _) in &ACCELERATORS[i + 1..] {
            assert_ne!(key, other);
        }
    }
}

#[test]
fn destructive_keys_are_left_to_text_boxes() {
    let kept = [Command::Rename, Command::Trash, Command::DeletePermanently, Command::Shred];
    for (command, _, list_only) in ACCELERATORS {
        assert_eq!(list_only, kept.contains(&command), "{command:?}");
    }
}

#[test]
fn menus_and_lists_name_what_there_is() {
    assert!(MAIN_MENU.contains(&("", "New Tab", Command::NewTab, "")));
    assert!(MAIN_MENU.contains(&("Sort By", "Type", Command::SortBy, "kind")));
    assert!(SHORTCUTS.contains(&("Window", "Ctrl+T / Ctrl+W", "New tab, close tab")));
    assert!(SHORTCUTS.contains(&("Files", "Ctrl+Shift+D", "Download from a URL")));
}

#[test]
fn every_action_has_a_name_of_its_own() {
    for (i, command) in COMMANDS.iter().enumerate() {
        assert!(command.action().starts_with("win."));
        for other in &COMMANDS[i + 1..] {
            assert_ne!(command.action(), other.action());
        }
    }
    assert_eq!(Command::DeletePermanently.action(), "win.delete-permanently");
}

#[test]
fn settings_stand_in_their_states() {
    for key in [SortKey::Name, SortKey::Size, SortKey::Modified, SortKey::Kind] {
        assert_eq!(sort_key(sort_state(key)), key);
    }
    for each in [Theme::System, Theme::Light, Theme::Dark] {
        assert_eq!(theme(theme_state(each)), each);
    }
    assert_eq!(sort_key("nonsense"), SortKey::Name);
    assert_eq!(theme("nonsense"), Theme::System);
    assert_eq!(other_view(ViewMode::Grid), ViewMode::List);
    assert_eq!(other_view(ViewMode::List), ViewMode::Grid);
    assert_eq!(thumbnail_bytes(512), 536_870_912);
    assert_eq!(thumbnail_megabytes(thumbnail_bytes(25)), 25);
    assert_eq!(thumbnail_megabytes(1_048_575), 0);
}

#[test]
fn something_has_to_be_selected() {
    assert_eq!(selected_or_toast("shred", 0), Some("Select something to shred".to_string()));
    assert_eq!(selected_or_toast("shred", 1), None);
    assert_eq!(properties_of(2, true), PropertiesOf::Selection);
    assert_eq!(properties_of(0, true), PropertiesOf::Folder);
    assert_eq!(properties_of(0, false), PropertiesOf::Nothing);
    assert_eq!(new_window_start(Some(FilePath::new("/d"))).display(), "/d");
    assert_eq!(new_window_start(None).display(), "/");
}

#[test]
fn new_items_are_named_first() {
    let (place, prompt) = create_new(Some(FilePath::new("/d")), true).unwrap();
    assert_eq!(place.display(), "/d");
    assert_eq!(prompt.alert.heading, "New Folder");
    assert_eq!(prompt.initial, "Untitled Folder");
    assert_eq!(prompt.selected, None);
    let (_, prompt) = create_new(Some(FilePath::new("/d")), false).unwrap();
    assert_eq!(prompt.initial, "Untitled Document");
    assert_eq!(prompt.selected, Some(17));
    assert_eq!(create_new(None, true).unwrap_err(), "Cannot create items here");
    assert!(matches!(
        created(Ok(FilePath::new("/d/a")), "Could not rename"),
        Created::Select(p) if p.display() == "/d/a"
    ));
    match created(Err("no".to_string()), "Could not rename") {
        Created::Alert(alert) => assert_eq!(alert.heading, "Could not rename"),
        Created::Select(_) => panic!("it failed"),
    }
}

#[test]
fn one_item_is_renamed_at_a_time() {
    let toast = |entries: &[FileEntry], in_trash: bool| match rename_selected(entries, in_trash) {
        RenamePlan::Toast(message) => message,
        RenamePlan::Prompt { path, .. } => path.display(),
    };
    assert_eq!(toast(&[], false), "Select something to rename");
    let two = [entry("a", false), entry("b", false)];
    assert_eq!(toast(&two, false), "Renaming several items at once isn't supported yet");
    assert_eq!(toast(&two[..1], true), "Restore this item before renaming it");
    assert_eq!(toast(&two[..1], false), "/d/a");
    match rename_selected(&[entry("photo.jpg", false)], false) {
        RenamePlan::Prompt { prompt, .. } => assert_eq!(prompt.selected, Some(5)),
        RenamePlan::Toast(message) => panic!("{message}"),
    }
    assert!(renames(&two[0], "c") && !renames(&two[0], "a"));
}

/// A window at `/d`.
fn window() -> Window {
    Window::new(&FilePath::new("/d"), false, ViewMode::Grid)
}

#[test]
fn a_cut_is_pasted_once() {
    let mut window = window();
    let uris = ["file:///a".to_string(), "file:///b".to_string()];
    let plan = window.copy_to_clipboard(true, paths(&["/a", "/b"]), &uris);
    assert_eq!(plan.payload.as_deref(), Some("cut\nfile:///a\nfile:///b"));
    assert_eq!(plan.toast, "Cut 2 items");
    match window.paste() {
        PastePlan::Transfer(transfer) => {
            assert!(transfer.is_move);
            assert_eq!(shown(&transfer.sources), ["/a", "/b"]);
            assert_eq!(transfer.dest.display(), "/d");
        }
        other => panic!("{other:?}"),
    }
    assert!(matches!(window.paste(), PastePlan::ReadClipboard(_)));
}

#[test]
fn a_copy_is_pasted_again_and_again() {
    let mut window = window();
    let plan = window.copy_to_clipboard(false, paths(&["/a"]), &["file:///a".to_string()]);
    assert_eq!(plan.payload.as_deref(), Some("copy\nfile:///a"));
    assert_eq!(plan.toast, "Copied 1 item");
    for _ in 0..2 {
        assert!(matches!(window.paste(), PastePlan::Transfer(t) if !t.is_move));
    }
    // Copying nothing leaves the clipboard alone.
    let plan = window.copy_to_clipboard(true, vec![], &[]);
    assert_eq!(plan.toast, "Select something to cut");
    assert!(plan.payload.is_none() && window.clipboard.is_some());
    window.navigate_from(Location::Trash, false, false, None);
    assert!(matches!(window.paste(), PastePlan::Toast("Cannot paste here")));
}

#[test]
fn files_from_elsewhere_are_copied() {
    let transfer = paste_files(paths(&["/a"]), FilePath::new("/d")).unwrap();
    assert!(!transfer.is_move);
    assert_eq!(paste_files(vec![], FilePath::new("/d")).unwrap_err(), "Nothing to paste");
    assert_eq!(copy_paths_as_text(&paths(&["/a", "/b c"])), Ok("/a\n/b c".to_string()));
    assert_eq!(copy_paths_as_text(&[]), Err("Select something first"));
}

#[test]
fn drops_move_within_a_file_system() {
    let dest = || FilePath::new("/d");
    assert!(drop_files(paths(&["/d/a", "/d//b"]), dest(), Some(true)).is_none());
    assert!(drop_files(vec![], dest(), Some(true)).is_none());
    assert!(drop_files(paths(&["/d/a", "/e/b"]), dest(), Some(true)).unwrap().is_move);
    assert!(!drop_files(paths(&["/e/b"]), dest(), Some(false)).unwrap().is_move);
    assert!(!drop_files(paths(&["/"]), dest(), None).unwrap().is_move);
    assert_eq!(same_filesystem(Some(1), Some(1)), Some(true));
    assert_eq!(same_filesystem(Some(1), Some(2)), Some(false));
    assert_eq!(same_filesystem(None, Some(2)), None);
}

#[test]
fn a_transfer_reports_what_it_did() {
    let mut good = outcome(2, 1500);
    assert_eq!(toast(&transfer_finished(&good, true)), Some("Moved 1.50 kB in 2 items"));
    good.items_done = 1;
    good.created = paths(&["/d/a"]);
    let end = transfer_finished(&good, false);
    assert_eq!(toast(&end), Some("Copied 1.50 kB in 1 item"));
    assert!(end.select && !end.undo);
    good.cancelled = true;
    assert_eq!(toast(&transfer_finished(&good, false)), None);
    assert_eq!(toast(&transfer_finished(&outcome(3, 0), false)), None);
    let end = transfer_finished(&failure("no space"), false);
    assert_eq!(
        said(&end.alert),
        ("Some items could not be transferred".to_string(), "• x: no space".to_string())
    );
}

#[test]
fn with_nothing_selected_nothing_is_deleted() {
    for permanent in [false, true] {
        for confirm_trash in [false, true] {
            let plan = delete_selected(&[], permanent, false, confirm_trash);
            assert_eq!(plan.toast.as_deref(), Some("Select something to delete"));
            assert!(plan.question.is_none());
            assert!(!plan.goes_ahead(false) && !plan.goes_ahead(true));
        }
    }
}

#[test]
fn a_declined_question_deletes_nothing() {
    let one = paths(&["/d/a.txt"]);
    let asked = delete_selected(&one, true, false, false);
    assert!(asked.toast.is_none());
    assert!(asked.goes_ahead(true) && !asked.goes_ahead(false));
    let unasked = delete_selected(&one, false, false, false);
    assert!(unasked.toast.is_none() && unasked.goes_ahead(false));
}

#[test]
fn deleting_for_good_is_always_asked() {
    let one = paths(&["/d/a.txt"]);
    let plan = delete_selected(&one, false, false, false);
    assert!(!plan.permanent && plan.question.is_none());
    let plan = delete_selected(&one, false, false, true);
    assert_eq!(
        said(&plan.question),
        ("Move to Trash?".to_string(), "“a.txt” will be moved to the Trash.".to_string())
    );
    for plan in [delete_selected(&one, true, false, false), delete_selected(&one, false, true, false)]
    {
        assert!(plan.permanent);
        assert_eq!(
            said(&plan.question).1,
            "“a.txt” will be deleted immediately. This cannot be undone."
        );
        assert_eq!(plan.question.unwrap().default_response, "cancel");
    }
}

#[test]
fn trashing_can_be_undone() {
    let end = delete_finished(&outcome(1, 0), false);
    assert_eq!(toast(&end), Some("Moved 1 item to Trash"));
    assert!(end.undo && end.count_trash);
    let end = delete_finished(&outcome(1, 0), true);
    assert!(toast(&end).is_none() && !end.undo && end.count_trash);
    assert!(delete_finished(&failure("no"), false).alert.is_some());
    assert_eq!(toast(&shred_finished(&outcome(2, 0))), Some("Shredded 2 items"));
    let end = shred_finished(&failure("no"));
    assert_eq!(said(&end.alert).0, "Some items could not be shredded");
    assert!(!end.undo);
}

#[test]
fn archives_are_found_in_the_selection() {
    let all = [entry("a.zip", false), entry("b.zip", true), entry("c.txt", false)];
    let kinds = [true, true, false];
    let here = || Some(FilePath::new("/d"));
    match extract_selected(&all, &kinds, here(), true) {
        ExtractPlan::Extract { archives, into, ask } => {
            assert_eq!(shown(&archives), ["/d/a.zip"]);
            assert_eq!(into.display(), "/d");
            assert!(ask);
        }
        other => panic!("{other:?}"),
    }
    let toast = |plan: ExtractPlan| match plan {
        ExtractPlan::Toast(message) => message,
        other => panic!("{other:?}"),
    };
    assert_eq!(toast(extract_selected(&[], &[], here(), false)), "Select something to extract");
    assert_eq!(
        toast(extract_selected(&all[1..], &kinds[1..], here(), false)),
        "The selection has no archives in it"
    );
    assert_eq!(toast(extract_selected(&all, &kinds, None, false)), "Cannot extract here");
}

#[test]
fn an_encrypted_archive_asks_once() {
    let required = "Password required";
    assert!(wants_password(&failure(required), required));
    assert!(!wants_password(&failure("broken"), required));
    assert!(!wants_password(&outcome(1, 1), required));
    assert_eq!(extract_one(ExtractEvent::Start), ExtractStep::Run { password_given: false });
    let ran = |given: bool, needed: bool| {
        extract_one(ExtractEvent::Ran { password_given: given, password_required: needed })
    };
    assert_eq!(ran(false, true), ExtractStep::Ask);
    assert_eq!(ran(false, false), ExtractStep::Finish);
    assert_eq!(ran(true, true), ExtractStep::Finish);
    assert_eq!(
        extract_one(ExtractEvent::Entered { given: true }),
        ExtractStep::Run { password_given: true }
    );
    assert_eq!(extract_one(ExtractEvent::Entered { given: false }), ExtractStep::Stop);
    let end = extract_finished(&failure("broken"), "a.zip");
    assert_eq!(
        said(&end.alert),
        ("Could not extract “a.zip”".to_string(), "broken".to_string())
    );
    assert_eq!(toast(&extract_finished(&outcome(3, 1), "a")), Some("Extracted 3 items"));
}

#[test]
fn archives_are_named_after_their_contents() {
    let stem = |entries: &[FileEntry], dir: &str| {
        match compress_selected(entries, Some(FilePath::new(dir)), true) {
            CompressPlan::Ask { stem, .. } => stem,
            other => panic!("{other:?}"),
        }
    };
    assert_eq!(stem(&[entry("notes.txt", false)], "/d"), "notes");
    let two = [entry("a", false), entry("b", false)];
    assert_eq!(stem(&two, "/home/ada"), "ada");
    assert_eq!(stem(&two, "/"), "archive");
    assert!(matches!(compress_selected(&[], None, true), CompressPlan::Toast(_)));
    assert!(matches!(compress_selected(&two, None, true), CompressPlan::Nothing));
    match compress_selected(&two, None, false) {
        CompressPlan::Alert(alert) => assert_eq!(alert.heading, "Compression is unavailable"),
        other => panic!("{other:?}"),
    }
    let dest = archive_path(&FilePath::new("/d"), "notes", ".tar.gz");
    assert_eq!(dest.display(), "/d/notes.tar.gz");
    assert_eq!(toast(&compress_finished(&outcome(1, 1), &dest)), Some("Created notes.tar.gz"));
    assert_eq!(
        said(&compress_finished(&failure("full"), &dest).alert),
        ("Could not create the archive".to_string(), "full".to_string())
    );
}

/// An item of the trash.
fn trashed(name: &str, original: &str) -> TrashItem {
    TrashItem {
        name: name.to_string(),
        file_path: FilePath::new("/t/files").join_text(name),
        original_path: FilePath::new(original),
        is_dir: false,
        size: 0,
    }
}

#[test]
fn items_are_restored_by_where_they_are_or_were() {
    let items = [trashed("a", "/d/a"), trashed("a.2", "/d/a"), trashed("b", "/e/b")];
    assert_eq!(items_to_restore(&items, &paths(&["/t/files/a.2"]), false), [1]);
    assert_eq!(items_to_restore(&items, &paths(&["/d/a", "/e/b"]), true), [0, 1, 2]);
    assert!(items_to_restore(&items, &paths(&["/d/a"]), false).is_empty());
    assert_eq!(restore_refused(false, 1), Some("Restore only works inside the Trash"));
    assert_eq!(restore_refused(true, 0), Some("Select items to restore"));
    assert_eq!(restore_refused(true, 1), None);
    assert_eq!(toast(&restore_finished(1, &vec![], false)), Some("Restored 1 item"));
    assert_eq!(toast(&restore_finished(0, &vec![], false)), Some("Restored 0 items"));
    assert_eq!(
        toast(&restore_finished(0, &vec![], true)),
        Some("Those items are no longer in the Trash")
    );
    let end = restore_finished(1, &failure("in the way").errors, true);
    assert_eq!(said(&end.alert).0, "Some items could not be restored");
}

#[test]
fn the_trash_is_emptied_after_a_question() {
    assert_eq!(empty_trash(0).unwrap_err(), "The Trash is already empty");
    let alert = empty_trash(1).unwrap();
    assert_eq!(
        alert.body.as_deref(),
        Some("All 1 item will be permanently deleted. This cannot be undone.")
    );
    assert_eq!(toast(&emptied_trash(4, &[])), Some("Deleted 4 items"));
    let end = emptied_trash(4, &["a".to_string(), "b".to_string()]);
    assert_eq!(said(&end.alert).1, "a\nb");
    assert!(end.count_trash);
}

#[test]
fn mounting_leads_somewhere_or_says_why_not() {
    assert_eq!(mounting_label("USB"), "Mounting “USB”…");
    assert_eq!(mounted_label("USB"), "Mounted “USB”");
    let place = || FilePath::new("/m");
    assert!(matches!(mount_volume(MountResult::Mounted(place()), "U"), MountPlan::Enter(_)));
    assert!(matches!(
        mount_volume(MountResult::AlreadyMounted(place()), "U"),
        MountPlan::Enter(_)
    ));
    let unclean = MountResult::NtfsUnclean { message: "dirty".to_string(), hibernated: true };
    assert!(matches!(
        mount_volume(unclean, "U"),
        MountPlan::Recover { message, hibernated: true } if message == "dirty"
    ));
    match mount_volume(MountResult::Failed("no".to_string()), "U") {
        MountPlan::Alert(alert) => assert_eq!(alert.heading, "Could not mount “U”"),
        other => panic!("{other:?}"),
    }
}

#[test]
fn a_wrong_passphrase_just_asks_again() {
    assert_eq!(unlock_step(false, UnlockEvent::Start), UnlockStep::Mount);
    assert_eq!(unlock_step(true, UnlockEvent::Start), UnlockStep::Ask { retry: false });
    assert_eq!(unlock_step(true, UnlockEvent::Entered { given: true }), UnlockStep::Try);
    assert_eq!(unlock_step(true, UnlockEvent::Entered { given: false }), UnlockStep::Stop);
    assert_eq!(
        unlock_step(true, UnlockEvent::Tried { unlocked: false }),
        UnlockStep::Ask { retry: true }
    );
    assert_eq!(unlock_step(true, UnlockEvent::Tried { unlocked: true }), UnlockStep::Mount);
}

#[test]
fn discarding_a_session_is_asked_twice() {
    assert!(matches!(recover_ntfs(NtfsChoice::Cancel), RecoverStep::Stop));
    assert!(matches!(recover_ntfs(NtfsChoice::ReadOnly), RecoverStep::MountReadOnly));
    assert!(matches!(
        recover_ntfs(NtfsChoice::Repair),
        RecoverStep::Repair { toast: "Repairing the volume…" }
    ));
    match recover_ntfs(NtfsChoice::Force) {
        RecoverStep::ConfirmForce(alert) => {
            assert_eq!(alert.heading, "Discard the hibernated Windows session?");
            assert_eq!(alert.default_response, "cancel");
        }
        other => panic!("{other:?}"),
    }
    let done = |choice: NtfsChoice| {
        recovered_ntfs(choice, Ok(FilePath::new("/c")), "C").unwrap().1
    };
    assert_eq!(done(NtfsChoice::ReadOnly), Some("“C” mounted read-only".to_string()));
    assert_eq!(done(NtfsChoice::Repair), None);
    let alert = recovered_ntfs(NtfsChoice::Force, Err("no".to_string()), "C").unwrap_err();
    assert_eq!(alert.heading, "Could not mount “C”");
}

#[test]
fn a_drive_is_left_before_it_goes() {
    let home = FilePath::new("/home/ada");
    let mount = FilePath::new("/media/usb");
    let inside = FilePath::new("/media/usb/a");
    let beside = FilePath::new("/media/usb2");
    let leave = |dir: &FilePath, home: Option<&FilePath>| {
        leave_before_unmount(Some(dir), Some(&mount), home).map(|p| p.display())
    };
    assert_eq!(leave(&inside, Some(&home)), Some("/home/ada".to_string()));
    assert_eq!(leave(&mount, None), Some("/".to_string()));
    assert_eq!(leave(&beside, Some(&home)), None);
    assert!(leave_before_unmount(None, Some(&mount), None).is_none());
    assert!(leave_before_unmount(Some(&inside), None, None).is_none());
}

#[test]
fn a_busy_drive_gets_a_hint() {
    let unmount = unmount_finished(Ok(()), "U", false);
    assert_eq!(unmount.ok(), Some("Unmounted “U”".to_string()));
    let eject = unmount_finished(Ok(()), "U", true);
    assert_eq!(eject.ok(), Some("“U” is safe to remove".to_string()));
    let alert = unmount_finished(Err("Target is BUSY".to_string()), "U", false).unwrap_err();
    assert_eq!(alert.heading, "Could not unmount “U”");
    assert!(alert.body.unwrap().starts_with("Target is BUSY\n\nSomething is still using it"));
    let alert = unmount_finished(Err("no".to_string()), "U", false).unwrap_err();
    assert_eq!(alert.body.as_deref(), Some("no"));
    let first = || "first".to_string();
    assert_eq!(unmount_error(first(), Some("second".to_string())), "second");
    assert_eq!(unmount_error(first(), Some(" \n".to_string())), "first");
    assert_eq!(unmount_error(first(), None), "first");
}

#[test]
fn folders_become_favourites() {
    let all = [entry("a", false), entry("b", true), entry("c", true)];
    let here = || Some(FilePath::new("/d"));
    assert_eq!(favourite_target(&all, here()).unwrap().display(), "/d/b");
    assert_eq!(favourite_target(&all[..1], here()).unwrap().display(), "/d");
    assert_eq!(
        favourite_target(&all[..1], None).unwrap_err(),
        "Select a folder to add to Favourites"
    );
    let path = FilePath::new("/d/b");
    assert_eq!(toggled_favourite(&path, true, true), "Added “b” to Favourites");
    assert_eq!(toggled_favourite(&path, true, false), "Removed “b” from Favourites");
    assert_eq!(
        toggled_favourite(&path, false, true),
        "Only folders can be added to Favourites"
    );
}

#[test]
fn the_preferred_terminal_is_tried_first() {
    let (place, all) = open_terminal(Some(FilePath::new("/d")), Some("myterm")).unwrap();
    assert_eq!(place.display(), "/d");
    assert_eq!((all[0].as_str(), all[1].as_str()), ("myterm", "ghostty"));
    assert_eq!(all.len(), 10);
    let (_, all) = open_terminal(Some(FilePath::new("/d")), None).unwrap();
    assert_eq!((all.len(), all[8].as_str()), (9, "xterm"));
    assert_eq!(open_terminal(None, None).unwrap_err(), "Cannot open a terminal here");
    let dirs = paths(&["/usr/bin", "/bin"]);
    assert_eq!(shown(&which("xterm", &dirs)), ["/usr/bin/xterm", "/bin/xterm"]);
    assert_eq!(shown(&which("./xterm", &dirs)), ["./xterm"]);
}

#[test]
fn recommended_applications_come_first() {
    let id = |name: &str| Some(name.to_string());
    let recommended = [id("b"), None];
    let all = [id("a"), id("b"), None, id("c"), id("a")];
    let order = open_with(&recommended, &all);
    assert_eq!(
        order,
        [
            AppChoice::Recommended(0),
            AppChoice::Recommended(1),
            AppChoice::Other(0),
            AppChoice::Other(3),
        ]
    );
    assert!(open_with_dialog("a.txt", 0).is_err());
    let alert = open_with_dialog("a.txt", 4).unwrap();
    assert_eq!(alert.body.as_deref(), Some("Choose an application for “a.txt”."));
    assert_eq!(chosen_app("open", Some(2), &order), Some(AppChoice::Other(0)));
    assert_eq!(chosen_app("open", Some(-1), &order), None);
    assert_eq!(chosen_app("open", Some(4), &order), None);
    assert_eq!(chosen_app("open", None, &order), None);
    assert_eq!(chosen_app("cancel", Some(0), &order), None);
}

/// The labels of a context menu, with a dash for each separator.
fn menu(selection: &[FileEntry], archives: &[bool], in_trash: bool) -> Vec<String> {
    let mut menu = ContextMenu::new();
    menu.item("left over", "win.open", None);
    show_context_menu(&mut menu, selection, archives, in_trash);
    menu.rows
        .iter()
        .map(|row| match row {
            MenuRow::Separator => "-".to_string(),
            MenuRow::Item { label, .. } => label.clone(),
        })
        .collect()
}

#[test]
fn the_context_menu_fits_the_selection() {
    assert_eq!(
        menu(&[], &[], false),
        [
            "New Folder",
            "New File",
            "-",
            "Paste",
            "Select All",
            "-",
            "Open Terminal Here",
            "Add to Favourites",
            "-",
            "Properties",
        ]
    );
    assert_eq!(
        menu(&[entry("a.zip", false)], &[true], false),
        [
            "Open",
            "Open With…",
            "-",
            "Cut",
            "Copy",
            "Copy Path",
            "Rename…",
            "-",
            "Extract Here",
            "Extract To…",
            "Compress…",
            "-",
            "Move to Trash",
            "Delete Permanently",
            "Shred…",
            "-",
            "Properties",
        ]
    );
    let folder = menu(&[entry("b", true)], &[true], false);
    assert_eq!(folder[1], "Open in New Tab");
    assert!(folder.contains(&"Add to Favourites".to_string()));
    assert!(!folder.contains(&"Extract Here".to_string()));
    let two = menu(&[entry("a", false), entry("b", true)], &[false, false], false);
    assert_eq!(two[..3], ["Open", "-", "Cut"]);
    assert!(!two.contains(&"Rename…".to_string()));
}

#[test]
fn the_trash_has_its_own_menu() {
    assert_eq!(menu(&[], &[], true), ["Empty Trash"]);
    assert_eq!(
        menu(&[entry("a", false)], &[], true),
        ["Restore", "Delete Permanently", "-", "Empty Trash"]
    );
}
