//! Modal dialogs.

use fileman::dialogs::accepted;
use fileman::dialogs::ask_archive_password;
use fileman::dialogs::ask_compress;
use fileman::dialogs::ask_download;
use fileman::dialogs::ask_passphrase;
use fileman::dialogs::compress_choice;
use fileman::dialogs::confirm;
use fileman::dialogs::confirm_shred;
use fileman::dialogs::conflict_choice;
use fileman::dialogs::describe;
use fileman::dialogs::entered_password;
use fileman::dialogs::entered_text;
use fileman::dialogs::file_summary_row;
use fileman::dialogs::folder_button_content;
use fileman::dialogs::ntfs_choice;
use fileman::dialogs::ntfs_recovery;
use fileman::dialogs::prompt_text;
use fileman::dialogs::resolve_conflict;
use fileman::dialogs::show_error;
use fileman::dialogs::show_job_errors;
use fileman::dialogs::shred_confirmed;
use fileman::dialogs::summary_text;
use fileman::dialogs::what_label;
use fileman::dialogs::Alert;
use fileman::dialogs::Appearance;
use fileman::dialogs::ConflictChoice;
use fileman::dialogs::FileFacts;
use fileman::dialogs::NtfsChoice;
use fileman::dialogs::Probe;
use fileman::path::FilePath;

/// The answers of a dialog.
fn ids(alert: &Alert) -> Vec<&'static str> {
    alert.responses.iter().map(|r| r.id).collect()
}

/// Whether a dialog can be closed and its default can be given.
fn answerable(alert: &Alert) -> bool {
    ids(alert).contains(&alert.default_response) && ids(alert).contains(&alert.close_response)
}

#[test]
fn a_question_defaults_to_cancel() {
    let alert = confirm("Delete?", "For good.", "Delete", true);
    assert_eq!(ids(&alert), ["cancel", "accept"]);
    assert_eq!(alert.default_response, "cancel");
    assert_eq!(alert.close_response, "cancel");
    assert_eq!(alert.responses[1].label, "Delete");
    assert_eq!(alert.responses[1].appearance, Appearance::Destructive);
    let mild = confirm("Go?", "Now.", "Go", false);
    assert_eq!(mild.responses[1].appearance, Appearance::Suggested);
    assert!(accepted("accept") && !accepted("cancel"));
}

#[test]
fn an_error_can_only_be_acknowledged() {
    let alert = show_error("Could not", "Because.");
    assert_eq!(ids(&alert), ["ok"]);
    assert_eq!(alert.body, Some("Because.".to_string()));
    assert!(answerable(&alert));
}

#[test]
fn the_stem_is_selected_when_renaming() {
    let prompt = prompt_text("Rename", None, "photo.jpg", "Rename", true);
    assert_eq!(prompt.selected, Some(5));
    assert!(prompt.accept_enabled);
    assert_eq!(prompt_text("R", None, "photo.jpg", "R", false).selected, None);
    assert_eq!(prompt_text("R", None, ".bashrc", "R", true).selected, Some(7));
    assert_eq!(prompt_text("R", None, "été.txt", "R", true).selected, Some(3));
    assert!(!prompt_text("R", None, "  ", "R", true).accept_enabled);
    assert_eq!(entered_text("accept", "  a b "), Some("a b".to_string()));
    assert_eq!(entered_text("cancel", "a"), None);
}

#[test]
fn conflicts_are_answered_one_by_one_or_all_at_once() {
    let dialog = resolve_conflict(&FilePath::new("/d/a.txt"), true);
    assert_eq!(
        dialog.alert.body.as_deref(),
        Some(
            "“a.txt” already exists in /d.\n\n\
             Replacing it overwrites the existing file permanently."
        )
    );
    assert_eq!(ids(&dialog.alert), ["cancel", "skip", "rename", "replace"]);
    assert_eq!(dialog.alert.default_response, "rename");
    assert!(dialog.apply_to_all.is_some());
    assert!(resolve_conflict(&FilePath::new("/d/a"), false).apply_to_all.is_none());

    assert_eq!(conflict_choice("skip", false, true), ConflictChoice::Skip);
    assert_eq!(conflict_choice("skip", true, true), ConflictChoice::SkipAll);
    assert_eq!(conflict_choice("rename", false, true), ConflictChoice::Rename);
    assert_eq!(conflict_choice("rename", true, true), ConflictChoice::RenameAll);
    assert_eq!(conflict_choice("replace", false, true), ConflictChoice::Replace);
    assert_eq!(conflict_choice("replace", true, true), ConflictChoice::ReplaceAll);
    assert_eq!(conflict_choice("replace", true, false), ConflictChoice::Replace);
    assert_eq!(conflict_choice("cancel", true, true), ConflictChoice::Cancel);
    assert_eq!(conflict_choice("", false, true), ConflictChoice::Cancel);
}

#[test]
fn files_are_summarised_by_size_and_time() {
    let folder = FileFacts { is_dir: true, size: 4096, modified: None };
    assert_eq!(summary_text(&folder, "now"), "folder · now");
    assert_eq!(file_summary_row(Some(folder)), "folder · ");
    assert_eq!(file_summary_row(None), "unavailable");
    let file = FileFacts { is_dir: false, size: 1500, modified: Some(1_000_000_000) };
    let shown = file_summary_row(Some(file));
    assert!(shown.starts_with("1.50 kB · "));
    assert!(shown.contains(" Sep 2001 "), "got {shown:?}");
    let never = FileFacts { is_dir: false, size: 0, modified: Some(i64::MAX) };
    assert_eq!(file_summary_row(Some(never)), "0 B · ");
}

#[test]
fn every_time_in_range_is_shown() {
    let row = |seconds: i64| {
        file_summary_row(Some(FileFacts { is_dir: true, size: 0, modified: Some(seconds) }))
    };
    let (earliest, latest) = (-8_334_601_228_800, 8_210_266_876_799);
    for seconds in [earliest, -1, 0, latest] {
        assert_ne!(row(seconds), "folder · ", "{seconds}");
    }
    assert!(row(latest - 86_400 * 40).contains("262142"));
    assert!(row(earliest + 86_400 * 40).contains("-262143"));
    assert_eq!(row(earliest - 1), "folder · ");
    assert_eq!(row(latest + 1), "folder · ");
}

#[test]
fn a_shred_says_what_it_cannot_promise() {
    let one = [FilePath::new("/d/secret.txt")];
    let dialog = confirm_shred(&one, 1, None);
    assert_eq!(
        dialog.alert.body.as_deref(),
        Some(
            "“secret.txt” will be overwritten 1 time and then deleted.\n\n\
             This cannot be undone, and the files will not go to the Trash."
        )
    );
    assert!(dialog.warning.is_none());
    assert_eq!(dialog.alert.default_response, "cancel");
    let two = [FilePath::new("/a"), FilePath::new("/b")];
    let dialog = confirm_shred(&two, 3, Some(("btrfs", "copy-on-write filesystem")));
    assert!(dialog.alert.body.unwrap().starts_with("2 items will be overwritten 3 times"));
    let (heading, why) = dialog.warning.unwrap();
    assert_eq!(heading, "Overwriting may not be effective on btrfs");
    assert!(why.starts_with("This is a copy-on-write filesystem.\n\n"));
    assert!(shred_confirmed("shred") && !shred_confirmed("accept"));
    assert_eq!(what_label(&one), "“secret.txt”");
    assert_eq!(what_label(&[]), "0 items");
}

#[test]
fn dirty_ntfs_volumes_have_ways_out() {
    for hibernated in [false, true] {
        for available in [false, true] {
            let dialog = ntfs_recovery("C", "driver says no", hibernated, available);
            assert!(answerable(&dialog.alert));
            assert_eq!(dialog.alert.default_response, "readonly");
            assert_eq!(ids(&dialog.alert).contains(&"repair"), available);
            assert_eq!(ids(&dialog.alert).contains(&"force"), hibernated);
            assert_eq!(dialog.hint.is_none(), available);
            assert_eq!(dialog.technical, "driver says no");
            assert_eq!(dialog.explainers.len(), if hibernated { 3 } else { 2 });
            let suggested: Vec<&str> = dialog
                .alert
                .responses
                .iter()
                .filter(|r| r.appearance == Appearance::Suggested)
                .map(|r| r.id)
                .collect();
            assert_eq!(suggested, [if available { "repair" } else { "readonly" }]);
        }
    }
    assert_eq!(ntfs_choice("readonly"), NtfsChoice::ReadOnly);
    assert_eq!(ntfs_choice("repair"), NtfsChoice::Repair);
    assert_eq!(ntfs_choice("force"), NtfsChoice::Force);
    assert_eq!(ntfs_choice("cancel"), NtfsChoice::Cancel);
    assert_eq!(ntfs_choice("anything"), NtfsChoice::Cancel);
}

#[test]
fn passwords_are_taken_as_they_are() {
    let alert = ask_archive_password("a.zip");
    assert_eq!(alert.body.as_deref(), Some("Enter the password for “a.zip”."));
    assert!(answerable(&alert));
    assert_eq!(entered_password("accept", " p "), Some(" p ".to_string()));
    assert_eq!(entered_password("accept", ""), None);
    assert_eq!(entered_password("cancel", "p"), None);
    assert_eq!(
        ask_passphrase("Vault", false).body.as_deref(),
        Some("Enter the passphrase to unlock “Vault”.")
    );
    assert_eq!(
        ask_passphrase("Vault", true).body.as_deref(),
        Some("That passphrase did not work. Try again for “Vault”.")
    );
}

/// What a server says of a file of two megabytes.
fn probe() -> Probe {
    Probe { filename: "a.zip".to_string(), size: Some(2_000_000), supports_ranges: true }
}

#[test]
fn a_download_starts_once_the_server_has_answered() {
    let mut form = ask_download(&FilePath::new("/home/ada/Downloads"));
    assert!(!form.accept_enabled && !form.name_enabled);
    assert_eq!(form.status, "Paste a link to check it");
    let first = form.url_changed("https://x/a").unwrap();
    assert_eq!(form.status, "Checking…");
    let second = form.url_changed("https://x/a.zip").unwrap();
    form.probe_finished(first, Err("404".to_string()));
    assert!(!form.error, "the answer is for an older link");
    form.probe_finished(second, Ok(probe()));
    assert!(form.accept_enabled && form.name_enabled);
    assert_eq!(form.name, "a.zip");
    assert_eq!(form.status, "2 MB · will be split across several connections");
    form.folder_picked(&FilePath::new("/tmp"));
    let (chosen, folder) = form.finish(true, "b.zip", "b.zip").unwrap();
    assert_eq!((chosen.filename.as_str(), folder.display().as_str()), ("b.zip", "/tmp"));
    assert_eq!(chosen.size, Some(2_000_000));
}

#[test]
fn a_failed_probe_cannot_be_downloaded() {
    let mut form = ask_download(&FilePath::new("/d"));
    let n = form.url_changed("https://x").unwrap();
    form.probe_finished(n, Err("Not found".to_string()));
    assert!(form.error && !form.accept_enabled);
    assert_eq!(form.status, "Not found");
    assert!(form.finish(true, "a", "a").is_none());

    let mut form = ask_download(&FilePath::new("/d"));
    let n = form.url_changed("https://x").unwrap();
    form.probe_finished(n, Ok(probe()));
    assert_eq!(form.url_changed("  "), None);
    assert!(!form.accept_enabled);
    let n = form.url_changed("https://x").unwrap();
    form.probe_finished(n, Ok(probe()));
    let (kept, _) = form.finish(true, "  ", "ignored").unwrap();
    assert_eq!(kept.filename, "a.zip");
}

#[test]
fn probes_are_described() {
    let mut said = probe();
    said.supports_ranges = false;
    assert_eq!(describe(&said), "2 MB · single connection");
    said.size = None;
    assert_eq!(describe(&said), "Size unknown · single connection");
    let (name, path) = folder_button_content(&FilePath::new("/home/ada"));
    assert_eq!((name.as_str(), path.as_str()), ("ada", "/home/ada"));
    assert_eq!(folder_button_content(&FilePath::root()).0, "/");
}

#[test]
fn compressing_needs_a_name() {
    assert_eq!(ids(&ask_compress()), ["cancel", "accept"]);
    assert_eq!(compress_choice("accept", " stuff ", 2), Some(("stuff".to_string(), 2)));
    assert_eq!(compress_choice("accept", "  ", 2), None);
    assert_eq!(compress_choice("cancel", "stuff", 2), None);
}

#[test]
fn a_hundred_failures_are_summarised() {
    assert!(show_job_errors("Failed", &[]).is_none());
    let errors: Vec<(FilePath, String)> =
        (0..100).map(|n| (FilePath::new(&format!("/d/{n}")), "no".to_string())).collect();
    let few = show_job_errors("Failed", &errors[..2]).unwrap();
    assert_eq!(few.body.as_deref(), Some("• 0: no\n• 1: no"));
    let many = show_job_errors("Failed", &errors).unwrap().body.unwrap();
    assert!(many.ends_with("• 7: no\n\n…and 92 more."));
    assert_eq!(many.lines().count(), 10);
}
