//! Jobs and their cards.

use fileman::actions::shred_finished;
use fileman::actions::JobOutcome;
use fileman::path::FilePath;
use fileman::progress::format_duration;
use fileman::progress::JobCard;
use fileman::progress::JobMonitor;
use fileman::progress::JobStep;
use fileman::progress::Progress;
use fileman::progress::StreamEnd;
use fileman::progress::Totals;

#[test]
fn durations_are_short() {
    assert_eq!(format_duration(None), "—");
    assert_eq!(format_duration(Some(0)), "0s");
    assert_eq!(format_duration(Some(59)), "59s");
    assert_eq!(format_duration(Some(60)), "1m 0s");
    assert_eq!(format_duration(Some(3599)), "59m 59s");
    assert_eq!(format_duration(Some(3600)), "1h 0m");
    assert_eq!(format_duration(Some(7385)), "2h 3m");
}

#[test]
fn bytes_are_preferred_to_items() {
    let mut totals = Totals::new();
    assert_eq!(totals.fraction(), (0, 1));
    totals.items = 4;
    totals.done_items = 9;
    assert_eq!(totals.fraction(), (4, 4));
    totals.bytes = 100;
    totals.done_bytes = 30;
    assert_eq!(totals.fraction(), (30, 100));
    assert_eq!(totals.remaining(), 70);
    totals.done_bytes = 130;
    assert_eq!(totals.fraction(), (100, 100));
    assert_eq!(totals.remaining(), 0);
}

#[test]
fn the_status_says_what_is_known() {
    let mut totals = Totals::new();
    totals.done_items = 3;
    assert_eq!(totals.status_line(5000, 1, None), "3");
    totals.items = 10;
    assert_eq!(totals.status_line(5000, 1, None), "3 of 10");
    totals.bytes = 2_000_000;
    totals.done_bytes = 1500;
    assert_eq!(totals.status_line(999, 1, None), "3 of 10 · 1.50 kB of 2 MB");
    assert_eq!(
        totals.status_line(1000, 1500, Some(75)),
        "3 of 10 · 1.50 kB of 2 MB · 1.50 kB/s · 1m 15s left"
    );
    assert_eq!(
        totals.status_line(1000, 1500, None),
        "3 of 10 · 1.50 kB of 2 MB · 1.50 kB/s · — left"
    );
}

#[test]
fn a_card_follows_its_job() {
    let mut card = JobCard::new("Copying files");
    assert_eq!(card.title, "Copying files");
    assert_eq!(card.detail, "Preparing…");
    assert!(card.bar.is_none() && card.cancellable);

    let prepared = Progress::Prepared { total_bytes: 100, total_items: 2 };
    assert_eq!(card.receive(&prepared, 0, 0, 0, None), JobStep::Wait);
    assert_eq!(card.detail, "");

    let item = Progress::Item { name: "a.txt".to_string(), done_items: 1 };
    assert_eq!(card.receive(&item, 79, 10, 0, None), JobStep::Wait);
    assert_eq!(card.totals.done_items, 1);
    assert_eq!(card.detail, "");
    assert_eq!(card.receive(&item, 80, 10, 0, None), JobStep::Repainted);
    assert_eq!(card.detail, "a.txt");
    assert_eq!(card.status, "1 of 2 · 0 B of 100 B");

    let bytes = Progress::Bytes { done_bytes: 50 };
    assert_eq!(card.receive(&bytes, 80, 20, 0, None), JobStep::Repainted);
    assert_eq!(card.bar, Some((50, 100)));

    let failed = Progress::ItemFailed {
        path: FilePath::new("/d/b.txt"),
        error: "Permission denied".to_string(),
    };
    card.receive(&failed, 0, 30, 0, None);
    assert_eq!(card.detail, "b.txt: Permission denied");
    assert!(card.failure);

    let conflict =
        Progress::Conflict { source: FilePath::new("/a"), dest: FilePath::new("/b") };
    assert_eq!(card.receive(&conflict, 0, 40, 0, None), JobStep::AskConflict { several: true });
    assert_eq!(card.receive(&Progress::Finished, 0, 50, 0, None), JobStep::Finish);
}

#[test]
fn a_job_is_cancelled_once() {
    let mut card = JobCard::new("Shredding");
    card.cancel();
    assert!(!card.cancellable);
    assert_eq!(card.cancel_label, Some("Cancelling…"));
}

#[test]
fn the_strip_is_shown_while_jobs_run() {
    let mut monitor = JobMonitor::new();
    assert!(!monitor.revealed);
    let mut one = monitor.run("One");
    let mut two = monitor.run("Two");
    assert_eq!(two.title, "Two");
    assert!(monitor.revealed);
    let _ = monitor.stream_ended(&mut one, StreamEnd::Closed);
    assert!(monitor.revealed);
    let _ = monitor.stream_ended(&mut two, StreamEnd::Closed);
    assert!(!monitor.revealed);
}

#[test]
fn an_outcome_is_reported_once() {
    let mut monitor = JobMonitor::new();
    let mut card = monitor.run("Copying files");
    let brought = JobOutcome {
        errors: Vec::new(),
        cancelled: true,
        bytes_done: 7,
        items_done: 2,
        created: vec![FilePath::new("/d/a")],
    };
    let outcome = monitor.stream_ended(&mut card, StreamEnd::Finished(brought)).unwrap();
    assert!(outcome.cancelled);
    assert_eq!((outcome.bytes_done, outcome.items_done), (7, 2));
    assert_eq!(outcome.created.len(), 1);
    assert!(card.over);
    assert_eq!(monitor.active, 0);
    // The channel closes after the last message too.
    assert!(monitor.stream_ended(&mut card, StreamEnd::Closed).is_none());
    assert_eq!(monitor.active, 0);
}

#[test]
fn a_dead_worker_is_reported_too() {
    let mut monitor = JobMonitor::new();
    let _other = monitor.run("Other");
    let mut card = monitor.run("Extracting");
    assert!(!card.over);
    let outcome = monitor.stream_ended(&mut card, StreamEnd::Closed).unwrap();
    assert!(outcome.created.is_empty() && !outcome.cancelled);
    assert_eq!((outcome.bytes_done, outcome.items_done), (0, 0));
    assert_eq!(outcome.errors.len(), 1);
    // It does not pass for a success.
    let end = shred_finished(&outcome);
    assert!(end.toast.is_none());
    assert_eq!(
        end.alert.unwrap().body.as_deref(),
        Some("• Extracting: The job stopped before it was done")
    );
    assert_eq!(monitor.active, 1);
    assert!(monitor.revealed);
}

#[test]
fn totals_follow_the_messages() {
    let totals = Totals::new().after(&Progress::Prepared { total_bytes: 9, total_items: 3 });
    assert_eq!((totals.bytes, totals.items), (9, 3));
    let totals = totals.after(&Progress::Bytes { done_bytes: 4 });
    let totals = totals.after(&Progress::Item { name: "a".to_string(), done_items: 1 });
    assert_eq!((totals.done_bytes, totals.done_items), (4, 1));
    assert_eq!(totals.after(&Progress::Finished), totals);
}
