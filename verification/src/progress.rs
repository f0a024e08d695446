//! Progress reporting for long-running file jobs.
//!
//! Each running job gets a card in a strip along the bottom of the window. The
//! card follows the job's progress messages, forwards conflicts to a dialog,
//! and goes when the job's stream ends, which is when the outcome is reported
//! back to the window.

use crate::actions::JobOutcome;
use crate::outside;
use crate::path;
use crate::path::FilePath;
use crate::text;
use vstd::prelude::*;
use vstd::string::*;
use vstd::utf8::*;

verus! {

/// Minimum gap between progress-bar repaints, in milliseconds.
///
/// Progress messages can arrive thousands of times a second on a fast copy;
/// repainting on each one would make the copy slower than the I/O.
pub const UI_INTERVAL_MS: u64 = 80;

// ── totals ─────────────────────────────────────────────────────────────────

/// How much there is to do, and how much is done.
#[derive(Clone, Copy, Debug, PartialEq, Eq, Structural)]
pub struct Totals {
    /// Bytes in all.
    pub bytes: u64,
    /// Items in all.
    pub items: u64,
    /// Bytes done.
    pub done_bytes: u64,
    /// Items done.
    pub done_items: u64,
}

/// The smaller of two numbers.
pub open spec fn least(a: u64, b: u64) -> u64 {
    if a <= b {
        a
    } else {
        b
    }
}

/// The part of the status that counts items.
pub open spec fn items_text(totals: Totals) -> Seq<char> {
    if totals.items > 0 {
        text::decimal(least(totals.done_items, totals.items) as nat) + " of "@ + text::decimal(
            totals.items as nat,
        )
    } else {
        text::decimal(totals.done_items as nat)
    }
}

/// A number of seconds in words, and a dash where there is none.
pub open spec fn duration_text(seconds: Option<u64>) -> Seq<char> {
    match seconds {
        None => "—"@,
        Some(secs) => if secs < 60 {
            text::decimal(secs as nat) + "s"@
        } else if secs < 3600 {
            text::decimal((secs / 60) as nat) + "m "@ + text::decimal((secs % 60) as nat) + "s"@
        } else {
            text::decimal((secs / 3600) as nat) + "h "@ + text::decimal(
                ((secs % 3600) / 60) as nat,
            ) + "m"@
        },
    }
}

/// Whether a rate is quoted: after a second of data, since the first samples
/// are dominated by startup and produce absurd numbers.
pub open spec fn quotes_rate(totals: Totals, elapsed_ms: u64) -> bool {
    totals.bytes > 0 && elapsed_ms >= 1000 && totals.done_bytes > 0
}

/// The status of a job: the items, the bytes where they are known, and after a
/// second the rate and the time left.
pub open spec fn status_text(
    totals: Totals,
    elapsed_ms: u64,
    rate: u64,
    left: Option<u64>,
) -> Seq<char> {
    let sizes = items_text(totals) + " · "@ + outside::size_text(totals.done_bytes) + " of "@
        + outside::size_text(totals.bytes);
    if totals.bytes == 0 {
        items_text(totals)
    } else if !quotes_rate(totals, elapsed_ms) {
        sizes
    } else {
        sizes + " · "@ + outside::size_text(rate) + "/s · "@ + duration_text(left) + " left"@
    }
}

/// A number of seconds in words.
pub fn format_duration(seconds: Option<u64>) -> (r: String)
    ensures
        r@ == duration_text(seconds),
{
    let secs: u64 = match seconds {
        Some(secs) => secs,
        None => return text::copied("—"),
    };
    let mut out: String;
    if secs < 60 {
        out = text::decimal_of(secs);
        out.append("s");
    } else if secs < 3600 {
        out = text::decimal_of(secs / 60);
        out.append("m ");
        out.append(text::decimal_of(secs % 60).as_str());
        out.append("s");
    } else {
        out = text::decimal_of(secs / 3600);
        out.append("h ");
        out.append(text::decimal_of((secs % 3600) / 60).as_str());
        out.append("m");
    }
    out
}

impl Totals {
    /// Nothing to do and nothing done.
    pub fn new() -> (r: Totals)
        ensures
            r == (Totals { bytes: 0, items: 0, done_bytes: 0, done_items: 0 }),
    {
        Totals { bytes: 0, items: 0, done_bytes: 0, done_items: 0 }
    }

    /// Progress as what is done of how much, preferring bytes when they're
    /// known; nothing is done where nothing is known.
    ///
    /// Item counts jump unevenly when files differ wildly in size, so bytes
    /// give a far smoother bar whenever they're available.
    pub fn fraction(&self) -> (r: (u64, u64))
        ensures
            r == fraction_of(*self),
            r.0 <= r.1,
            r.1 > 0,
    {
        if self.bytes > 0 {
            (
                if self.done_bytes <= self.bytes {
                    self.done_bytes
                } else {
                    self.bytes
                },
                self.bytes,
            )
        } else if self.items > 0 {
            (
                if self.done_items <= self.items {
                    self.done_items
                } else {
                    self.items
                },
                self.items,
            )
        } else {
            (0, 1)
        }
    }

    /// The status of the job. `rate` is in bytes for each second and `left` in
    /// seconds; they count only once a rate is quoted.
    pub fn status_line(&self, elapsed_ms: u64, rate: u64, left: Option<u64>) -> (r: String)
        ensures
            r@ == status_text(*self, elapsed_ms, rate, left),
    {
        let mut out: String;
        if self.items > 0 {
            let done: u64 = if self.done_items <= self.items {
                self.done_items
            } else {
                self.items
            };
            out = text::decimal_of(done);
            out.append(" of ");
            out.append(text::decimal_of(self.items).as_str());
        } else {
            out = text::decimal_of(self.done_items);
        }
        if self.bytes == 0 {
            return out;
        }
        out.append(" · ");
        out.append(outside::format_size(self.done_bytes).as_str());
        out.append(" of ");
        out.append(outside::format_size(self.bytes).as_str());
        if elapsed_ms < 1000 || self.done_bytes == 0 {
            return out;
        }
        out.append(" · ");
        out.append(outside::format_size(rate).as_str());
        out.append("/s · ");
        out.append(format_duration(left).as_str());
        out.append(" left");
        out
    }

    /// The totals after a message.
    pub fn after(&self, message: &Progress) -> (r: Totals)
        ensures
            r == totals_after(*self, *message),
    {
        let mut totals = *self;
        match message {
            Progress::Prepared { total_bytes, total_items } => {
                totals.bytes = *total_bytes;
                totals.items = *total_items;
            },
            Progress::Item { done_items, .. } => {
                totals.done_items = *done_items;
            },
            Progress::Bytes { done_bytes } => {
                totals.done_bytes = *done_bytes;
            },
            _ => {},
        }
        totals
    }

    /// How many bytes are left.
    pub fn remaining(&self) -> (r: u64)
        ensures
            r == (if self.bytes >= self.done_bytes {
                self.bytes - self.done_bytes
            } else {
                0
            }),
    {
        if self.bytes >= self.done_bytes {
            self.bytes - self.done_bytes
        } else {
            0
        }
    }
}

/// What is done of how much.
pub open spec fn fraction_of(totals: Totals) -> (u64, u64) {
    if totals.bytes > 0 {
        (least(totals.done_bytes, totals.bytes), totals.bytes)
    } else if totals.items > 0 {
        (least(totals.done_items, totals.items), totals.items)
    } else {
        (0, 1)
    }
}

// ── cards ──────────────────────────────────────────────────────────────────

/// What a job reports.
#[derive(Debug)]
pub enum Progress {
    /// The totals are known.
    Prepared { total_bytes: u64, total_items: u64 },
    /// Work on an item.
    Item { name: String, done_items: u64 },
    /// Bytes have been done.
    Bytes { done_bytes: u64 },
    /// The destination exists; the job waits for an answer.
    Conflict { source: FilePath, dest: FilePath },
    /// An item failed.
    ItemFailed { path: FilePath, error: String },
    /// The job is over.
    Finished,
}

/// What is to be done about a message beside what the card shows.
#[derive(Clone, Copy, Debug, PartialEq, Eq, Structural)]
pub enum JobStep {
    /// Nothing.
    Wait,
    /// The card has been repainted.
    Repainted,
    /// The user is to be asked, with an offer to answer for all that follow
    /// where there are several items.
    AskConflict { several: bool },
    /// The stream has ended: the card goes, and the outcome is reported.
    Finish,
}

/// How a job's stream ends.
#[derive(Debug)]
pub enum StreamEnd {
    /// With a last message, which brings the outcome.
    Finished(JobOutcome),
    /// Without one: the worker died.
    Closed,
}

/// What is said of a job whose worker died.
pub const STOPPED: &'static str = "The job stopped before it was done";

/// Whether an outcome is the one that is reported for an end of the job with
/// that title: the one it brings, or that the job failed, under its title, and
/// nothing came of it.
pub open spec fn reported_for(outcome: JobOutcome, title: Seq<char>, end: StreamEnd) -> bool {
    match end {
        StreamEnd::Finished(brought) => outcome == brought,
        StreamEnd::Closed => {
            &&& outcome.errors@.len() == 1
            &&& outcome.errors@[0].0@ == encode_utf8(title)
            &&& outcome.errors@[0].1@ == STOPPED@
            &&& !outcome.cancelled
            &&& outcome.bytes_done == 0
            &&& outcome.items_done == 0
            &&& outcome.created@.len() == 0
        },
    }
}

/// A job's card.
#[derive(Debug)]
pub struct JobCard {
    /// The heading.
    pub title: String,
    /// What is being worked on, or the last failure.
    pub detail: String,
    /// Whether the detail is marked as a failure.
    pub failure: bool,
    /// The status line.
    pub status: String,
    /// What is done of how much. Until totals are known the job is genuinely
    /// indeterminate; the bar pulses without inventing a percentage.
    pub bar: Option<(u64, u64)>,
    /// Whether the job can still be cancelled.
    pub cancellable: bool,
    /// The text of the cancel button, where it has one.
    pub cancel_label: Option<&'static str>,
    /// How much there is to do, and how much is done.
    pub totals: Totals,
    /// Whether the job's stream has ended.
    pub over: bool,
}

/// Whether enough time has passed for another repaint.
pub open spec fn paints(since_paint_ms: u64) -> bool {
    since_paint_ms >= UI_INTERVAL_MS
}

/// The totals after a message. The counts are always taken; only the repaint is
/// throttled.
pub open spec fn totals_after(totals: Totals, message: Progress) -> Totals {
    match message {
        Progress::Prepared { total_bytes, total_items } => Totals {
            bytes: total_bytes,
            items: total_items,
            ..totals
        },
        Progress::Item { name, done_items } => Totals { done_items, ..totals },
        Progress::Bytes { done_bytes } => Totals { done_bytes, ..totals },
        _ => totals,
    }
}

/// The name that a failure is reported under.
pub open spec fn failure_text(at: Seq<u8>, error: Seq<char>) -> Seq<char> {
    (match path::file_name(at) {
        Some(name) => outside::lossy(name),
        None => ""@,
    }) + ": "@ + error
}

impl JobCard {
    /// A card for a job that is being prepared.
    pub fn new(title: &str) -> (r: JobCard)
        ensures
            r.title@ == title@,
            r.detail@ == "Preparing…"@,
            !r.failure,
            r.status@ == ""@,
            r.bar is None,
            r.cancellable,
            r.cancel_label is None,
            r.totals == (Totals { bytes: 0, items: 0, done_bytes: 0, done_items: 0 }),
            !r.over,
    {
        JobCard {
            title: text::copied(title),
            detail: text::copied("Preparing…"),
            failure: false,
            status: text::copied(""),
            bar: None,
            cancellable: true,
            cancel_label: None,
            totals: Totals::new(),
            over: false,
        }
    }

    /// The job is being cancelled: it cannot be asked to twice.
    pub fn cancel(&mut self)
        ensures
            !final(self).cancellable,
            final(self).cancel_label matches Some(label) && label@ == "Cancelling…"@,
            final(self).title == old(self).title,
            final(self).detail == old(self).detail,
            final(self).failure == old(self).failure,
            final(self).status == old(self).status,
            final(self).bar == old(self).bar,
            final(self).totals == old(self).totals,
            final(self).over == old(self).over,
    {
        self.cancellable = false;
        self.cancel_label = Some("Cancelling…");
    }

    /// Shows how far the job has come.
    fn repaint(&mut self, elapsed_ms: u64, rate: u64, left: Option<u64>)
        ensures
            final(self).bar == Some(fraction_of(old(self).totals)),
            final(self).status@ == status_text(old(self).totals, elapsed_ms, rate, left),
            final(self).title == old(self).title,
            final(self).detail == old(self).detail,
            final(self).failure == old(self).failure,
            final(self).cancellable == old(self).cancellable,
            final(self).cancel_label == old(self).cancel_label,
            final(self).totals == old(self).totals,
            final(self).over == old(self).over,
    {
        self.bar = Some(self.totals.fraction());
        self.status = self.totals.status_line(elapsed_ms, rate, left);
    }

    /// The card after a message. `since_paint_ms` has passed since the last
    /// repaint and `elapsed_ms` since the start; `rate` and `left` are those of
    /// the totals after the message.
    pub fn receive(
        &mut self,
        message: &Progress,
        since_paint_ms: u64,
        elapsed_ms: u64,
        rate: u64,
        left: Option<u64>,
    ) -> (r: JobStep)
        ensures
            final(self).title == old(self).title,
            final(self).cancellable == old(self).cancellable,
            final(self).cancel_label == old(self).cancel_label,
            final(self).totals == totals_after(old(self).totals, *message),
            final(self).over == old(self).over,
            final(self).failure == (old(self).failure || *message is ItemFailed),
            match *message {
                Progress::Prepared { .. } => r == JobStep::Wait && final(self).detail@ == ""@,
                Progress::Item { name, .. } => if paints(since_paint_ms) {
                    r == JobStep::Repainted && final(self).detail@ == name@
                } else {
                    r == JobStep::Wait && final(self).detail@ == old(self).detail@
                },
                Progress::Bytes { .. } => r == (if paints(since_paint_ms) {
                    JobStep::Repainted
                } else {
                    JobStep::Wait
                }) && final(self).detail@ == old(self).detail@,
                Progress::Conflict { .. } => r == (JobStep::AskConflict {
                    several: old(self).totals.items > 1,
                }) && final(self).detail@ == old(self).detail@,
                Progress::ItemFailed { path, error } => r == JobStep::Wait
                    && final(self).detail@ == failure_text(path@, error@),
                Progress::Finished => r == JobStep::Finish && final(self).detail@
                    == old(self).detail@,
            },
            r == JobStep::Repainted ==> final(self).bar == Some(
                fraction_of(final(self).totals),
            ) && final(self).status@ == status_text(final(self).totals, elapsed_ms, rate, left),
            r != JobStep::Repainted ==> final(self).bar == old(self).bar && final(self).status
                == old(self).status,
    {
        self.totals = self.totals.after(message);
        match message {
            Progress::Prepared { .. } => {
                self.detail = text::copied("");
                JobStep::Wait
            },
            Progress::Item { name, .. } => {
                // Deleting or shredding a folder emits one of these per file,
                // so painting each one would have the interface, not the
                // filesystem, setting the pace.
                if since_paint_ms < UI_INTERVAL_MS {
                    return JobStep::Wait;
                }
                self.detail = text::copied(name.as_str());
                self.repaint(elapsed_ms, rate, left);
                JobStep::Repainted
            },
            Progress::Bytes { .. } => {
                if since_paint_ms < UI_INTERVAL_MS {
                    return JobStep::Wait;
                }
                self.repaint(elapsed_ms, rate, left);
                JobStep::Repainted
            },
            Progress::Conflict { .. } => JobStep::AskConflict { several: self.totals.items > 1 },
            Progress::ItemFailed { path, error } => {
                // The full list is reported once at the end; showing the latest
                // failure here keeps a long, partly-failing job from looking
                // like it is silently succeeding.
                let mut detail = match path.file_name_text() {
                    Some(name) => name,
                    None => text::copied(""),
                };
                detail.append(": ");
                detail.append(error.as_str());
                self.detail = detail;
                self.failure = true;
                JobStep::Wait
            },
            Progress::Finished => JobStep::Finish,
        }
    }
}

// ── the monitor ────────────────────────────────────────────────────────────

/// The strip of cards.
#[derive(Debug)]
pub struct JobMonitor {
    /// How many jobs are running.
    pub active: usize,
    /// Whether the strip is revealed.
    pub revealed: bool,
}

impl JobMonitor {
    /// The strip is revealed exactly while jobs are running.
    pub open spec fn valid(&self) -> bool {
        self.revealed == (self.active > 0)
    }

    /// No jobs are running.
    pub fn new() -> (r: JobMonitor)
        ensures
            r.valid(),
            r.active == 0,
    {
        JobMonitor { active: 0, revealed: false }
    }

    /// Takes on a job, showing a card until it finishes.
    pub fn run(&mut self, title: &str) -> (card: JobCard)
        requires
            old(self).valid(),
            old(self).active < usize::MAX,
        ensures
            final(self).valid(),
            final(self).active == old(self).active + 1,
            final(self).revealed,
            card.title@ == title@,
            card.detail@ == "Preparing…"@,
            !card.failure,
            card.status@ == ""@,
            card.bar is None,
            card.cancellable,
            card.cancel_label is None,
            card.totals == (Totals { bytes: 0, items: 0, done_bytes: 0, done_items: 0 }),
            !card.over,
    {
        self.active = self.active + 1;
        self.revealed = true;
        JobCard::new(title)
    }

    /// A job's stream has ended: its card goes, and with the last one the strip.
    /// Returns the outcome to report. An end that comes after another reports
    /// nothing and changes nothing.
    pub fn stream_ended(&mut self, card: &mut JobCard, end: StreamEnd) -> (r: Option<JobOutcome>)
        requires
            old(self).valid(),
        ensures
            final(self).valid(),
            final(self).active == active_after_end(old(self).active as nat, old(card).over),
            *final(card) == (JobCard { over: true, ..*old(card) }),
            r is Some <==> !old(card).over,
            r matches Some(outcome) ==> reported_for(outcome, old(card).title@, end),
    {
        if card.over {
            return None;
        }
        card.over = true;
        if self.active > 0 {
            self.active = self.active - 1;
        }
        if self.active == 0 {
            self.revealed = false;
        }
        match end {
            StreamEnd::Finished(outcome) => Some(outcome),
            StreamEnd::Closed => {
                let mut outcome = JobOutcome::default();
                outcome.errors.push(
                    (FilePath::new(card.title.as_str()), text::copied(STOPPED)),
                );
                Some(outcome)
            },
        }
    }
}

/// How many jobs are running after a stream has ended that was over or not.
pub open spec fn active_after_end(active: nat, over: bool) -> nat {
    if !over && active > 0 {
        (active - 1) as nat
    } else {
        active
    }
}

/// How many outcomes are reported for a card's stream in a number of ends, from
/// one that is over or not.
pub open spec fn reports(over: bool, ends: nat) -> nat
    decreases ends,
{
    if ends == 0 {
        0
    } else {
        (if over {
            0
        } else {
            1nat
        }) + reports(true, (ends - 1) as nat)
    }
}

/// However a job's stream ends, and however often its end is seen, its outcome
/// is reported exactly once, and as many jobs are running as before it.
pub proof fn law_an_outcome_is_reported_once(active: nat, ends: nat)
    requires
        ends > 0,
    ensures
        reports(false, ends) == 1,
        active_after_end(active + 1, false) == active,
        active_after_end(active, true) == active,
{
    lemma_nothing_after_the_end((ends - 1) as nat);
}

/// Once a stream is over nothing more is reported.
proof fn lemma_nothing_after_the_end(ends: nat)
    ensures
        reports(true, ends) == 0,
    decreases ends,
{
    if ends > 0 {
        lemma_nothing_after_the_end((ends - 1) as nat);
    }
}

/// The bar never goes past its end, and is full when all bytes are done.
pub proof fn law_the_bar_stays_inside(totals: Totals)
    ensures
        fraction_of(totals).1 > 0,
        fraction_of(totals).0 <= fraction_of(totals).1,
        totals.bytes > 0 && totals.done_bytes == totals.bytes ==> fraction_of(totals).0
            == fraction_of(totals).1,
{
}

/// The bar shows the bytes that are done of all bytes, or the items that are
/// done of all items where the bytes are not known.
pub proof fn law_the_bar_prefers_bytes(totals: Totals)
    ensures
        totals.bytes > 0 && totals.done_bytes <= totals.bytes ==> fraction_of(totals) == (
            totals.done_bytes,
            totals.bytes,
        ),
        totals.bytes == 0 && totals.items > 0 && totals.done_items <= totals.items ==> fraction_of(
            totals,
        ) == (totals.done_items, totals.items),
        totals.bytes == 0 && totals.items == 0 ==> fraction_of(totals) == (0u64, 1u64),
{
}

/// The status counts the items done of all, or alone where their number is not
/// known.
pub proof fn law_the_status_counts_items(totals: Totals)
    ensures
        totals.items > 0 && totals.done_items <= totals.items ==> items_text(totals)
            == text::decimal(totals.done_items as nat) + " of "@ + text::decimal(
            totals.items as nat,
        ),
        totals.items > 0 && totals.done_items > totals.items ==> items_text(totals)
            == text::decimal(totals.items as nat) + " of "@ + text::decimal(totals.items as nat),
        totals.items == 0 ==> items_text(totals) == text::decimal(totals.done_items as nat),
{
}

/// The status shows the bytes where they are known, and the rate and the time
/// left once a second has passed and something is done.
pub proof fn law_the_status_quotes_a_rate_after_a_second(
    totals: Totals,
    elapsed_ms: u64,
    rate: u64,
    left: Option<u64>,
)
    ensures
        totals.bytes == 0 ==> status_text(totals, elapsed_ms, rate, left) == items_text(totals),
        totals.bytes > 0 && (elapsed_ms < 1000 || totals.done_bytes == 0) ==> status_text(
            totals,
            elapsed_ms,
            rate,
            left,
        ) == items_text(totals) + " · "@ + outside::size_text(totals.done_bytes) + " of "@
            + outside::size_text(totals.bytes),
        totals.bytes > 0 && elapsed_ms >= 1000 && totals.done_bytes > 0 ==> status_text(
            totals,
            elapsed_ms,
            rate,
            left,
        ) == items_text(totals) + " · "@ + outside::size_text(totals.done_bytes) + " of "@
            + outside::size_text(totals.bytes) + " · "@ + outside::size_text(rate) + "/s · "@
            + duration_text(left) + " left"@,
{
}

/// A duration is told in seconds below a minute, in minutes and seconds below an
/// hour, and in hours and minutes from there.
pub proof fn law_durations_are_told_in_two_units(h: u64, m: u64, s: u64)
    requires
        m < 60,
        s < 60,
        h <= 1000000,
    ensures
        duration_text(Some(s)) == text::decimal(s as nat) + "s"@,
        m > 0 ==> duration_text(Some((60 * m + s) as u64)) == text::decimal(m as nat) + "m "@
            + text::decimal(s as nat) + "s"@,
        h > 0 ==> duration_text(Some((3600 * h + 60 * m + s) as u64)) == text::decimal(h as nat)
            + "h "@ + text::decimal(m as nat) + "m"@,
        duration_text(None) == "—"@,
{
    let a = (60 * m + s) as u64;
    assert(a / 60 == m && a % 60 == s);
    let b = (3600 * h + 60 * m + s) as u64;
    assert(b / 3600 == h && b % 3600 == a);
}

/// The totals follow the messages: each sets what it tells of and nothing else.
pub proof fn law_totals_follow_the_messages(
    totals: Totals,
    bytes: u64,
    items: u64,
    name: String,
    at: FilePath,
    to: FilePath,
    why: String,
)
    ensures
        totals_after(totals, Progress::Prepared { total_bytes: bytes, total_items: items }) == (
        Totals { bytes, items, ..totals }),
        totals_after(totals, Progress::Item { name, done_items: items }) == (Totals {
            done_items: items,
            ..totals
        }),
        totals_after(totals, Progress::Bytes { done_bytes: bytes }) == (Totals {
            done_bytes: bytes,
            ..totals
        }),
        totals_after(totals, Progress::Conflict { source: at, dest: to }) == totals,
        totals_after(totals, Progress::ItemFailed { path: at, error: why }) == totals,
        totals_after(totals, Progress::Finished) == totals,
{
}

/// The card is repainted at most every eighty milliseconds, and then always.
pub proof fn law_repaints_are_eighty_milliseconds_apart(since_paint_ms: u64)
    ensures
        paints(since_paint_ms) <==> since_paint_ms >= 80,
{
}

/// A failure is told with the name of the file and the reason.
pub proof fn law_failures_name_the_file(dir: Seq<u8>, name: Seq<u8>, error: Seq<char>)
    requires
        path::is_name(name),
    ensures
        failure_text(path::joined(dir, name), error) == outside::lossy(name) + ": "@ + error,
{
    path::law_join_appends_a_name(dir, name);
}

/// What a job brought is what is reported of it; a job whose worker died is
/// reported as one failure, with nothing done.
pub proof fn law_outcomes_are_reported_as_they_are(
    outcome: JobOutcome,
    brought: JobOutcome,
    title: Seq<char>,
)
    ensures
        reported_for(outcome, title, StreamEnd::Finished(brought)) ==> outcome == brought,
        reported_for(outcome, title, StreamEnd::Closed) ==> outcome.errors@.len() == 1
            && outcome.errors@[0].1@ == "The job stopped before it was done"@
            && !outcome.cancelled && outcome.bytes_done == 0 && outcome.items_done == 0
            && outcome.created@.len() == 0,
{
}

/// The strip is there exactly while jobs are running.
pub proof fn law_the_strip_shows_running_jobs(monitor: JobMonitor)
    requires
        monitor.valid(),
    ensures
        monitor.revealed <==> monitor.active > 0,
{
}

} // verus!
