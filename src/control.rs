//! What `start` and `stop` do to the status and the log.
use crate::clock::{TimeOfDay, Timestamp};
use crate::log::{LogRecord, LogRecordView};
use crate::status::{Status, StatusView};
use vstd::prelude::*;

verus! {

/// The writes one command makes: a record to append to the log of the day,
/// and a status to store; `None` leaves the log, or the status, as it is.
#[derive(Debug, Clone, PartialEq, Eq)]
pub struct Transition {
    pub record: Option<LogRecord>,
    pub next: Option<Status>,
}

/// The record that closes the interval of a running task at `now`.
pub open spec fn closing_record(current: Option<StatusView>, now: Timestamp) -> Option<LogRecordView> {
    match current {
        Some(StatusView::Running { task, started }) => Some(
            LogRecordView { task, started: started.clock_spec(), ended: now.clock_spec() },
        ),
        _ => None,
    }
}

pub open spec fn status_view(s: Option<Status>) -> Option<StatusView> {
    match s {
        Some(s) => Some(s@),
        None => None,
    }
}

pub open spec fn record_view(r: Option<LogRecord>) -> Option<LogRecordView> {
    match r {
        Some(r) => Some(r@),
        None => None,
    }
}

/// The record, if any, that closes what runs: the task, from the time of day
/// it started to that of `now`.
fn close_running(current: &Option<Status>, now: &Timestamp) -> (r: Option<LogRecord>)
    requires
        now.wf(),
        current matches Some(s) ==> s.wf(),
    ensures
        record_view(r) == closing_record(status_view(*current), *now),
        r matches Some(rec) ==> rec.wf(),
{
    match current {
        Some(Status::Running { task, started }) => {
            let from: TimeOfDay = started.clock();
            let to: TimeOfDay = now.clock();
            Some(LogRecord::new(task.as_str(), from, to))
        },
        _ => None,
    }
}

/// Starting `task` at `now`: what ran before, if anything, is closed into
/// the log, and `task` runs from `now`. `current` is `None` where the status
/// could not be read.
pub fn start_transition(current: &Option<Status>, task: &str, now: &Timestamp) -> (r: Transition)
    requires
        now.wf(),
        current matches Some(s) ==> s.wf(),
    ensures
        record_view(r.record) == closing_record(status_view(*current), *now),
        r.record matches Some(rec) ==> rec.wf(),
        status_view(r.next) == Some(StatusView::Running { task: task@, started: *now }),
        r.next matches Some(s) ==> s.wf(),
{
    let record = close_running(current, now);
    Transition { record, next: Some(Status::running(task, *now)) }
}

/// Stopping at `now`: what runs is closed into the log and the status becomes
/// `Stopped`; where nothing runs, nothing is written.
pub fn stop_transition(current: &Option<Status>, now: &Timestamp) -> (r: Transition)
    requires
        now.wf(),
        current matches Some(s) ==> s.wf(),
    ensures
        record_view(r.record) == closing_record(status_view(*current), *now),
        r.record matches Some(rec) ==> rec.wf(),
        r.next == (if r.record is Some {
            Some(Status::Stopped)
        } else {
            None::<Status>
        }),
{
    let record = close_running(current, now);
    let next = if record.is_some() {
        Some(Status::Stopped)
    } else {
        None
    };
    Transition { record, next }
}

} // verus!
