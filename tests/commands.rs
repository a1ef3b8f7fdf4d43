use tiem::clock::{TimeOfDay, Timestamp};
use tiem::control::{start_transition, stop_transition};
use tiem::log::{LogFile, LogRecord};
use tiem::status::Status;

fn ts(y: i32, mo: u32, d: u32, h: u32, mi: u32, s: u32) -> Timestamp {
    Timestamp::new(y, mo, d, h, mi, s).unwrap()
}

fn hm(h: u32, m: u32) -> TimeOfDay {
    TimeOfDay::new(h, m).unwrap()
}

#[test]
fn start_then_get_reads_running() {
    let now = ts(2021, 12, 21, 11, 23, 45);
    let t = start_transition(&None, "write report", &now);
    assert_eq!(t.record, None);
    let next = t.next.unwrap();
    let stored = next.to_doc();
    let got = Status::from_doc(&stored).unwrap();
    assert_eq!(got, Status::Running { task: "write report".to_string(), started: now });
}

#[test]
fn start_while_stopped_writes_no_record() {
    let now = ts(2021, 12, 21, 9, 0, 0);
    let t = start_transition(&Some(Status::Stopped), "standup", &now);
    assert_eq!(t.record, None);
    assert_eq!(t.next, Some(Status::running("standup", now)));
}

#[test]
fn start_while_running_closes_the_previous_task() {
    let before = Status::running("standup", ts(2021, 12, 21, 9, 0, 12));
    let now = ts(2021, 12, 21, 9, 30, 59);
    let t = start_transition(&Some(before), "review", &now);
    assert_eq!(t.record, Some(LogRecord::new("standup", hm(9, 0), hm(9, 30))));
    assert_eq!(t.next, Some(Status::running("review", now)));
}

#[test]
fn stop_closes_the_running_task() {
    let before = Status::running("standup", ts(2021, 12, 21, 9, 0, 0));
    let now = ts(2021, 12, 21, 9, 30, 0);
    let t = stop_transition(&Some(before), &now);
    let rec = t.record.unwrap();
    assert_eq!(rec, LogRecord::new("standup", hm(9, 0), hm(9, 30)));
    assert_eq!(t.next, Some(Status::Stopped));
    let file = LogFile::parse(&rec.to_entry()).unwrap();
    assert_eq!(file.0, vec![rec]);
}

#[test]
fn stop_with_nothing_running_writes_nothing() {
    let now = ts(2021, 12, 21, 9, 30, 0);
    let t = stop_transition(&Some(Status::Stopped), &now);
    assert_eq!(t.record, None);
    assert_eq!(t.next, None);
    let t = stop_transition(&None, &now);
    assert_eq!(t.record, None);
    assert_eq!(t.next, None);
}
