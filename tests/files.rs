use tiem::clock::{StatusTime, TimeOfDay, Timestamp};
use tiem::error::{ParseFault, TiemError};
use tiem::status::{Status, StatusDoc};

fn ts(y: i32, mo: u32, d: u32, h: u32, mi: u32, s: u32) -> Timestamp {
    Timestamp::new(y, mo, d, h, mi, s).unwrap()
}

fn doc_from_json(text: &str) -> StatusDoc {
    let v: serde_json::Value = serde_json::from_str(text).unwrap();
    match v.get("kind").and_then(|k| k.as_str()).unwrap() {
        "Running" => {
            let content = v.get("content").unwrap();
            StatusDoc::Running {
                task: content.get("task").and_then(|t| t.as_str()).unwrap().to_string(),
                started: content.get("started").and_then(|t| t.as_str()).unwrap().to_string(),
            }
        }
        _ => StatusDoc::Stopped,
    }
}

#[test]
fn test_serialize_status_time() {
    let s = r#"{"time": "2021-12-21T11:23:45"}"#;
    let v: serde_json::Value = serde_json::from_str(s).unwrap();
    let text = v.get("time").and_then(|t| t.as_str()).unwrap();
    let custom_time = StatusTime::deserialize_as(text).unwrap();
    assert_eq!(custom_time, ts(2021, 12, 21, 11, 23, 45));
}

#[test]
fn serialize_status_time_is_zero_padded() {
    let t = ts(987, 1, 2, 3, 4, 5);
    assert_eq!(StatusTime::serialize_as(&t), "0987-01-02T03:04:05");
    assert_eq!(StatusTime::serialize_as(&ts(2021, 12, 21, 11, 23, 45)), "2021-12-21T11:23:45");
}

#[test]
fn deserialize_status_time_rejects_bad_text() {
    assert_eq!(StatusTime::deserialize_as("2021-13-99T99:99:99"), None);
    assert_eq!(StatusTime::deserialize_as("2021-12-21 11:23:45"), None);
    assert_eq!(StatusTime::deserialize_as("2021-02-29T00:00:00"), None);
    assert_eq!(StatusTime::deserialize_as(""), None);
    assert_eq!(StatusTime::deserialize_as("2020-02-29T00:00:00"), Some(ts(2020, 2, 29, 0, 0, 0)));
}

#[test]
fn timestamp_new_checks_the_calendar() {
    assert!(Timestamp::new(2021, 2, 29, 0, 0, 0).is_none());
    assert!(Timestamp::new(2000, 2, 29, 0, 0, 0).is_some());
    assert!(Timestamp::new(1900, 2, 29, 0, 0, 0).is_none());
    assert!(Timestamp::new(2021, 4, 31, 0, 0, 0).is_none());
    assert!(Timestamp::new(2021, 12, 31, 23, 59, 59).is_some());
    assert!(Timestamp::new(2021, 12, 31, 24, 0, 0).is_none());
    assert!(Timestamp::new(10000, 1, 1, 0, 0, 0).is_none());
    assert!(Timestamp::new(-1, 1, 1, 0, 0, 0).is_none());
    assert!(TimeOfDay::new(23, 59).is_some());
    assert!(TimeOfDay::new(24, 0).is_none());
    assert!(TimeOfDay::new(12, 60).is_none());
}

#[test]
fn running_status_round_trips_through_its_document() {
    let status = Status::running("write report", ts(2021, 12, 21, 11, 23, 45));
    let doc = status.to_doc();
    assert_eq!(
        doc,
        StatusDoc::Running {
            task: "write report".to_string(),
            started: "2021-12-21T11:23:45".to_string(),
        }
    );
    assert_eq!(Status::from_doc(&doc).unwrap(), status);
}

#[test]
fn stopped_status_round_trips_through_its_document() {
    let doc = Status::Stopped.to_doc();
    assert_eq!(doc, StatusDoc::Stopped);
    assert_eq!(Status::from_doc(&doc).unwrap(), Status::Stopped);
}

#[test]
fn invalid_status_timestamp_is_a_parse_error() {
    let doc = doc_from_json(
        r#"{"kind":"Running","content":{"task":"x","started":"2021-13-99T99:99:99"}}"#,
    );
    let r = Status::from_doc(&doc);
    assert!(matches!(r, Err(TiemError::Parse(ParseFault::Timestamp))));
}

#[test]
fn status_document_from_json_reads_running() {
    let doc = doc_from_json(
        r#"{"kind":"Running","content":{"task":"write report","started":"2021-12-21T11:23:45"}}"#,
    );
    assert_eq!(
        Status::from_doc(&doc).unwrap(),
        Status::Running { task: "write report".to_string(), started: ts(2021, 12, 21, 11, 23, 45) }
    );
}
