use tiem::clock::{TimeOfDay, Timestamp};
use tiem::error::{FormatFault, TiemError};
use tiem::log::{split_fields, LogFile, LogRecord};

fn hm(h: u32, m: u32) -> TimeOfDay {
    TimeOfDay::new(h, m).unwrap()
}

#[test]
fn log_line_round_trip() {
    let rec = LogRecord::new("standup", hm(9, 0), hm(9, 30));
    let line = rec.to_line();
    assert_eq!(line, "09:00\t09:30\tstandup");
    assert_eq!(LogRecord::from_str(&line).unwrap(), rec);
}

#[test]
fn log_line_keeps_task_text() {
    let rec = LogRecord::new("write the report, part 2", hm(0, 5), hm(23, 59));
    let line = rec.to_line();
    assert_eq!(line, "00:05\t23:59\twrite the report, part 2");
    assert_eq!(LogRecord::from_str(&line).unwrap(), rec);
}

#[test]
fn log_line_with_wrong_field_count_is_a_format_error() {
    assert_eq!(LogRecord::from_str("09:00\t09:30"), Err(FormatFault::FieldCount));
    assert_eq!(LogRecord::from_str("09:00\t09:30\ta\tb"), Err(FormatFault::FieldCount));
    assert_eq!(LogRecord::from_str(""), Err(FormatFault::FieldCount));
    assert_eq!(LogRecord::from_str("09:00 09:30 standup"), Err(FormatFault::FieldCount));
}

#[test]
fn log_line_with_bad_times_is_a_format_error() {
    assert_eq!(LogRecord::from_str("09:7x\t09:30\tstandup"), Err(FormatFault::StartedTime));
    assert_eq!(LogRecord::from_str("09:00\t25:00\tstandup"), Err(FormatFault::EndedTime));
    assert_eq!(LogRecord::from_str("\t09:30\tstandup"), Err(FormatFault::StartedTime));
}

#[test]
fn time_of_day_reads_and_writes() {
    assert_eq!(TimeOfDay::parse("09:30"), Some(hm(9, 30)));
    assert_eq!(TimeOfDay::parse("24:00"), None);
    assert_eq!(TimeOfDay::parse("noon"), None);
    assert_eq!(hm(7, 5).to_text(), "07:05");
}

#[test]
fn split_fields_keeps_empty_pieces() {
    assert_eq!(split_fields("a\t\tb", '\t'), vec!["a", "", "b"]);
    assert_eq!(split_fields("", '\t'), vec![""]);
    assert_eq!(split_fields("abc", '\t'), vec!["abc"]);
}

#[test]
fn appended_record_reads_back_alone() {
    let rec = LogRecord::new("standup", hm(9, 0), hm(9, 30));
    let text = rec.to_entry();
    assert_eq!(text, "09:00\t09:30\tstandup\n");
    let file = LogFile::parse(&text).unwrap();
    assert_eq!(file.0.len(), 1);
    assert_eq!(file.0[0], rec);
}

#[test]
fn log_file_keeps_order_of_lines() {
    let a = LogRecord::new("standup", hm(9, 0), hm(9, 30));
    let b = LogRecord::new("review", hm(9, 30), hm(11, 0));
    let text = format!("{}{}", a.to_entry(), b.to_entry());
    let file = LogFile::parse(&text).unwrap();
    assert_eq!(file, LogFile(vec![a.clone(), b.clone()]));
    let no_final_break = format!("{}{}", a.to_entry(), b.to_line());
    assert_eq!(LogFile::parse(&no_final_break).unwrap(), LogFile(vec![a, b]));
}

#[test]
fn empty_log_file_has_no_records() {
    assert_eq!(LogFile::parse("").unwrap(), LogFile(vec![]));
}

#[test]
fn log_file_error_names_the_line() {
    let text = "09:00\t09:30\tstandup\n09:30\n10:00\t10:30\tlunch\n";
    match LogFile::parse(text) {
        Err(TiemError::Format { line, fault }) => {
            assert_eq!(line, 2);
            assert_eq!(fault, FormatFault::FieldCount);
        }
        other => panic!("unexpected {:?}", other),
    }
    match LogFile::parse("09:00\t09:30\tstandup\n\n") {
        Err(TiemError::Format { line, fault }) => {
            assert_eq!(line, 2);
            assert_eq!(fault, FormatFault::FieldCount);
        }
        other => panic!("unexpected {:?}", other),
    }
}

#[test]
fn log_file_name_is_the_date() {
    let day = Timestamp::new(2021, 12, 1, 11, 23, 45).unwrap();
    assert_eq!(LogFile::file_name(&day), "2021-12-01.log");
}
