//! Times of day (`HH:MM`) and timestamps (`YYYY-MM-DDTHH:MM:SS`): their
//! fields, their text, and reading them back.
use chrono::{Datelike, Timelike};
use vstd::prelude::*;

verus! {

/// The character of the decimal digit `d` (`0 <= d <= 9`).
pub open spec fn digit_char(d: int) -> char {
    if d == 0 {
        '0'
    } else if d == 1 {
        '1'
    } else if d == 2 {
        '2'
    } else if d == 3 {
        '3'
    } else if d == 4 {
        '4'
    } else if d == 5 {
        '5'
    } else if d == 6 {
        '6'
    } else if d == 7 {
        '7'
    } else if d == 8 {
        '8'
    } else {
        '9'
    }
}

/// The value of a decimal digit character, or -1 for any other character.
pub open spec fn digit_value(c: char) -> int {
    if c == '0' {
        0
    } else if c == '1' {
        1
    } else if c == '2' {
        2
    } else if c == '3' {
        3
    } else if c == '4' {
        4
    } else if c == '5' {
        5
    } else if c == '6' {
        6
    } else if c == '7' {
        7
    } else if c == '8' {
        8
    } else if c == '9' {
        9
    } else {
        -1
    }
}

pub open spec fn is_digit(c: char) -> bool {
    digit_value(c) >= 0
}

/// `n` as two zero-padded decimal digits (`0 <= n < 100`).
pub open spec fn two_digits(n: int) -> Seq<char> {
    seq![digit_char(n / 10), digit_char(n % 10)]
}

/// `n` as four zero-padded decimal digits (`0 <= n < 10000`).
pub open spec fn four_digits(n: int) -> Seq<char> {
    seq![digit_char(n / 1000), digit_char((n / 100) % 10), digit_char((n / 10) % 10), digit_char(n % 10)]
}

/// The number written by the two digits of `s` at `i` and `i + 1`.
pub open spec fn number2(s: Seq<char>, i: int) -> int {
    10 * digit_value(s[i]) + digit_value(s[i + 1])
}

/// The number written by the four digits of `s` from `i` to `i + 3`.
pub open spec fn number4(s: Seq<char>, i: int) -> int {
    100 * number2(s, i) + number2(s, i + 2)
}

pub proof fn lemma_digit_round_trip(d: int)
    requires
        0 <= d <= 9,
    ensures
        digit_value(digit_char(d)) == d,
        is_digit(digit_char(d)),
{
}

pub proof fn lemma_two_digits_round_trip(n: int)
    requires
        0 <= n < 100,
    ensures
        two_digits(n).len() == 2,
        is_digit(two_digits(n)[0]),
        is_digit(two_digits(n)[1]),
        number2(two_digits(n), 0) == n,
{
    lemma_digit_round_trip(n / 10);
    lemma_digit_round_trip(n % 10);
}

pub proof fn lemma_four_digits_round_trip(n: int)
    requires
        0 <= n < 10000,
    ensures
        four_digits(n).len() == 4,
        forall|i: int| 0 <= i < 4 ==> is_digit(#[trigger] four_digits(n)[i]),
        number4(four_digits(n), 0) == n,
{
    lemma_digit_round_trip(n / 1000);
    lemma_digit_round_trip((n / 100) % 10);
    lemma_digit_round_trip((n / 10) % 10);
    lemma_digit_round_trip(n % 10);
}

/// The one-character text of the digit `d`.
fn digit_str(d: u32) -> (r: &'static str)
    requires
        d < 10,
    ensures
        r@ == seq![digit_char(d as int)],
{
    proof {
        reveal_strlit("0");
        reveal_strlit("1");
        reveal_strlit("2");
        reveal_strlit("3");
        reveal_strlit("4");
        reveal_strlit("5");
        reveal_strlit("6");
        reveal_strlit("7");
        reveal_strlit("8");
        reveal_strlit("9");
    }
    if d == 0 {
        "0"
    } else if d == 1 {
        "1"
    } else if d == 2 {
        "2"
    } else if d == 3 {
        "3"
    } else if d == 4 {
        "4"
    } else if d == 5 {
        "5"
    } else if d == 6 {
        "6"
    } else if d == 7 {
        "7"
    } else if d == 8 {
        "8"
    } else {
        "9"
    }
}

/// Appends `n` as two zero-padded digits.
fn push_two_digits(out: &mut String, n: u32)
    requires
        n < 100,
    ensures
        final(out)@ == old(out)@ + two_digits(n as int),
{
    out.append(digit_str(n / 10));
    out.append(digit_str(n % 10));
    assert(final(out)@ =~= old(out)@ + two_digits(n as int));
}

/// Appends `n` as four zero-padded digits.
fn push_four_digits(out: &mut String, n: u32)
    requires
        n < 10000,
    ensures
        final(out)@ == old(out)@ + four_digits(n as int),
{
    out.append(digit_str(n / 1000));
    out.append(digit_str((n / 100) % 10));
    out.append(digit_str((n / 10) % 10));
    out.append(digit_str(n % 10));
    assert(final(out)@ =~= old(out)@ + four_digits(n as int));
}

/// A time of day to the minute.
#[derive(Debug, Clone, Copy, PartialEq, Eq, Structural)]
pub struct TimeOfDay {
    pub hour: u32,
    pub minute: u32,
}

/// A calendar date and a time of day to the second, with no time zone.
#[derive(Debug, Clone, Copy, PartialEq, Eq, Structural)]
pub struct Timestamp {
    pub year: i32,
    pub month: u32,
    pub day: u32,
    pub hour: u32,
    pub minute: u32,
    pub second: u32,
}

pub open spec fn is_leap_year(y: int) -> bool {
    y % 4 == 0 && (y % 100 != 0 || y % 400 == 0)
}

pub open spec fn days_in_month(y: int, m: int) -> int {
    if m == 2 {
        if is_leap_year(y) {
            29
        } else {
            28
        }
    } else if m == 4 || m == 6 || m == 9 || m == 11 {
        30
    } else {
        31
    }
}

/// Whether the numbers name a real date of a four-digit year and a time of day.
pub open spec fn valid_timestamp(y: int, mo: int, d: int, h: int, mi: int, s: int) -> bool {
    &&& 0 <= y <= 9999
    &&& 1 <= mo <= 12
    &&& 1 <= d <= days_in_month(y, mo)
    &&& 0 <= h < 24
    &&& 0 <= mi < 60
    &&& 0 <= s < 60
}

/// `HH:MM`, zero-padded.
pub open spec fn clock_text(h: int, m: int) -> Seq<char> {
    two_digits(h) + seq![':'] + two_digits(m)
}

/// Whether `s` is exactly `HH:MM` with two digits each and a real time of day.
pub open spec fn is_clock_text(s: Seq<char>) -> bool {
    &&& s.len() == 5
    &&& is_digit(s[0]) && is_digit(s[1]) && is_digit(s[3]) && is_digit(s[4])
    &&& s[2] == ':'
    &&& number2(s, 0) < 24
    &&& number2(s, 3) < 60
}

/// What chrono's `NaiveTime::parse_from_str(s, "%H:%M")` reads from `s`, as
/// hour and minute.
pub uninterp spec fn hm_parsed(s: Seq<char>) -> Option<(u32, u32)>;

/// The result of reading `s` as `%H:%M`: exact on the canonical text, named
/// on the rest (chrono also takes one-digit fields and leading blanks).
pub open spec fn clock_parse(s: Seq<char>) -> Option<(u32, u32)> {
    if is_clock_text(s) {
        Some((number2(s, 0) as u32, number2(s, 3) as u32))
    } else {
        hm_parsed(s)
    }
}

/// `YYYY-MM-DDTHH:MM:SS`, zero-padded.
pub open spec fn timestamp_text(t: Timestamp) -> Seq<char> {
    four_digits(t.year as int) + seq!['-'] + two_digits(t.month as int) + seq!['-']
        + two_digits(t.day as int) + seq!['T'] + two_digits(t.hour as int) + seq![':']
        + two_digits(t.minute as int) + seq![':'] + two_digits(t.second as int)
}

/// The fields written in a text of the shape `YYYY-MM-DDTHH:MM:SS`.
pub open spec fn timestamp_fields(s: Seq<char>) -> (i32, u32, u32, u32, u32, u32) {
    (
        number4(s, 0) as i32,
        number2(s, 5) as u32,
        number2(s, 8) as u32,
        number2(s, 11) as u32,
        number2(s, 14) as u32,
        number2(s, 17) as u32,
    )
}

/// Whether `s` is exactly `YYYY-MM-DDTHH:MM:SS`, every field zero-padded to
/// its width, and names a real date and time of day.
pub open spec fn is_timestamp_text(s: Seq<char>) -> bool {
    &&& s.len() == 19
    &&& forall|i: int|
        0 <= i < 19 && i != 4 && i != 7 && i != 10 && i != 13 && i != 16 ==> is_digit(
            #[trigger] s[i],
        )
    &&& s[4] == '-' && s[7] == '-' && s[10] == 'T' && s[13] == ':' && s[16] == ':'
    &&& valid_timestamp(
        number4(s, 0),
        number2(s, 5),
        number2(s, 8),
        number2(s, 11),
        number2(s, 14),
        number2(s, 17),
    )
}

/// What chrono's `NaiveDateTime::parse_from_str(s, "%Y-%m-%dT%H:%M:%S")`
/// reads from `s`, as year, month, day, hour, minute and second.
pub uninterp spec fn datetime_parsed(s: Seq<char>) -> Option<(i32, u32, u32, u32, u32, u32)>;

/// The result of reading `s` as `%Y-%m-%dT%H:%M:%S`: exact on the canonical
/// text of a real date and time, named on the rest.
pub open spec fn datetime_parse(s: Seq<char>) -> Option<(i32, u32, u32, u32, u32, u32)> {
    if is_timestamp_text(s) {
        Some(timestamp_fields(s))
    } else {
        datetime_parsed(s)
    }
}

impl TimeOfDay {
    pub open spec fn wf(self) -> bool {
        self.hour < 24 && self.minute < 60
    }

    pub open spec fn text(self) -> Seq<char> {
        clock_text(self.hour as int, self.minute as int)
    }

    /// The time of day that `s` names, if `%H:%M` reads it as one.
    pub open spec fn parse_spec(s: Seq<char>) -> Option<TimeOfDay> {
        match clock_parse(s) {
            Some((h, m)) => if h < 24 && m < 60 {
                Some(TimeOfDay { hour: h, minute: m })
            } else {
                None
            },
            None => None,
        }
    }

    /// The time `hour:minute`, if it is one of a day.
    pub fn new(hour: u32, minute: u32) -> (r: Option<TimeOfDay>)
        ensures
            match r {
                Some(t) => t.wf() && t.hour == hour && t.minute == minute,
                None => !(hour < 24 && minute < 60),
            },
    {
        if hour < 24 && minute < 60 {
            Some(TimeOfDay { hour, minute })
        } else {
            None
        }
    }

    /// Reads `HH:MM`.
    pub fn parse(s: &str) -> (r: Option<TimeOfDay>)
        ensures
            r == TimeOfDay::parse_spec(s@),
            r matches Some(t) ==> t.wf(),
    {
        match chrono_parse_clock(s) {
            Some((h, m)) => TimeOfDay::new(h, m),
            None => None,
        }
    }

    /// Writes `HH:MM`.
    pub fn to_text(&self) -> (r: String)
        requires
            self.wf(),
        ensures
            r@ == self.text(),
    {
        let mut out = String::new();
        push_two_digits(&mut out, self.hour);
        proof {
            reveal_strlit(":");
        }
        out.append(":");
        push_two_digits(&mut out, self.minute);
        assert(out@ =~= self.text());
        out
    }
}

impl Timestamp {
    pub open spec fn wf(self) -> bool {
        valid_timestamp(
            self.year as int,
            self.month as int,
            self.day as int,
            self.hour as int,
            self.minute as int,
            self.second as int,
        )
    }

    /// The time of day of this timestamp, to the minute.
    pub open spec fn clock_spec(self) -> TimeOfDay {
        TimeOfDay { hour: self.hour, minute: self.minute }
    }

    /// The timestamp that `s` names, if `%Y-%m-%dT%H:%M:%S` reads it as one
    /// with a four-digit year.
    pub open spec fn parse_spec(s: Seq<char>) -> Option<Timestamp> {
        match datetime_parse(s) {
            Some((y, mo, d, h, mi, sec)) => if valid_timestamp(
                y as int,
                mo as int,
                d as int,
                h as int,
                mi as int,
                sec as int,
            ) {
                Some(Timestamp { year: y, month: mo, day: d, hour: h, minute: mi, second: sec })
            } else {
                None
            },
            None => None,
        }
    }

    /// The timestamp with these fields, if they name a real date of a
    /// four-digit year and a time of day.
    pub fn new(year: i32, month: u32, day: u32, hour: u32, minute: u32, second: u32) -> (r: Option<
        Timestamp,
    >)
        ensures
            match r {
                Some(t) => t.wf() && t == (Timestamp { year, month, day, hour, minute, second }),
                None => !valid_timestamp(
                    year as int,
                    month as int,
                    day as int,
                    hour as int,
                    minute as int,
                    second as int,
                ),
            },
    {
        if year < 0 || year > 9999 || month < 1 || month > 12 || day < 1 || hour >= 24
            || minute >= 60 || second >= 60 {
            return None;
        }
        let leap = year % 4 == 0 && (year % 100 != 0 || year % 400 == 0);
        let last_day: u32 = if month == 2 {
            if leap {
                29
            } else {
                28
            }
        } else if month == 4 || month == 6 || month == 9 || month == 11 {
            30
        } else {
            31
        };
        if day > last_day {
            return None;
        }
        Some(Timestamp { year, month, day, hour, minute, second })
    }

    /// The time of day of this timestamp, to the minute.
    pub fn clock(&self) -> (r: TimeOfDay)
        requires
            self.wf(),
        ensures
            r == self.clock_spec(),
            r.wf(),
    {
        TimeOfDay { hour: self.hour, minute: self.minute }
    }

    /// The date as `YYYY-MM-DD`.
    pub fn date_text(&self) -> (r: String)
        requires
            self.wf(),
        ensures
            r@ == timestamp_text(*self).subrange(0, 10),
    {
        let mut out = String::new();
        push_four_digits(&mut out, self.year as u32);
        proof {
            reveal_strlit("-");
        }
        out.append("-");
        push_two_digits(&mut out, self.month);
        out.append("-");
        push_two_digits(&mut out, self.day);
        assert(out@ =~= timestamp_text(*self).subrange(0, 10));
        out
    }
}

/// The serialized form of a timestamp in the status document.
pub struct StatusTime;

impl StatusTime {
    /// Writes `YYYY-MM-DDTHH:MM:SS`.
    pub fn serialize_as(source: &Timestamp) -> (r: String)
        requires
            source.wf(),
        ensures
            r@ == timestamp_text(*source),
    {
        chrono_timestamp_text(source)
    }

    /// Reads `YYYY-MM-DDTHH:MM:SS`; `None` where the text names no timestamp
    /// with a four-digit year.
    pub fn deserialize_as(s: &str) -> (r: Option<Timestamp>)
        ensures
            r == Timestamp::parse_spec(s@),
            r matches Some(t) ==> t.wf(),
    {
        match chrono_parse_timestamp(s) {
            Some((y, mo, d, h, mi, sec)) => Timestamp::new(y, mo, d, h, mi, sec),
            None => None,
        }
    }
}

/// The canonical text of a timestamp reads back as that timestamp.
pub proof fn lemma_timestamp_text_round_trip(t: Timestamp)
    requires
        t.wf(),
    ensures
        Timestamp::parse_spec(timestamp_text(t)) == Some(t),
{
    let s = timestamp_text(t);
    lemma_four_digits_round_trip(t.year as int);
    lemma_two_digits_round_trip(t.month as int);
    lemma_two_digits_round_trip(t.day as int);
    lemma_two_digits_round_trip(t.hour as int);
    lemma_two_digits_round_trip(t.minute as int);
    lemma_two_digits_round_trip(t.second as int);
    let y = four_digits(t.year as int);
    assert(s.subrange(0, 4) =~= y);
    assert(s.subrange(5, 7) =~= two_digits(t.month as int));
    assert(s.subrange(8, 10) =~= two_digits(t.day as int));
    assert(s.subrange(11, 13) =~= two_digits(t.hour as int));
    assert(s.subrange(14, 16) =~= two_digits(t.minute as int));
    assert(s.subrange(17, 19) =~= two_digits(t.second as int));
    assert(number4(s, 0) == number4(y, 0)) by {
        assert(s[0] == y[0] && s[1] == y[1] && s[2] == y[2] && s[3] == y[3]);
    }
    assert(forall|i: int|
        0 <= i < 19 && i != 4 && i != 7 && i != 10 && i != 13 && i != 16 ==> is_digit(
            #[trigger] s[i],
        )) by {
        assert forall|i: int|
            0 <= i < 19 && i != 4 && i != 7 && i != 10 && i != 13 && i != 16 implies is_digit(
                #[trigger] s[i],
            ) by {
            if i < 4 {
                assert(s[i] == y[i]);
            }
        }
    }
    assert(is_timestamp_text(s));
    assert(timestamp_fields(s) == (t.year, t.month, t.day, t.hour, t.minute, t.second));
}

/// The canonical text of a time of day reads back as that time.
pub proof fn lemma_clock_text_round_trip(t: TimeOfDay)
    requires
        t.wf(),
    ensures
        TimeOfDay::parse_spec(t.text()) == Some(t),
{
    let s = t.text();
    lemma_two_digits_round_trip(t.hour as int);
    lemma_two_digits_round_trip(t.minute as int);
    assert(s[0] == two_digits(t.hour as int)[0]);
    assert(s[1] == two_digits(t.hour as int)[1]);
    assert(s[3] == two_digits(t.minute as int)[0]);
    assert(s[4] == two_digits(t.minute as int)[1]);
    assert(is_clock_text(s));
}

/// Relies on chrono's `NaiveTime::parse_from_str` with `%H:%M`: `HH:MM` of a
/// real time reads back as its hour and minute.
#[verifier::external_body]
fn chrono_parse_clock(s: &str) -> (r: Option<(u32, u32)>)
    ensures
        is_clock_text(s@) ==> r == Some((number2(s@, 0) as u32, number2(s@, 3) as u32)),
        !is_clock_text(s@) ==> r == hm_parsed(s@),
{
    match chrono::NaiveTime::parse_from_str(s, "%H:%M") {
        Ok(t) => Some((t.hour(), t.minute())),
        Err(_) => None,
    }
}

/// Relies on chrono's `NaiveDateTime::parse_from_str` with
/// `%Y-%m-%dT%H:%M:%S`: that text, zero-padded, of a real date and time reads
/// back as its fields.
#[verifier::external_body]
fn chrono_parse_timestamp(s: &str) -> (r: Option<(i32, u32, u32, u32, u32, u32)>)
    ensures
        is_timestamp_text(s@) ==> r == Some(timestamp_fields(s@)),
        !is_timestamp_text(s@) ==> r == datetime_parsed(s@),
{
    match chrono::NaiveDateTime::parse_from_str(s, "%Y-%m-%dT%H:%M:%S") {
        Ok(d) => Some((d.year(), d.month(), d.day(), d.hour(), d.minute(), d.second())),
        Err(_) => None,
    }
}

/// Relies on chrono's `NaiveDate::from_ymd_opt`, `NaiveDate::and_hms_opt` and
/// `NaiveDateTime::format` with `%Y-%m-%dT%H:%M:%S`: a valid date and time
/// come back as that text, a year of 0 to 9999 as four digits and the other
/// fields as two, zero-padded.
#[verifier::external_body]
fn chrono_timestamp_text(t: &Timestamp) -> (r: String)
    requires
        t.wf(),
    ensures
        r@ == timestamp_text(*t),
{
    let date = chrono::NaiveDate::from_ymd_opt(t.year, t.month, t.day).unwrap();
    let time = date.and_hms_opt(t.hour, t.minute, t.second).unwrap();
    time.format("%Y-%m-%dT%H:%M:%S").to_string()
}

} // verus!
