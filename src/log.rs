//! The daily log: one record per line, `HH:MM<TAB>HH:MM<TAB>task`.
use crate::clock::{TimeOfDay, Timestamp, timestamp_text};
use crate::error::{FormatFault, TiemError};
use vstd::prelude::*;
use vstd::string::*;

verus! {

/// The pieces of `s` between occurrences of `sep`; there is always at least one.
pub open spec fn split_on(s: Seq<char>, sep: char) -> Seq<Seq<char>>
    decreases s.len(),
{
    if s.len() == 0 {
        seq![Seq::<char>::empty()]
    } else {
        let init = split_on(s.drop_last(), sep);
        if s.last() == sep {
            init.push(Seq::<char>::empty())
        } else {
            init.update(init.len() - 1, init.last().push(s.last()))
        }
    }
}

pub proof fn lemma_split_nonempty(s: Seq<char>, sep: char)
    ensures
        split_on(s, sep).len() >= 1,
    decreases s.len(),
{
    if s.len() > 0 {
        lemma_split_nonempty(s.drop_last(), sep);
    }
}

/// Text without a separator extends the last piece.
pub proof fn lemma_split_extend(p: Seq<char>, q: Seq<char>, sep: char)
    requires
        !q.contains(sep),
    ensures
        split_on(p + q, sep) == split_on(p, sep).update(
            split_on(p, sep).len() - 1,
            split_on(p, sep).last() + q,
        ),
    decreases q.len(),
{
    lemma_split_nonempty(p, sep);
    let sp = split_on(p, sep);
    if q.len() == 0 {
        assert(p + q =~= p);
        assert(sp.last() + q =~= sp.last());
        assert(sp.update(sp.len() - 1, sp.last() + q) =~= sp);
    } else {
        let q2 = q.drop_last();
        assert(!q2.contains(sep)) by {
            if q2.contains(sep) {
                let j = choose|j: int| 0 <= j < q2.len() && q2[j] == sep;
                assert(q[j] == sep);
            }
        }
        lemma_split_extend(p, q2, sep);
        assert((p + q).drop_last() =~= p + q2);
        assert(q[q.len() - 1] != sep);
        assert((sp.last() + q2).push(q.last()) =~= sp.last() + q);
        assert(split_on(p + q, sep) =~= sp.update(sp.len() - 1, sp.last() + q));
    }
}

/// A separator closes the last piece and opens an empty one.
pub proof fn lemma_split_sep(p: Seq<char>, sep: char)
    ensures
        split_on(p.push(sep), sep) == split_on(p, sep).push(Seq::<char>::empty()),
{
    assert(p.push(sep).drop_last() =~= p);
}

/// Text without a separator is a single piece.
pub proof fn lemma_split_plain(a: Seq<char>, sep: char)
    requires
        !a.contains(sep),
    ensures
        split_on(a, sep) == seq![a],
{
    let e = Seq::<char>::empty();
    lemma_split_extend(e, a, sep);
    assert(e + a =~= a);
    assert(e + a =~= a);
    assert(seq![e].update(0, e + a) =~= seq![a]);
}

/// The pieces of `s` between occurrences of `sep`.
pub fn split_fields(s: &str, sep: char) -> (r: Vec<String>)
    ensures
        r@.len() == split_on(s@, sep).len(),
        forall|k: int| 0 <= k < r@.len() ==> (#[trigger] r@[k])@ == split_on(s@, sep)[k],
{
    let n = s.unicode_len();
    let mut fields: Vec<String> = Vec::new();
    let mut start: usize = 0;
    let mut i: usize = 0;
    proof {
        assert(s@.subrange(0, 0) =~= Seq::<char>::empty());
    }
    while i < n
        invariant
            n == s@.len(),
            start <= i <= n,
            split_on(s@.subrange(0, i as int), sep).len() == fields@.len() + 1,
            forall|k: int|
                0 <= k < fields@.len() ==> (#[trigger] fields@[k])@ == split_on(
                    s@.subrange(0, i as int),
                    sep,
                )[k],
            split_on(s@.subrange(0, i as int), sep).last() == s@.subrange(start as int, i as int),
        decreases n - i,
    {
        let ghost prev = s@.subrange(0, i as int);
        let c = s.get_char(i);
        proof {
            assert(s@.subrange(0, i + 1).drop_last() =~= prev);
            assert(s@.subrange(0, i + 1).last() == c);
        }
        if c == sep {
            let piece = s.substring_char(start, i);
            fields.push(String::from_str(piece));
            start = i + 1;
        } else {
            proof {
                assert(s@.subrange(start as int, i + 1) =~= s@.subrange(start as int, i as int).push(
                    c,
                ));
            }
        }
        i = i + 1;
        proof {
            assert(s@.subrange(start as int, i as int).len() == i - start);
        }
    }
    let piece = s.substring_char(start, n);
    fields.push(String::from_str(piece));
    proof {
        assert(s@.subrange(0, n as int) =~= s@);
    }
    fields
}

/// One finished interval of work.
#[derive(Debug, Clone, PartialEq, Eq)]
pub struct LogRecord {
    pub task: String,
    pub started: TimeOfDay,
    pub ended: TimeOfDay,
}

pub struct LogRecordView {
    pub task: Seq<char>,
    pub started: TimeOfDay,
    pub ended: TimeOfDay,
}

impl View for LogRecord {
    type V = LogRecordView;

    open spec fn view(&self) -> LogRecordView {
        LogRecordView { task: self.task@, started: self.started, ended: self.ended }
    }
}

/// The line of a record, without its line break.
pub open spec fn line_text(r: LogRecordView) -> Seq<char> {
    r.started.text() + seq!['\t'] + r.ended.text() + seq!['\t'] + r.task
}

/// The record that a line names, or why it names none.
pub open spec fn parse_line(s: Seq<char>) -> Result<LogRecordView, FormatFault> {
    let f = split_on(s, '\t');
    if f.len() != 3 {
        Err(FormatFault::FieldCount)
    } else {
        match TimeOfDay::parse_spec(f[0]) {
            None => Err(FormatFault::StartedTime),
            Some(a) => match TimeOfDay::parse_spec(f[1]) {
                None => Err(FormatFault::EndedTime),
                Some(b) => Ok(LogRecordView { task: f[2], started: a, ended: b }),
            },
        }
    }
}

/// The lines of a log text: each ends at a line break, and a last one may lack it.
pub open spec fn log_lines(text: Seq<char>) -> Seq<Seq<char>> {
    let p = split_on(text, '\n');
    if p.last().len() == 0 {
        p.drop_last()
    } else {
        p
    }
}

impl LogRecord {
    pub open spec fn wf(&self) -> bool {
        self.started.wf() && self.ended.wf()
    }

    pub fn new(task: &str, started: TimeOfDay, ended: TimeOfDay) -> (r: LogRecord)
        ensures
            r@ == (LogRecordView { task: task@, started, ended }),
    {
        LogRecord { task: String::from_str(task), started, ended }
    }

    /// Reads one line.
    pub fn from_str(s: &str) -> (r: Result<LogRecord, FormatFault>)
        ensures
            match r {
                Ok(rec) => parse_line(s@) == Ok::<LogRecordView, FormatFault>(rec@) && rec.wf(),
                Err(e) => parse_line(s@) == Err::<LogRecordView, FormatFault>(e),
            },
    {
        let fields = split_fields(s, '\t');
        if fields.len() != 3 {
            return Err(FormatFault::FieldCount);
        }
        let started = match TimeOfDay::parse(fields[0].as_str()) {
            Some(t) => t,
            None => return Err(FormatFault::StartedTime),
        };
        let ended = match TimeOfDay::parse(fields[1].as_str()) {
            Some(t) => t,
            None => return Err(FormatFault::EndedTime),
        };
        Ok(LogRecord::new(fields[2].as_str(), started, ended))
    }

    /// Writes the line, without its line break.
    pub fn to_line(&self) -> (r: String)
        requires
            self.wf(),
        ensures
            r@ == line_text(self@),
    {
        let mut out = self.started.to_text();
        proof {
            reveal_strlit("\t");
        }
        out.append("\t");
        out.append(self.ended.to_text().as_str());
        out.append("\t");
        out.append(self.task.as_str());
        assert(out@ =~= line_text(self@));
        out
    }

    /// Writes the line with its line break, as it is appended to a log file.
    pub fn to_entry(&self) -> (r: String)
        requires
            self.wf(),
        ensures
            r@ == line_text(self@).push('\n'),
    {
        let mut out = self.to_line();
        proof {
            reveal_strlit("\n");
        }
        out.append("\n");
        assert(out@ =~= line_text(self@).push('\n'));
        out
    }
}

/// A line written for a record whose task holds no tab reads back as that record.
pub proof fn lemma_line_round_trip(r: LogRecordView)
    requires
        r.started.wf(),
        r.ended.wf(),
        !r.task.contains('\t'),
    ensures
        parse_line(line_text(r)) == Ok::<LogRecordView, FormatFault>(r),
{
    let a = r.started.text();
    let b = r.ended.text();
    assert(!a.contains('\t')) by {
        if a.contains('\t') {
            let j = choose|j: int| 0 <= j < a.len() && a[j] == '\t';
            assert(a[j] != '\t');
        }
    }
    assert(!b.contains('\t')) by {
        if b.contains('\t') {
            let j = choose|j: int| 0 <= j < b.len() && b[j] == '\t';
            assert(b[j] != '\t');
        }
    }
    lemma_split_plain(a, '\t');
    lemma_split_sep(a, '\t');
    let a1 = a.push('\t');
    lemma_split_extend(a1, b, '\t');
    assert(seq![a].push(Seq::<char>::empty()).update(1, Seq::<char>::empty() + b) =~= seq![a, b]);
    let ab = a1 + b;
    lemma_split_sep(ab, '\t');
    let ab1 = ab.push('\t');
    lemma_split_extend(ab1, r.task, '\t');
    assert(seq![a, b].push(Seq::<char>::empty()).update(2, Seq::<char>::empty() + r.task) =~= seq![
        a,
        b,
        r.task,
    ]);
    assert(line_text(r) =~= ab1 + r.task);
    crate::clock::lemma_clock_text_round_trip(r.started);
    crate::clock::lemma_clock_text_round_trip(r.ended);
}

/// The entry written for a record whose task holds no tab and no line break
/// is one line of a log text, and that line reads back as the record.
pub proof fn lemma_entry_round_trip(r: LogRecordView)
    requires
        r.started.wf(),
        r.ended.wf(),
        !r.task.contains('\t'),
        !r.task.contains('\n'),
    ensures
        log_lines(line_text(r).push('\n')) == seq![line_text(r)],
        parse_line(log_lines(line_text(r).push('\n'))[0]) == Ok::<LogRecordView, FormatFault>(r),
{
    let l = line_text(r);
    assert(!l.contains('\n')) by {
        if l.contains('\n') {
            let j = choose|j: int| 0 <= j < l.len() && l[j] == '\n';
            if j >= l.len() - r.task.len() {
                assert(r.task[j - (l.len() - r.task.len())] == '\n');
            }
        }
    }
    lemma_split_plain(l, '\n');
    lemma_split_sep(l, '\n');
    assert(seq![l].push(Seq::<char>::empty()).drop_last() =~= seq![l]);
    lemma_line_round_trip(r);
}

/// The records of one day, in the order they were appended.
#[derive(Debug, Clone, PartialEq, Eq)]
pub struct LogFile(pub Vec<LogRecord>);

impl LogFile {
    /// Reads every line of a log text; fails at the first line that is no record.
    pub fn parse(text: &str) -> (r: Result<LogFile, TiemError>)
        ensures
            match r {
                Ok(f) => {
                    &&& f.0@.len() == log_lines(text@).len()
                    &&& forall|k: int|
                        0 <= k < f.0@.len() ==> parse_line(#[trigger] log_lines(text@)[k])
                            == Ok::<LogRecordView, FormatFault>(f.0@[k]@) && f.0@[k].wf()
                },
                Err(TiemError::Format { line, fault }) => {
                    &&& 1 <= line <= log_lines(text@).len()
                    &&& parse_line(log_lines(text@)[line - 1]) == Err::<LogRecordView, FormatFault>(
                        fault,
                    )
                    &&& forall|k: int|
                        0 <= k < line - 1 ==> (#[trigger] parse_line(log_lines(text@)[k])) is Ok
                },
                Err(_) => false,
            },
    {
        let pieces = split_fields(text, '\n');
        proof {
            lemma_split_nonempty(text@, '\n');
        }
        let count = if pieces[pieces.len() - 1].unicode_len() == 0 {
            pieces.len() - 1
        } else {
            pieces.len()
        };
        let ghost lines = log_lines(text@);
        assert(count == lines.len());
        let mut records: Vec<LogRecord> = Vec::new();
        let mut k: usize = 0;
        while k < count
            invariant
                count == lines.len(),
                count <= pieces@.len(),
                pieces@.len() == split_on(text@, '\n').len(),
                forall|j: int| 0 <= j < pieces@.len() ==> (#[trigger] pieces@[j])@ == split_on(text@, '\n')[j],
                lines == log_lines(text@),
                k <= count,
                records@.len() == k,
                forall|j: int|
                    0 <= j < k ==> parse_line(#[trigger] lines[j]) == Ok::<LogRecordView, FormatFault>(
                        records@[j]@,
                    ) && records@[j].wf(),
            decreases count - k,
        {
            assert(pieces@[k as int]@ == lines[k as int]);
            match LogRecord::from_str(pieces[k].as_str()) {
                Ok(rec) => {
                    records.push(rec);
                },
                Err(fault) => {
                    assert forall|j: int| 0 <= j < k implies (#[trigger] parse_line(lines[j])) is Ok by {
                        assert(parse_line(lines[j]) == Ok::<LogRecordView, FormatFault>(records@[j]@));
                    }
                    return Err(TiemError::Format { line: k + 1, fault });
                },
            }
            k = k + 1;
        }
        Ok(LogFile(records))
    }

    /// The name of the log file of the day of `day`: `YYYY-MM-DD.log`.
    pub fn file_name(day: &Timestamp) -> (r: String)
        requires
            day.wf(),
        ensures
            r@ == timestamp_text(*day).subrange(0, 10) + seq!['.', 'l', 'o', 'g'],
    {
        let mut out = day.date_text();
        proof {
            reveal_strlit(".log");
        }
        out.append(".log");
        assert(out@ =~= timestamp_text(*day).subrange(0, 10) + seq!['.', 'l', 'o', 'g']);
        out
    }
}

} // verus!
