//! What can go wrong.
use vstd::prelude::*;

verus! {

/// Why one line of a log file is not a record.
#[derive(Debug, Clone, Copy, PartialEq, Eq, Structural)]
pub enum FormatFault {
    /// The line does not split into exactly three tab-separated fields.
    FieldCount,
    /// The first field is no `HH:MM` time.
    StartedTime,
    /// The second field is no `HH:MM` time.
    EndedTime,
}

/// Why the status document names no status.
#[derive(Debug, Clone, Copy, PartialEq, Eq, Structural)]
pub enum ParseFault {
    /// The text is no status document.
    Document,
    /// The start time is no `YYYY-MM-DDTHH:MM:SS` timestamp.
    Timestamp,
}

#[derive(Debug, Clone)]
pub enum TiemError {
    /// A file or directory could not be read or written.
    Io(String),
    /// The home directory could not be found.
    Config(String),
    /// The status document could not be read.
    Parse(ParseFault),
    /// A line of a log file, counted from 1, is no record.
    Format { line: usize, fault: FormatFault },
}

} // verus!
