//! The status: what runs and since when, and the document that stores it.
use crate::clock::{StatusTime, Timestamp, timestamp_text, lemma_timestamp_text_round_trip};
use crate::error::{ParseFault, TiemError};
use vstd::prelude::*;
use vstd::string::*;

verus! {

/// The single current state of the timer.
#[derive(Debug, Clone, PartialEq, Eq)]
pub enum Status {
    Running { task: String, started: Timestamp },
    Stopped,
}

/// The status as its document holds it: `{"kind":"Running","content":{"task":..,
/// "started":..}}` or `{"kind":"Stopped","content":null}`, with the start time
/// as text.
#[derive(Debug, Clone, PartialEq, Eq)]
pub enum StatusDoc {
    Running { task: String, started: String },
    Stopped,
}

pub enum StatusView {
    Running { task: Seq<char>, started: Timestamp },
    Stopped,
}

pub enum StatusDocView {
    Running { task: Seq<char>, started: Seq<char> },
    Stopped,
}

impl View for Status {
    type V = StatusView;

    open spec fn view(&self) -> StatusView {
        match self {
            Status::Running { task, started } => StatusView::Running { task: task@, started: *started },
            Status::Stopped => StatusView::Stopped,
        }
    }
}

impl View for StatusDoc {
    type V = StatusDocView;

    open spec fn view(&self) -> StatusDocView {
        match self {
            StatusDoc::Running { task, started } => StatusDocView::Running {
                task: task@,
                started: started@,
            },
            StatusDoc::Stopped => StatusDocView::Stopped,
        }
    }
}

impl StatusView {
    pub open spec fn wf(self) -> bool {
        match self {
            StatusView::Running { started, .. } => started.wf(),
            StatusView::Stopped => true,
        }
    }
}

/// The document of a status.
pub open spec fn doc_of(s: StatusView) -> StatusDocView {
    match s {
        StatusView::Running { task, started } => StatusDocView::Running {
            task,
            started: timestamp_text(started),
        },
        StatusView::Stopped => StatusDocView::Stopped,
    }
}

/// The status that a document names, or why it names none.
pub open spec fn status_of_doc(d: StatusDocView) -> Result<StatusView, ParseFault> {
    match d {
        StatusDocView::Running { task, started } => match Timestamp::parse_spec(started) {
            Some(t) => Ok(StatusView::Running { task, started: t }),
            None => Err(ParseFault::Timestamp),
        },
        StatusDocView::Stopped => Ok(StatusView::Stopped),
    }
}

impl Status {
    pub open spec fn wf(&self) -> bool {
        self@.wf()
    }

    /// `task` running since `started`.
    pub fn running(task: &str, started: Timestamp) -> (r: Status)
        ensures
            r@ == (StatusView::Running { task: task@, started }),
    {
        Status::Running { task: String::from_str(task), started }
    }

    /// The document that stores this status.
    pub fn to_doc(&self) -> (r: StatusDoc)
        requires
            self.wf(),
        ensures
            r@ == doc_of(self@),
    {
        match self {
            Status::Running { task, started } => StatusDoc::Running {
                task: String::from_str(task.as_str()),
                started: StatusTime::serialize_as(started),
            },
            Status::Stopped => StatusDoc::Stopped,
        }
    }

    /// The status that a document names; a start time that is no timestamp
    /// is a parse error.
    pub fn from_doc(doc: &StatusDoc) -> (r: Result<Status, TiemError>)
        ensures
            match r {
                Ok(s) => status_of_doc(doc@) == Ok::<StatusView, ParseFault>(s@) && s.wf(),
                Err(TiemError::Parse(f)) => status_of_doc(doc@) == Err::<StatusView, ParseFault>(f),
                Err(_) => false,
            },
    {
        match doc {
            StatusDoc::Running { task, started } => match StatusTime::deserialize_as(
                started.as_str(),
            ) {
                Some(t) => Ok(Status::running(task.as_str(), t)),
                None => Err(TiemError::Parse(ParseFault::Timestamp)),
            },
            StatusDoc::Stopped => Ok(Status::Stopped),
        }
    }
}

/// Writing a status to its document and reading the document back gives the
/// same status: the same task and the same start time, to the second.
pub proof fn lemma_status_round_trip(s: StatusView)
    requires
        s.wf(),
    ensures
        status_of_doc(doc_of(s)) == Ok::<StatusView, ParseFault>(s),
{
    if let StatusView::Running { task, started } = s {
        lemma_timestamp_text_round_trip(started);
    }
}

} // verus!
