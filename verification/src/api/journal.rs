//! Requests for the journal of the system.

use vstd::prelude::*;
use crate::text::join2;

verus! {

/// Program that reads the journal.
pub const READER: &'static str = "mini-journalreader";

/// Type of the answer.
pub const CONTENT_TYPE: &'static str = "application/json";

/// What came of waiting for the program.
pub enum ReaderEnd {
    /// It succeeded.
    Succeeded,
    /// It ended with another status.
    Exited(String),
    /// It could not be waited for; holds why.
    Unknown(String),
}

/// The error to log about the end of the program, if there is one.
pub fn reader_end_line(end: &ReaderEnd) -> (r: Option<String>)
    ensures
        match r {
            Some(line) => match *end {
                ReaderEnd::Succeeded => false,
                ReaderEnd::Exited(status) => line@ == "mini-journalreader exited with "@ + status@,
                ReaderEnd::Unknown(err) => line@ == "waiting for mini-journalreader failed: "@
                    + err@,
            },
            None => end is Succeeded,
        },
{
    match end {
        ReaderEnd::Succeeded => None,
        ReaderEnd::Exited(status) => Some(
            join2("mini-journalreader exited with ", status.as_str()),
        ),
        ReaderEnd::Unknown(err) => Some(
            join2("waiting for mini-journalreader failed: ", err.as_str()),
        ),
    }
}

} // verus!
