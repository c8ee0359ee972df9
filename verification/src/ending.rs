//! How a run ends: the exit status, and the complaint on standard error.
//!
//! A run succeeds where help was shown or the exchange went through. Every
//! error, in the arguments or in the session, ends the run with status 1 and
//! one line on standard error; nothing about an error goes to standard
//! output.

use vstd::prelude::*;
use vstd::string::StringExecFns;
use crate::session::{message_of, Failure};

verus! {

/// The way a run ends.
#[derive(Debug, Clone, Copy, PartialEq, Eq)]
pub enum Ending {
    /// Help was shown, or the response was printed.
    Success,
    /// The arguments were rejected with this message.
    Rejected(&'static str),
    /// The session met this failure.
    Failed(Failure),
}

/// The mathematical value of an [`Ending`].
pub enum EndingView {
    Success,
    Rejected(Seq<char>),
    Failed(Failure),
}

impl View for Ending {
    type V = EndingView;

    open spec fn view(&self) -> EndingView {
        match self {
            Ending::Success => EndingView::Success,
            Ending::Rejected(message) => EndingView::Rejected(message@),
            Ending::Failed(failure) => EndingView::Failed(*failure),
        }
    }
}

/// The exit status of a run: 0 for success, 1 for every error.
pub open spec fn status_of(ending: EndingView) -> int {
    match ending {
        EndingView::Success => 0,
        _ => 1,
    }
}

/// The line that a run writes to standard error, if any.
pub open spec fn complaint_of(ending: EndingView) -> Option<Seq<char>> {
    match ending {
        EndingView::Success => None,
        EndingView::Rejected(message) => Some("Bad argument listing: "@ + message),
        EndingView::Failed(failure) => Some("Something bad happaned: "@ + message_of(failure)),
    }
}

impl Ending {
    /// The exit status of the run.
    pub fn status(&self) -> (code: i32)
        ensures
            code == status_of(self@),
    {
        match self {
            Ending::Success => 0,
            _ => 1,
        }
    }

    /// The line to write to standard error, if any.
    pub fn complaint(&self) -> (line: Option<String>)
        ensures
            line.deep_view() == complaint_of(self@),
    {
        match self {
            Ending::Success => None,
            Ending::Rejected(message) => Some(
                String::from_str("Bad argument listing: ").concat(message),
            ),
            Ending::Failed(failure) => Some(
                String::from_str("Something bad happaned: ").concat(failure.message()),
            ),
        }
    }
}

/// A run ends with status 0 exactly where it succeeds, and complains exactly
/// where it does not.
pub proof fn lemma_errors_exit_with_one(ending: EndingView)
    ensures
        status_of(ending) == 0 || status_of(ending) == 1,
        status_of(ending) == 0 <==> ending is Success,
        complaint_of(ending) is None <==> ending is Success,
{
}

} // verus!
