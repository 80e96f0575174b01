//! Failure categories of the engine.
//!
//! Parse and I/O failures occur before any job starts and abort a whole run;
//! remote-call failures are local and are captured per leaf invocation inside
//! the result tree, never aborting sibling work. Each variant carries the
//! message of the underlying cause as plain text.

use vstd::prelude::*;

verus! {

/// One engine-level error. The variants follow the sources a run can fail
/// from: reading the batch document, decoding structured text, or a remote
/// call refused by the collaboration platform.
#[derive(Debug, PartialEq, Eq)]
pub enum Error {
    IO(String),
    SerdeJson(String),
    SerdeYaml(String),
    Octocrab(String),
}

/// Mathematical abstraction of an [`Error`].
pub ghost enum ErrorView {
    IO(Seq<char>),
    SerdeJson(Seq<char>),
    SerdeYaml(Seq<char>),
    Octocrab(Seq<char>),
}

impl View for Error {
    type V = ErrorView;

    open spec fn view(&self) -> ErrorView {
        match self {
            Error::IO(m) => ErrorView::IO(m@),
            Error::SerdeJson(m) => ErrorView::SerdeJson(m@),
            Error::SerdeYaml(m) => ErrorView::SerdeYaml(m@),
            Error::Octocrab(m) => ErrorView::Octocrab(m@),
        }
    }
}

impl Error {
    /// The carried message, for callers that report failures.
    pub fn message(&self) -> (m: &String)
        ensures
            match self@ {
                ErrorView::IO(s) => m@ == s,
                ErrorView::SerdeJson(s) => m@ == s,
                ErrorView::SerdeYaml(s) => m@ == s,
                ErrorView::Octocrab(s) => m@ == s,
            },
    {
        match self {
            Error::IO(m) => m,
            Error::SerdeJson(m) => m,
            Error::SerdeYaml(m) => m,
            Error::Octocrab(m) => m,
        }
    }
}

} // verus!
