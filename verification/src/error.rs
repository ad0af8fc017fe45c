//! What can go wrong while a Makefile is looked for and read.

use vstd::prelude::*;

verus! {

/// Why no model of the Makefile could be made.
#[derive(Debug, PartialEq, Eq)]
pub enum MakefileError {
    /// No directory from the starting one up to the end of the search holds
    /// a Makefile.
    NotFound,
    /// An included file is there and could not be read.
    IncludeParseFailure {
        /// The path as the include directive gives it.
        path: String,
        /// What the reading reported.
        reason: String,
    },
}

/// The mathematical value of a [`MakefileError`].
pub enum Failure {
    NotFound,
    IncludeParseFailure { path: Seq<char>, reason: Seq<char> },
}

impl View for MakefileError {
    type V = Failure;

    open spec fn view(&self) -> Failure {
        match self {
            MakefileError::NotFound => Failure::NotFound,
            MakefileError::IncludeParseFailure { path, reason } => Failure::IncludeParseFailure {
                path: path@,
                reason: reason@,
            },
        }
    }
}

/// The text that reports `failure` to the user.
pub open spec fn message_of(failure: Failure) -> Seq<char> {
    match failure {
        Failure::NotFound => "No Makefile found in the project!"@,
        Failure::IncludeParseFailure { path, reason } => reason,
    }
}

impl MakefileError {
    /// The text that reports this error to the user.
    pub fn message(&self) -> (text: String)
        ensures
            text@ == message_of(self@),
    {
        match self {
            MakefileError::NotFound => "No Makefile found in the project!".to_owned(),
            MakefileError::IncludeParseFailure { path: _, reason } => reason.clone(),
        }
    }
}

} // verus!
