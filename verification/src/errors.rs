//! The ways in which a search fails.

use vstd::prelude::*;

verus! {

/// Why a framework could not answer.
#[derive(PartialEq, Eq, Debug)]
pub enum FrameworkError {
    /// The source could not be turned into a syntax tree.
    ParsingError(String),
    /// No test matched the search.
    NotFoundError(String),
    /// Anything else.
    UnknownError(String),
    /// The search was asked of a framework that cannot run it.
    PreconditionError(String),
}

impl FrameworkError {
    /// The details that the error carries.
    pub open spec fn details(self) -> Seq<char> {
        match self {
            FrameworkError::ParsingError(d) => d@,
            FrameworkError::NotFoundError(d) => d@,
            FrameworkError::UnknownError(d) => d@,
            FrameworkError::PreconditionError(d) => d@,
        }
    }

    /// What the message says before the details.
    pub open spec fn heading(self) -> Seq<char> {
        match self {
            FrameworkError::ParsingError(_) => "parsing error. details = `"@,
            FrameworkError::NotFoundError(_) => "failed to find test methods. details = `"@,
            FrameworkError::UnknownError(_) => "unknown error occurred. details `"@,
            FrameworkError::PreconditionError(_) => "precondition error. details = `"@,
        }
    }

    /// The message: the heading of the kind, then the details between
    /// backquotes.
    pub fn message(&self) -> (text: String)
        ensures
            text@ == self.heading() + self.details() + "`"@,
    {
        let (heading, details) = match self {
            FrameworkError::ParsingError(d) => ("parsing error. details = `", d),
            FrameworkError::NotFoundError(d) => ("failed to find test methods. details = `", d),
            FrameworkError::UnknownError(d) => ("unknown error occurred. details `", d),
            FrameworkError::PreconditionError(d) => ("precondition error. details = `", d),
        };
        let mut text = heading.to_owned();
        text.append(details.as_str());
        text.append("`");
        text
    }
}

} // verus!
