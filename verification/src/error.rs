//! The errors that the library reports.

use vstd::prelude::*;

verus! {

/// Why an argument was refused.
#[derive(Clone, Copy, Debug, PartialEq, Eq, Structural)]
pub enum ArgumentIssue {
    /// A task was to be added with an empty title.
    EmptyTitle,
    /// `add` was given no text.
    MissingDescription,
    /// `complete` or `delete` was given no id.
    MissingId,
    /// The id is not a decimal number that fits the id type.
    IdNotANumber,
}

/// An operation that failed; the list it was applied to is unchanged.
#[derive(Debug, PartialEq, Eq)]
pub enum TodoError {
    /// No task of the list has this id.
    NotFound(usize),
    /// An argument is missing or malformed.
    InvalidArgument(ArgumentIssue),
    /// Stored data does not describe a well-formed list; the text says why.
    DeserializationError(String),
    /// The file system refused an operation; the text says which.
    IOError(String),
}

} // verus!
