//! The named, terminal failures of the two record managers. Every failure is
//! detected before any mutation; none is retried.

use vstd::prelude::*;

verus! {

/// Failures of the journal record manager. `DefaultError` is the generic
/// failure, raised when the storage collaborator refuses a duplicate key.
#[derive(Clone, Copy, Debug, PartialEq, Eq, Structural)]
pub enum JournalError {
    DefaultError,
    InvalidMonth,
    InvalidDay,
    Unauthorized,
}

/// Failures of the blog record manager. `DefaultError` is the generic
/// failure, raised for a missing parent record or a duplicate key.
#[derive(Clone, Copy, Debug, PartialEq, Eq, Structural)]
pub enum DeBlogError {
    DefaultError,
    TitleTooLong,
    DescriptionTooLong,
    BodyTooLong,
    InvalidAuthor,
}

} // verus!
