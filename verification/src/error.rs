//! The error taxonomy of the tracker.

use vstd::prelude::*;

verus! {

/// Everything that can go wrong in the tracker.
///
/// `IoError` carries the text of an underlying storage failure (reading or
/// writing the backing file), `JsonError` the reason a persisted document
/// could not be decoded, `TaskNotFound` the identifier that no task carries,
/// and `InvalidInput` a caller-side validation message.
#[derive(Debug)]
pub enum TodoError {
    IoError(String),
    JsonError(String),
    TaskNotFound(usize),
    InvalidInput(String),
}

} // verus!
