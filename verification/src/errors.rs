//! The errors the quiz core can report.

use vstd::prelude::*;

verus! {

/// What went wrong while preparing or running a quiz round.
#[derive(Clone, Copy, Debug, PartialEq, Eq, Structural)]
pub enum QuizError {
    /// A requested category names no record in the store.
    InvalidCategory,
    /// A dash-separated range token is not two numeric parts.
    InvalidRange,
    /// The category filter matched no record.
    EmptySelection,
    /// A random pick was asked of an empty sequence.
    EmptyInput,
}

} // verus!
