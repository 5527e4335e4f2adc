use vstd::prelude::*;

verus! {

/// The ways in which an operation of this library can fail.
#[derive(Clone, Copy, Debug, PartialEq, Eq, PartialOrd, Ord, Hash, Structural)]
#[non_exhaustive]
pub enum Error {
    /// The variables could not be re-synchronised with an evaluator.
    VariablesCouldNotBeUpdated,
    /// The requested variable could not be found.
    VariableNotFound,
    /// A variable with this name was already added.
    VariableAlreadyAdded,
    /// The output could not be produced or written.
    FileWriteFailed,
    /// The input could not be read, or does not hold a valid tree.
    FileReadFailed,
    /// The queried tree is not a constant.
    TreeIsNotConstant,
}

/// Result of an operation of this library.
pub type Result<T> = core::result::Result<T, Error>;

} // verus!
