//! Errors that end a run.

use vstd::prelude::*;

verus! {

/// Why a program could not be loaded or could not go on.
#[derive(Clone, Copy, Debug, PartialEq, Eq, Structural)]
pub enum ErrorKind {
    /// The source holds a character that is not one of the eight commands.
    InvalidCharacter,
    /// A loop bracket has no partner.
    UnmatchedBracket,
    /// The head would leave the tape.
    HeadOutOfBounds,
    /// An input instruction found the input stream empty.
    InputExhausted,
}

/// An error together with the position of the instruction it arose at.
///
/// Positions count instructions from zero, which is the same as counting
/// the characters of the trimmed source.
#[derive(Clone, Copy, Debug, PartialEq, Eq, Structural)]
pub struct Error {
    pub kind: ErrorKind,
    pub position: usize,
}

} // verus!
