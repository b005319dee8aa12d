//! Failures that the engine reports to its caller.

use vstd::prelude::*;
use crate::pieces::Color;

verus! {

/// Everything that can go wrong while talking to the engine.
///
/// None of these is retried or recovered from inside the library: each is
/// handed to the caller where it arises.
#[derive(Debug, Copy, Clone, PartialEq, Eq, Structural)]
pub enum ChessError {
    /// A player token that is neither `WHITE` nor `BLACK`.
    InvalidColor,
    /// A move token that is neither a castle name nor four well-formed
    /// coordinate characters.
    InvalidMoveFormat,
    /// A move whose origin square holds no piece.
    IllegalMove,
    /// A position in which both kings are in check at once.
    ImpossiblePosition,
    /// Two opposing kings found on neighbouring squares.
    InternalInvariant,
}

impl ChessError {
    /// The message that accompanies the failure.
    pub fn message(&self) -> (text: &'static str)
        ensures
            text@ == self.message_text(),
    {
        match self {
            ChessError::InvalidColor => "Invalid Color. Must be 'WHITE' or 'BLACK'",
            ChessError::InvalidMoveFormat => "Invalid move format",
            ChessError::IllegalMove => "Bad move - piece is empty !",
            ChessError::ImpossiblePosition => "Both Kings are in check: this position is impossible",
            ChessError::InternalInvariant => "KINGS NEXT TO EACH OTHER ERROR",
        }
    }

    /// The message that accompanies the failure.
    pub open spec fn message_text(self) -> Seq<char> {
        match self {
            ChessError::InvalidColor => "Invalid Color. Must be 'WHITE' or 'BLACK'"@,
            ChessError::InvalidMoveFormat => "Invalid move format"@,
            ChessError::IllegalMove => "Bad move - piece is empty !"@,
            ChessError::ImpossiblePosition => "Both Kings are in check: this position is impossible"@,
            ChessError::InternalInvariant => "KINGS NEXT TO EACH OTHER ERROR"@,
        }
    }
}

} // verus!
