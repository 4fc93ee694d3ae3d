use vstd::prelude::*;

verus! {

/// Why a piece of move text could not be read.
#[derive(Debug, PartialEq, Eq, Clone, Copy, Structural)]
pub enum ParseError {
    /// The text is neither a castling token nor 4 or 5 characters long.
    BadLength,
    /// A file character outside `a`..`h`.
    BadFile,
    /// A rank character outside `1`..`8`.
    BadRank,
    /// A promotion letter outside `r`, `n`, `b`, `q`.
    BadPromotionLetter,
    /// A piece letter outside `k`, `q`, `r`, `b`, `n`, `p`.
    BadPieceLetter,
}

/// The two castling moves.
#[derive(Debug, PartialEq, Eq, Clone, Copy, Structural)]
pub enum CastlingSide {
    Short,
    Long,
}

/// Why a proposed move was refused.
#[derive(Debug, PartialEq, Eq, Clone, Copy, Structural)]
pub enum MoveError {
    InvalidSquare,
    EmptySquareMoved,
    WrongColorToMove,
    IllegalKingMove,
    IllegalQueenMove,
    IllegalRookMove,
    IllegalBishopMove,
    IllegalKnightMove,
    IllegalPawnMove,
    MustPromote,
    IllegalCastling(CastlingSide),
    SelfCheckAfterMove,
}

} // verus!
