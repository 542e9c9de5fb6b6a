//! The shapes a candidate move can take.

use vstd::prelude::*;
use crate::board::Coordinate;
use crate::piece::PieceType;

verus! {

/// A candidate move, described by its shape. It says nothing on whether the
/// move would leave the mover's king in check.
#[derive(Clone, Copy, Debug, PartialEq, Eq, Structural)]
pub enum ChessMove {
    /// A piece goes from one square to another, capturing what stands there.
    Standard { from: Coordinate, to: Coordinate },
    /// A pawn captures en passant. The destination is the en-passant square
    /// diagonally forward of `from`.
    EnPassantCapture { from: Coordinate },
    /// A pawn reaches the last rank and becomes a piece of kind
    /// `promotion_to`.
    PawnPromotion { from: Coordinate, to: Coordinate, promotion_to: PieceType },
    CastleKingside,
    CastleQueenside,
}

} // verus!
