//! Piece identity: a kind and a side, with no behaviour of its own.

use vstd::prelude::*;
use crate::color::Color;

verus! {

/// The six kinds of chess piece.
#[derive(Copy, Clone, Debug, PartialEq, Eq, Structural)]
pub enum PieceType {
    Pawn,
    King,
    Queen,
    Bishop,
    Knight,
    Rook,
}

impl PieceType {
    /// The upper-case letter that stands for this kind of piece.
    pub open spec fn letter(self) -> char {
        match self {
            PieceType::Pawn => 'P',
            PieceType::King => 'K',
            PieceType::Queen => 'Q',
            PieceType::Bishop => 'B',
            PieceType::Knight => 'N',
            PieceType::Rook => 'R',
        }
    }
}

/// A piece of a given kind belonging to a given side.
#[derive(Copy, Clone, Debug, PartialEq, Eq, Structural)]
pub struct Piece {
    pub piece_type: PieceType,
    pub color: Color,
}

impl Piece {
    /// Returns the kind of the piece.
    pub fn get_type(&self) -> (piece_type: PieceType)
        ensures
            piece_type == self.piece_type,
    {
        self.piece_type
    }

    /// Returns the side the piece belongs to.
    pub fn get_color(&self) -> (color: Color)
        ensures
            color == self.color,
    {
        self.color
    }
}

} // verus!
