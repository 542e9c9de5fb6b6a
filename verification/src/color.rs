//! The two sides of a chess game.

use vstd::prelude::*;

verus! {

/// One of the two sides.
#[derive(Copy, Clone, Debug, PartialEq, Eq, Structural)]
pub enum Color {
    White,
    Black,
}

impl Color {
    /// The other side.
    pub open spec fn opposite(self) -> Color {
        match self {
            Color::White => Color::Black,
            Color::Black => Color::White,
        }
    }

    /// The lower-case English name of the side.
    pub open spec fn name(self) -> Seq<char> {
        match self {
            Color::White => "white"@,
            Color::Black => "black"@,
        }
    }

    /// Returns the other side.
    pub fn get_opposite(&self) -> (other: Color)
        ensures
            other == self.opposite(),
    {
        match self {
            Color::White => Color::Black,
            Color::Black => Color::White,
        }
    }

    /// Returns the lower-case English name of the side.
    pub fn as_str(&self) -> (text: &'static str)
        ensures
            text@ == self.name(),
    {
        match self {
            Color::White => "white",
            Color::Black => "black",
        }
    }

    /// Returns the name of the side as an owned string.
    pub fn to_string(&self) -> (text: String)
        ensures
            text@ == self.name(),
    {
        String::from_str(self.as_str())
    }
}

/// Applying `opposite` twice gives back the side one started from, and the
/// opposite side is never the side itself.
pub proof fn lemma_opposite_involution(c: Color)
    ensures
        c.opposite().opposite() == c,
        c.opposite() != c,
{
}

} // verus!
