//! Castling rights: for each side, whether it may still castle on the king's
//! side and on the queen's side.

use vstd::prelude::*;
use std::ops::{Index, IndexMut};
use crate::color::Color;

verus! {

/// The castling rights of one side.
#[derive(Clone, Copy, Debug, PartialEq, Eq, Structural)]
pub struct CastlingRightsForColor {
    pub kingside: bool,
    pub queenside: bool,
}

impl CastlingRightsForColor {
    /// The rights in words: `kingside`, `queenside`, both separated by a
    /// comma and a blank, or `none`.
    pub open spec fn description(self) -> Seq<char> {
        if self.kingside && self.queenside {
            "kingside, queenside"@
        } else if self.kingside {
            "kingside"@
        } else if self.queenside {
            "queenside"@
        } else {
            "none"@
        }
    }

    /// Returns the rights in words.
    pub fn as_str(&self) -> (text: &'static str)
        ensures
            text@ == self.description(),
    {
        if self.kingside && self.queenside {
            "kingside, queenside"
        } else if self.kingside {
            "kingside"
        } else if self.queenside {
            "queenside"
        } else {
            "none"
        }
    }

    /// Returns the rights in words, as an owned string.
    pub fn to_string(&self) -> (text: String)
        ensures
            text@ == self.description(),
    {
        String::from_str(self.as_str())
    }
}

/// The castling rights of both sides.
#[derive(Clone, Copy, Debug, PartialEq, Eq, Structural)]
pub struct CastlingRights {
    pub white_castling_rights: CastlingRightsForColor,
    pub black_castling_rights: CastlingRightsForColor,
}

impl CastlingRights {
    /// The rights of the given side. In contracts, `rights[color]`.
    pub open spec fn spec_index(&self, color: Color) -> CastlingRightsForColor {
        match color {
            Color::White => self.white_castling_rights,
            Color::Black => self.black_castling_rights,
        }
    }

    /// The rights in which neither side may castle on either side.
    pub open spec fn none() -> CastlingRights {
        CastlingRights {
            white_castling_rights: CastlingRightsForColor { kingside: false, queenside: false },
            black_castling_rights: CastlingRightsForColor { kingside: false, queenside: false },
        }
    }

    /// Returns the rights in which neither side may castle on either side.
    pub fn new_assuming_all_false() -> (rights: CastlingRights)
        ensures
            rights == CastlingRights::none(),
    {
        CastlingRights {
            white_castling_rights: CastlingRightsForColor { kingside: false, queenside: false },
            black_castling_rights: CastlingRightsForColor { kingside: false, queenside: false },
        }
    }
}

impl vstd::std_specs::core::IndexSpecImpl<Color> for CastlingRights {
    /// Both sides have rights to read.
    open spec fn index_req(&self, index: &Color) -> bool {
        true
    }
}

impl Index<Color> for CastlingRights {
    type Output = CastlingRightsForColor;

    /// Reads the rights of the given side.
    fn index(&self, index: Color) -> (rights: &CastlingRightsForColor)
        ensures
            *rights == self[index],
    {
        match index {
            Color::White => &self.white_castling_rights,
            Color::Black => &self.black_castling_rights,
        }
    }
}

impl IndexMut<Color> for CastlingRights {
    /// Lends the rights of the given side for writing. The other side's
    /// rights do not change.
    fn index_mut(&mut self, index: Color) -> (rights: &mut CastlingRightsForColor)
        ensures
            *rights == old(self)[index],
            final(self)[index] == *final(rights),
            final(self)[index.opposite()] == old(self)[index.opposite()],
    {
        match index {
            Color::White => &mut self.white_castling_rights,
            Color::Black => &mut self.black_castling_rights,
        }
    }
}

} // verus!
