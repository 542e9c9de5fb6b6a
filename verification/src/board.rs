//! The board and its coordinates: files and ranks, checked steps by a
//! direction, squares, and the 8x8 grid itself.

use vstd::prelude::*;
use std::ops::{Index, IndexMut};
use crate::color::Color;
use crate::piece::{Piece, PieceType};

verus! {

/// Why a step left the board.
#[derive(Clone, Copy, Debug, PartialEq, Eq, Structural)]
pub enum BoardError {
    FileOutOfBounds,
    RankOutOfBounds,
}

/// Whether `i` is the index of one of the eight lines of an axis.
pub open spec fn on_axis(i: int) -> bool {
    0 <= i <= 7
}

/// One of the eight columns of the board, `A` to `H`.
#[derive(Clone, Copy, Debug, PartialEq, Eq, Structural)]
pub enum File {
    A,
    B,
    C,
    D,
    E,
    F,
    G,
    H,
}

impl File {
    /// The position of the file on its axis: 0 for `A`, 7 for `H`.
    pub open spec fn index(self) -> int {
        match self {
            File::A => 0,
            File::B => 1,
            File::C => 2,
            File::D => 3,
            File::E => 4,
            File::F => 5,
            File::G => 6,
            File::H => 7,
        }
    }

    /// The file at position `i`, for `i` from 0 to 7.
    pub open spec fn from_index(i: int) -> File {
        if i == 0 {
            File::A
        } else if i == 1 {
            File::B
        } else if i == 2 {
            File::C
        } else if i == 3 {
            File::D
        } else if i == 4 {
            File::E
        } else if i == 5 {
            File::F
        } else if i == 6 {
            File::G
        } else {
            File::H
        }
    }

    /// What shifting the file by `delta` gives: the file `delta` places
    /// further, or the error if that place is off the board.
    pub open spec fn moved(self, delta: int) -> Result<File, BoardError> {
        if on_axis(self.index() + delta) {
            Ok(File::from_index(self.index() + delta))
        } else {
            Err(BoardError::FileOutOfBounds)
        }
    }

    /// Returns the position of the file on its axis.
    pub fn to_index(self) -> (i: i8)
        ensures
            i == self.index(),
    {
        match self {
            File::A => 0,
            File::B => 1,
            File::C => 2,
            File::D => 3,
            File::E => 4,
            File::F => 5,
            File::G => 6,
            File::H => 7,
        }
    }

    /// Shifts the file by `delta` places. Every `delta` is accepted; one
    /// that leads off the board gives `FileOutOfBounds`.
    pub fn try_moving(self, delta: i8) -> (r: Result<File, BoardError>)
        ensures
            r == self.moved(delta as int),
            r is Ok <==> on_axis(self.index() + delta),
            r is Err ==> r == Err::<File, BoardError>(BoardError::FileOutOfBounds),
            r is Ok ==> r->Ok_0.index() == self.index() + delta,
    {
        let target: i16 = self.to_index() as i16 + delta as i16;
        if target < 0 || target > 7 {
            Err(BoardError::FileOutOfBounds)
        } else {
            File::try_from(target as i8)
        }
    }
}

impl TryFrom<i8> for File {
    type Error = BoardError;

    /// Accepts 0 to 7 and refuses every other value with `FileOutOfBounds`.
    fn try_from(value: i8) -> (r: Result<File, BoardError>)
        ensures
            on_axis(value as int) ==> r == Ok::<File, BoardError>(File::from_index(value as int)),
            !on_axis(value as int) ==> r == Err::<File, BoardError>(BoardError::FileOutOfBounds),
    {
        match value {
            0 => Ok(File::A),
            1 => Ok(File::B),
            2 => Ok(File::C),
            3 => Ok(File::D),
            4 => Ok(File::E),
            5 => Ok(File::F),
            6 => Ok(File::G),
            7 => Ok(File::H),
            _ => Err(BoardError::FileOutOfBounds),
        }
    }
}

impl vstd::std_specs::convert::TryFromSpecImpl<i8> for File {
    open spec fn obeys_try_from_spec() -> bool {
        true
    }

    open spec fn try_from_spec(value: i8) -> Result<File, BoardError> {
        if on_axis(value as int) {
            Ok(File::from_index(value as int))
        } else {
            Err(BoardError::FileOutOfBounds)
        }
    }
}

/// One of the eight rows of the board, `First` to `Eighth`.
#[derive(Clone, Copy, Debug, PartialEq, Eq, Structural)]
pub enum Rank {
    First,
    Second,
    Third,
    Fourth,
    Fifth,
    Sixth,
    Seventh,
    Eighth,
}

impl Rank {
    /// The position of the rank on its axis: 0 for `First`, 7 for `Eighth`.
    pub open spec fn index(self) -> int {
        match self {
            Rank::First => 0,
            Rank::Second => 1,
            Rank::Third => 2,
            Rank::Fourth => 3,
            Rank::Fifth => 4,
            Rank::Sixth => 5,
            Rank::Seventh => 6,
            Rank::Eighth => 7,
        }
    }

    /// The rank at position `i`, for `i` from 0 to 7.
    pub open spec fn from_index(i: int) -> Rank {
        if i == 0 {
            Rank::First
        } else if i == 1 {
            Rank::Second
        } else if i == 2 {
            Rank::Third
        } else if i == 3 {
            Rank::Fourth
        } else if i == 4 {
            Rank::Fifth
        } else if i == 5 {
            Rank::Sixth
        } else if i == 6 {
            Rank::Seventh
        } else {
            Rank::Eighth
        }
    }

    /// What shifting the rank by `delta` gives: the rank `delta` places
    /// further, or the error if that place is off the board.
    pub open spec fn moved(self, delta: int) -> Result<Rank, BoardError> {
        if on_axis(self.index() + delta) {
            Ok(Rank::from_index(self.index() + delta))
        } else {
            Err(BoardError::RankOutOfBounds)
        }
    }

    /// Returns the position of the rank on its axis.
    pub fn to_index(self) -> (i: i8)
        ensures
            i == self.index(),
    {
        match self {
            Rank::First => 0,
            Rank::Second => 1,
            Rank::Third => 2,
            Rank::Fourth => 3,
            Rank::Fifth => 4,
            Rank::Sixth => 5,
            Rank::Seventh => 6,
            Rank::Eighth => 7,
        }
    }

    /// Shifts the rank by `delta` places. Every `delta` is accepted; one
    /// that leads off the board gives `RankOutOfBounds`.
    pub fn try_moving(self, delta: i8) -> (r: Result<Rank, BoardError>)
        ensures
            r == self.moved(delta as int),
            r is Ok <==> on_axis(self.index() + delta),
            r is Err ==> r == Err::<Rank, BoardError>(BoardError::RankOutOfBounds),
            r is Ok ==> r->Ok_0.index() == self.index() + delta,
    {
        let target: i16 = self.to_index() as i16 + delta as i16;
        if target < 0 || target > 7 {
            Err(BoardError::RankOutOfBounds)
        } else {
            Rank::try_from(target as i8)
        }
    }
}

impl TryFrom<i8> for Rank {
    type Error = BoardError;

    /// Accepts 0 to 7 and refuses every other value with `RankOutOfBounds`.
    fn try_from(value: i8) -> (r: Result<Rank, BoardError>)
        ensures
            on_axis(value as int) ==> r == Ok::<Rank, BoardError>(Rank::from_index(value as int)),
            !on_axis(value as int) ==> r == Err::<Rank, BoardError>(BoardError::RankOutOfBounds),
    {
        match value {
            0 => Ok(Rank::First),
            1 => Ok(Rank::Second),
            2 => Ok(Rank::Third),
            3 => Ok(Rank::Fourth),
            4 => Ok(Rank::Fifth),
            5 => Ok(Rank::Sixth),
            6 => Ok(Rank::Seventh),
            7 => Ok(Rank::Eighth),
            _ => Err(BoardError::RankOutOfBounds),
        }
    }
}

impl vstd::std_specs::convert::TryFromSpecImpl<i8> for Rank {
    open spec fn obeys_try_from_spec() -> bool {
        true
    }

    open spec fn try_from_spec(value: i8) -> Result<Rank, BoardError> {
        if on_axis(value as int) {
            Ok(Rank::from_index(value as int))
        } else {
            Err(BoardError::RankOutOfBounds)
        }
    }
}

/// A signed step across the board: so many files and so many ranks.
#[derive(Clone, Copy, Debug, PartialEq, Eq, Structural)]
pub struct Direction {
    pub delta_file: i8,
    pub delta_rank: i8,
}

impl Direction {
    /// The direction with the two given deltas.
    pub open spec fn of(delta_file: int, delta_rank: int) -> Direction {
        Direction { delta_file: delta_file as i8, delta_rank: delta_rank as i8 }
    }

    pub fn new(delta_file: i8, delta_rank: i8) -> (d: Direction)
        ensures
            d == (Direction { delta_file, delta_rank }),
    {
        Direction { delta_file, delta_rank }
    }

    /// One rank towards the eighth.
    pub fn up() -> (d: Direction)
        ensures
            d == Direction::of(0, 1),
    {
        Direction { delta_file: 0, delta_rank: 1 }
    }

    /// One rank towards the first.
    pub fn down() -> (d: Direction)
        ensures
            d == Direction::of(0, -1),
    {
        Direction { delta_file: 0, delta_rank: -1 }
    }

    /// One file towards `A`.
    pub fn left() -> (d: Direction)
        ensures
            d == Direction::of(-1, 0),
    {
        Direction { delta_file: -1, delta_rank: 0 }
    }

    /// One file towards `H`.
    pub fn right() -> (d: Direction)
        ensures
            d == Direction::of(1, 0),
    {
        Direction { delta_file: 1, delta_rank: 0 }
    }

    pub fn upper_left() -> (d: Direction)
        ensures
            d == Direction::of(-1, 1),
    {
        Direction { delta_file: -1, delta_rank: 1 }
    }

    pub fn upper_right() -> (d: Direction)
        ensures
            d == Direction::of(1, 1),
    {
        Direction { delta_file: 1, delta_rank: 1 }
    }

    pub fn lower_left() -> (d: Direction)
        ensures
            d == Direction::of(-1, -1),
    {
        Direction { delta_file: -1, delta_rank: -1 }
    }

    pub fn lower_right() -> (d: Direction)
        ensures
            d == Direction::of(1, -1),
    {
        Direction { delta_file: 1, delta_rank: -1 }
    }
}

/// A square's address: a file and a rank. Every value of the type names one
/// of the 64 squares.
#[derive(Clone, Copy, Debug, PartialEq, Eq, Structural)]
pub struct Coordinate {
    pub file: File,
    pub rank: Rank,
}

impl Coordinate {
    /// The coordinate with the given axis positions, each from 0 to 7.
    pub open spec fn at(file: int, rank: int) -> Coordinate {
        Coordinate { file: File::from_index(file), rank: Rank::from_index(rank) }
    }

    /// Whether stepping from this coordinate by `direction` stays on the
    /// board.
    pub open spec fn can_move(self, direction: Direction) -> bool {
        &&& on_axis(self.file.index() + direction.delta_file)
        &&& on_axis(self.rank.index() + direction.delta_rank)
    }

    /// What moving the coordinate by `direction` gives. The file is
    /// examined first, so a step that leaves the board on both axes reports
    /// the file.
    pub open spec fn moved(self, direction: Direction) -> Result<Coordinate, BoardError> {
        if !on_axis(self.file.index() + direction.delta_file) {
            Err(BoardError::FileOutOfBounds)
        } else if !on_axis(self.rank.index() + direction.delta_rank) {
            Err(BoardError::RankOutOfBounds)
        } else {
            Ok(
                Coordinate::at(
                    self.file.index() + direction.delta_file,
                    self.rank.index() + direction.delta_rank,
                ),
            )
        }
    }

    pub fn new(file: File, rank: Rank) -> (c: Coordinate)
        ensures
            c == (Coordinate { file, rank }),
    {
        Coordinate { file, rank }
    }

    pub fn get_file(&self) -> (file: File)
        ensures
            file == self.file,
    {
        self.file
    }

    pub fn get_rank(&self) -> (rank: Rank)
        ensures
            rank == self.rank,
    {
        self.rank
    }

    /// Moves the coordinate by `direction`. The result is a coordinate
    /// only if both axes stay on the board; otherwise it is the error of the
    /// first axis that does not, the file before the rank.
    pub fn try_moving(self, direction: Direction) -> (r: Result<Coordinate, BoardError>)
        ensures
            r == self.moved(direction),
            r is Ok <==> self.can_move(direction),
            r is Ok ==> r->Ok_0.file.index() == self.file.index() + direction.delta_file
                && r->Ok_0.rank.index() == self.rank.index() + direction.delta_rank,
    {
        let file = match self.file.try_moving(direction.delta_file) {
            Ok(file) => file,
            Err(e) => {
                return Err(e);
            },
        };
        let rank = match self.rank.try_moving(direction.delta_rank) {
            Ok(rank) => rank,
            Err(e) => {
                return Err(e);
            },
        };
        Ok(Coordinate { file, rank })
    }
}

/// A file or a rank is its index and nothing more: going to the index and
/// back gives the same line, and every index from 0 to 7 is that of a line.
pub proof fn lemma_index_round_trip(file: File, rank: Rank, i: int)
    ensures
        on_axis(file.index()),
        on_axis(rank.index()),
        File::from_index(file.index()) == file,
        Rank::from_index(rank.index()) == rank,
        on_axis(i) ==> File::from_index(i).index() == i && Rank::from_index(i).index() == i,
{
}

/// A step that leaves the board on either axis yields no coordinate at
/// all: there is a result exactly when both axes stay in bounds, a step whose
/// file stays on the board and whose rank does not is refused with
/// `RankOutOfBounds`, and every other refusal is `FileOutOfBounds`.
pub proof fn lemma_moving_is_atomic(c: Coordinate, direction: Direction)
    ensures
        c.moved(direction) is Ok <==> on_axis(c.file.index() + direction.delta_file) && on_axis(
            c.rank.index() + direction.delta_rank,
        ),
        on_axis(c.file.index() + direction.delta_file) && !on_axis(
            c.rank.index() + direction.delta_rank,
        ) ==> c.moved(direction) == Err::<Coordinate, BoardError>(BoardError::RankOutOfBounds),
        !on_axis(c.file.index() + direction.delta_file) ==> c.moved(direction) == Err::<
            Coordinate,
            BoardError,
        >(BoardError::FileOutOfBounds),
        c.moved(direction) is Ok ==> c.file.moved(direction.delta_file as int) == Ok::<
            File,
            BoardError,
        >(c.moved(direction)->Ok_0.file) && c.rank.moved(direction.delta_rank as int) == Ok::<
            Rank,
            BoardError,
        >(c.moved(direction)->Ok_0.rank),
{
}

/// One cell of the board.
#[derive(Clone, Copy, Debug, PartialEq, Eq, Structural)]
pub struct Square {
    /// The piece standing on the square, if any.
    pub piece: Option<Piece>,
    /// Whether a pawn may capture en passant onto this square this ply.
    pub is_en_passant_square: bool,
    pub is_attacked_by_white: bool,
    pub is_attacked_by_black: bool,
}

impl Square {
    /// The square with no piece and no flag set.
    pub open spec fn empty() -> Square {
        Square {
            piece: None,
            is_en_passant_square: false,
            is_attacked_by_white: false,
            is_attacked_by_black: false,
        }
    }

    /// Whether a piece of the given side stands on the square.
    pub open spec fn holds_color(self, color: Color) -> bool {
        self.piece is Some && self.piece->Some_0.color == color
    }

    /// Whether the square is marked as attacked by the given side.
    pub open spec fn attacked_by(self, color: Color) -> bool {
        match color {
            Color::White => self.is_attacked_by_white,
            Color::Black => self.is_attacked_by_black,
        }
    }

    /// The character that shows the square in a board diagram: the piece's
    /// letter, upper case for White and lower case for Black; on a square
    /// without a piece, `*` if it is the en-passant square and a blank
    /// otherwise.
    pub open spec fn symbol(self) -> char {
        match self.piece {
            None => if self.is_en_passant_square {
                '*'
            } else {
                ' '
            },
            Some(piece) => match piece.color {
                Color::White => piece.piece_type.letter(),
                Color::Black => match piece.piece_type {
                    PieceType::Pawn => 'p',
                    PieceType::King => 'k',
                    PieceType::Queen => 'q',
                    PieceType::Bishop => 'b',
                    PieceType::Knight => 'n',
                    PieceType::Rook => 'r',
                },
            },
        }
    }

    pub fn new_empty() -> (sq: Square)
        ensures
            sq == Square::empty(),
    {
        Square {
            piece: None,
            is_en_passant_square: false,
            is_attacked_by_white: false,
            is_attacked_by_black: false,
        }
    }

    pub fn get_piece(&self) -> (piece: Option<Piece>)
        ensures
            piece == self.piece,
    {
        self.piece
    }

    /// Whether a piece of the given side stands on the square; false on a
    /// square without a piece.
    pub fn has_piece_of_color(&self, color: Color) -> (b: bool)
        ensures
            b == self.holds_color(color),
    {
        if let Some(piece) = self.piece {
            piece.color == color
        } else {
            false
        }
    }

    /// Puts `piece` on the square, replacing any piece that stood there. The
    /// flags stay as they were.
    pub fn set_piece(&mut self, piece: Piece)
        ensures
            *final(self) == (Square { piece: Some(piece), ..*old(self) }),
    {
        self.piece = Some(piece);
    }

    /// Takes the piece off the square. The flags stay as they were.
    pub fn clear_piece(&mut self)
        ensures
            *final(self) == (Square { piece: None, ..*old(self) }),
    {
        self.piece = None;
    }

    /// Marks the square as the en-passant square. Nothing else changes.
    pub fn set_en_passant(&mut self)
        ensures
            *final(self) == (Square { is_en_passant_square: true, ..*old(self) }),
    {
        self.is_en_passant_square = true;
    }

    pub fn is_empty(&self) -> (b: bool)
        ensures
            b == (self.piece is None),
    {
        self.piece.is_none()
    }

    /// Reads the flag that says whether the given side attacks the square.
    pub fn is_attacked_by(&self, color: Color) -> (b: bool)
        ensures
            b == self.attacked_by(color),
    {
        match color {
            Color::White => self.is_attacked_by_white,
            Color::Black => self.is_attacked_by_black,
        }
    }

    /// Returns the text that shows the square in a board diagram: one
    /// character, `self.symbol()`.
    pub fn to_string(&self) -> (text: String)
        ensures
            text@ == seq![self.symbol()],
    {
        String::from_str(self.as_str())
    }

    /// Returns the one-character text that shows the square in a board
    /// diagram.
    pub fn as_str(&self) -> (text: &'static str)
        ensures
            text@ == seq![self.symbol()],
    {
        proof {
            reveal_strlit("*");
            reveal_strlit(" ");
            reveal_strlit("P");
            reveal_strlit("K");
            reveal_strlit("Q");
            reveal_strlit("B");
            reveal_strlit("N");
            reveal_strlit("R");
            reveal_strlit("p");
            reveal_strlit("k");
            reveal_strlit("q");
            reveal_strlit("b");
            reveal_strlit("n");
            reveal_strlit("r");
        }
        let text = match self.piece {
            None => if self.is_en_passant_square {
                "*"
            } else {
                " "
            },
            Some(piece) => match piece.color {
                Color::White => match piece.piece_type {
                    PieceType::Pawn => "P",
                    PieceType::King => "K",
                    PieceType::Queen => "Q",
                    PieceType::Bishop => "B",
                    PieceType::Knight => "N",
                    PieceType::Rook => "R",
                },
                Color::Black => match piece.piece_type {
                    PieceType::Pawn => "p",
                    PieceType::King => "k",
                    PieceType::Queen => "q",
                    PieceType::Bishop => "b",
                    PieceType::Knight => "n",
                    PieceType::Rook => "r",
                },
            },
        };
        assert(text@ =~= seq![self.symbol()]);
        text
    }
}

/// The 8x8 grid of squares, addressed by coordinate.
#[derive(Clone, Copy, Debug, PartialEq, Eq)]
pub struct Board {
    squares: [[Square; 8]; 8],
}

impl Board {
    /// The square at coordinate `c`. In contracts, `board[c]`.
    pub closed spec fn spec_index(&self, c: Coordinate) -> Square {
        self.squares[c.file.index()][c.rank.index()]
    }

    /// Returns the board on which every square is empty and carries no flag.
    pub fn new_empty() -> (board: Board)
        ensures
            forall|c: Coordinate| #[trigger] board[c] == Square::empty(),
    {
        Board { squares: [[Square::new_empty(); 8]; 8] }
    }

    /// Two boards that agree on every square are the same board.
    pub proof fn lemma_same_squares(a: Board, b: Board)
        requires
            forall|c: Coordinate| #[trigger] a[c] == b[c],
        ensures
            a == b,
    {
        assert forall|f: int| 0 <= f < 8 implies a.squares[f] == b.squares[f] by {
            assert forall|r: int| 0 <= r < 8 implies a.squares[f][r] == b.squares[f][r] by {
                let c = Coordinate::at(f, r);
                assert(a[c] == b[c]);
            }
            assert(a.squares[f] =~= b.squares[f]);
        }
        assert(a.squares =~= b.squares);
    }
}

impl vstd::std_specs::core::IndexSpecImpl<Coordinate> for Board {
    /// Every coordinate names a square of the board.
    open spec fn index_req(&self, index: &Coordinate) -> bool {
        true
    }
}

impl Index<Coordinate> for Board {
    type Output = Square;

    /// Reads the square at `index`.
    fn index(&self, index: Coordinate) -> (sq: &Square)
        ensures
            *sq == self[index],
    {
        &self.squares[index.file.to_index() as usize][index.rank.to_index() as usize]
    }
}

impl IndexMut<Coordinate> for Board {
    /// Lends the square at `index` for writing. Whatever is written to it is
    /// what the board holds there afterwards; no other square changes.
    fn index_mut(&mut self, index: Coordinate) -> (sq: &mut Square)
        ensures
            *sq == old(self)[index],
            final(self)[index] == *final(sq),
            forall|c: Coordinate| c != index ==> #[trigger] final(self)[c] == old(self)[c],
    {
        &mut self.squares[index.file.to_index() as usize][index.rank.to_index() as usize]
    }
}

} // verus!
