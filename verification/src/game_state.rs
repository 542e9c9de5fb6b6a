//! The state of a game: a position with its move counters, and the decoder
//! that reads it from six-field position notation.

use vstd::prelude::*;
use std::ops::IndexMut;
use crate::board::{Board, BoardError, Coordinate, File, Rank, Square};
use crate::castling_rights::{CastlingRights, CastlingRightsForColor};
use crate::color::Color;
use crate::notation::{
    active_color_named, castling_granted, castling_is_well_formed, castling_letter_ok,
    en_passant_target, fen_fault, fen_square, file_of_letter, lemma_squares_covered_grows,
    piece_of_letter, piece_placed, placement_advance, placement_is_well_formed, rank_of_digit,
    square_number, squares_covered, with_placed,
};
use crate::piece::{Piece, PieceType};
use crate::position::Position;
use crate::start_position::{
    initial_piece, lemma_start_notation_describes_the_initial_state,
    lemma_start_notation_is_accepted, start_notation,
};
use crate::text::{chars_of, decimal_text, decimal_u8, field, next_field, parse_u8, u8_to_string};

verus! {

/// Why a notation string was refused.
#[derive(Clone, Copy, Debug, PartialEq, Eq, Structural)]
pub enum FenError {
    /// The string holds no field at all.
    EmptyString,
    /// The string ends before its sixth field.
    Incomplete,
    /// A field is present and breaks its grammar.
    Malformed,
}

impl From<BoardError> for FenError {
    /// A coordinate off the board, met while decoding, is a malformed
    /// notation; which axis it was is not kept.
    fn from(e: BoardError) -> (error: FenError)
        ensures
            error == FenError::Malformed,
    {
        FenError::Malformed
    }
}

impl vstd::std_specs::convert::FromSpecImpl<BoardError> for FenError {
    open spec fn obeys_from_spec() -> bool {
        true
    }

    open spec fn from_spec(e: BoardError) -> FenError {
        FenError::Malformed
    }
}

/// The state of a game: the position, the number of the current move,
/// counted from 1, and the number of plies since the last capture or pawn
/// advance.
#[derive(Clone, Copy, Debug, PartialEq, Eq)]
pub struct GameState {
    pub position: Position,
    pub current_move_number: u8,
    pub num_plies_since_last_capture_or_pawn_advance: u8,
}

impl GameState {
    /// Whether this is the state in which a game begins: the 32 pieces on
    /// their starting squares, no flag on any square, White to move, every
    /// castling right granted, no ply played yet and the first move current.
    pub open spec fn is_initial(&self) -> bool {
        &&& forall|c: Coordinate| #[trigger]
            self.position.board[c] == (Square { piece: initial_piece(c), ..Square::empty() })
        &&& self.position.active_color == Color::White
        &&& self.position.castling_rights == (CastlingRights {
            white_castling_rights: CastlingRightsForColor { kingside: true, queenside: true },
            black_castling_rights: CastlingRightsForColor { kingside: true, queenside: true },
        })
        &&& self.num_plies_since_last_capture_or_pawn_advance == 0
        &&& self.current_move_number == 1
    }

    /// Whether this state is the one that the accepted notation `s`
    /// describes.
    pub open spec fn is_decoded_from(&self, s: Seq<char>) -> bool {
        &&& forall|c: Coordinate| #[trigger] self.position.board[c] == fen_square(s, c)
        &&& Some(self.position.active_color) == active_color_named(field(s, 1)->0)
        &&& self.position.castling_rights == castling_granted(field(s, 2)->0)
        &&& Some(self.num_plies_since_last_capture_or_pawn_advance) == decimal_u8(field(s, 4)->0)
        &&& Some(self.current_move_number) == decimal_u8(field(s, 5)->0)
    }

    /// The state as text: the position, then one line each for the number
    /// of the current move and for the plies since the last capture or pawn
    /// advance.
    pub open spec fn text(&self) -> Seq<char> {
        self.position.text() + "Current move number: "@ + decimal_text(
            self.current_move_number as nat,
        ) + "\n"@ + "Plies since last capture/pawn move: "@ + decimal_text(
            self.num_plies_since_last_capture_or_pawn_advance as nat,
        ) + "\n"@
    }

    /// Returns the state as text: the position, then the two counters, each
    /// on a line of its own.
    pub fn to_string(&self) -> (text: String)
        ensures
            text@ == self.text(),
    {
        let mut text = self.position.to_string();
        text.append("Current move number: ");
        text.append(u8_to_string(self.current_move_number).as_str());
        text.append("\n");
        text.append("Plies since last capture/pawn move: ");
        text.append(u8_to_string(self.num_plies_since_last_capture_or_pawn_advance).as_str());
        text.append("\n");
        assert(text@ =~= self.text());
        text
    }

    /// Returns the state in which a game begins. It is the state that the
    /// notation of the start position describes.
    pub fn new() -> (state: GameState)
        ensures
            state.is_initial(),
            state.is_decoded_from(start_notation()),
    {
        let decoded = GameState::try_from_fen(
            "rnbqkbnr/pppppppp/8/8/8/8/PPPPPPPP/RNBQKBNR w KQkq - 0 1",
        );
        proof {
            lemma_start_notation_is_accepted();
        }
        let state = decoded.unwrap();
        proof {
            lemma_start_notation_describes_the_initial_state(state);
        }
        state
    }

    /// Decodes a position from notation of six fields separated by white
    /// space: piece placement, active color, castling rights, en-passant
    /// square, half-move clock and full-move number. The result is the state
    /// that the notation describes, or the first fault of the notation; a
    /// refused notation yields no state at all.
    pub fn try_from_fen(fen: &str) -> (r: Result<GameState, FenError>)
        ensures
            r is Ok <==> fen_fault(fen@) is None,
            r is Err ==> fen_fault(fen@) == Some(r->Err_0),
            r is Ok ==> r->Ok_0.is_decoded_from(fen@),
    {
        let chars = chars_of(fen);
        let ghost s = fen@;
        let mut board = Board::new_empty();

        let (start, end) = next_field(&chars, 0);
        if start >= chars.len() {
            return Err(FenError::EmptyString);
        }
        let piece_placement = fen.substring_char(start, end);
        assert(Some(piece_placement@) == field(s, 0));
        match GameState::place_pieces(piece_placement, &mut board) {
            Ok(()) => {},
            Err(e) => {
                return Err(e);
            },
        }

        let (start, end) = next_field(&chars, end);
        if start >= chars.len() {
            return Err(FenError::Incomplete);
        }
        let active_color_string = fen.substring_char(start, end);
        assert(Some(active_color_string@) == field(s, 1));
        let active_color = match GameState::parse_active_color(active_color_string) {
            Some(color) => color,
            None => {
                return Err(FenError::Malformed);
            },
        };

        let (start, end) = next_field(&chars, end);
        if start >= chars.len() {
            return Err(FenError::Incomplete);
        }
        let castling_rights_string = fen.substring_char(start, end);
        assert(Some(castling_rights_string@) == field(s, 2));
        let castling_rights = match GameState::parse_castling_rights(castling_rights_string) {
            Ok(rights) => rights,
            Err(e) => {
                return Err(e);
            },
        };

        let (start, end) = next_field(&chars, end);
        if start >= chars.len() {
            return Err(FenError::Incomplete);
        }
        let en_passant_string = fen.substring_char(start, end);
        assert(Some(en_passant_string@) == field(s, 3));
        match GameState::parse_en_passant_info(en_passant_string, &mut board) {
            Ok(()) => {},
            Err(e) => {
                return Err(e);
            },
        }

        let (start, end) = next_field(&chars, end);
        if start >= chars.len() {
            return Err(FenError::Incomplete);
        }
        let half_move_string = fen.substring_char(start, end);
        assert(Some(half_move_string@) == field(s, 4));
        let num_plies_since_last_capture_or_pawn_advance = match parse_u8(half_move_string) {
            Some(n) => n,
            None => {
                return Err(FenError::Malformed);
            },
        };

        let (start, end) = next_field(&chars, end);
        if start >= chars.len() {
            return Err(FenError::Incomplete);
        }
        let full_move_string = fen.substring_char(start, end);
        assert(Some(full_move_string@) == field(s, 5));
        let current_move_number = match parse_u8(full_move_string) {
            Some(n) => n,
            None => {
                return Err(FenError::Malformed);
            },
        };

        Ok(
            GameState {
                position: Position::new(board, active_color, castling_rights),
                current_move_number,
                num_plies_since_last_capture_or_pawn_advance,
            },
        )
    }

    /// Reads the active-color field: `w` or `b`.
    pub fn parse_active_color(active_color_string: &str) -> (color: Option<Color>)
        ensures
            color == active_color_named(active_color_string@),
    {
        let chars = chars_of(active_color_string);
        if chars.len() != 1 {
            None
        } else if chars[0] == 'w' {
            Some(Color::White)
        } else if chars[0] == 'b' {
            Some(Color::Black)
        } else {
            None
        }
    }

    /// Reads the castling field. The field is accepted exactly when it is
    /// well formed, and the result holds the rights that it grants.
    pub fn parse_castling_rights(castling_rights_string: &str) -> (r: Result<
        CastlingRights,
        FenError,
    >)
        ensures
            r is Ok <==> castling_is_well_formed(castling_rights_string@),
            r is Err ==> r == Err::<CastlingRights, FenError>(FenError::Malformed),
            r is Ok ==> r->Ok_0 == castling_granted(castling_rights_string@),
    {
        let chars = chars_of(castling_rights_string);
        let ghost s = castling_rights_string@;
        let mut castling_rights = CastlingRights::new_assuming_all_false();
        let mut i: usize = 0;
        assert(castling_rights == castling_granted(s.take(0)));
        while i < chars.len()
            invariant
                0 <= i <= chars.len(),
                chars@ == s,
                s == castling_rights_string@,
                forall|j: int| 0 <= j < i ==> castling_letter_ok(#[trigger] s[j]),
                castling_rights == castling_granted(s.take(i as int)),
            decreases chars.len() - i,
        {
            let c = chars[i];
            let ghost before = s.take(i as int);
            let ghost after = s.take(i + 1);
            proof {
                assert forall|x: char| after.contains(x) <==> (before.contains(x) || x == c) by {
                    if before.contains(x) {
                        let j = choose|j: int| 0 <= j < before.len() && before[j] == x;
                        assert(after[j] == x);
                    }
                    if x == c {
                        assert(after[i as int] == x);
                    }
                    if after.contains(x) {
                        let j = choose|j: int| 0 <= j < after.len() && after[j] == x;
                        if j < i {
                            assert(before[j] == x);
                        }
                    }
                }
            }
            if c == 'K' {
                castling_rights.index_mut(Color::White).kingside = true;
            } else if c == 'Q' {
                castling_rights.index_mut(Color::White).queenside = true;
            } else if c == 'k' {
                castling_rights.index_mut(Color::Black).kingside = true;
            } else if c == 'q' {
                castling_rights.index_mut(Color::Black).queenside = true;
            } else if c == '-' {
            } else {
                assert(!castling_letter_ok(s[i as int]));
                return Err(FenError::Malformed);
            }
            i = i + 1;
        }
        assert(s.take(i as int) =~= s);
        Ok(castling_rights)
    }

    /// Reads the en-passant field and marks the square that it names on
    /// `board`. The field is accepted exactly when it is `-` or names a
    /// square. If it names one, that square becomes the en-passant square
    /// and nothing else changes; `-` and a refused field leave the board as
    /// it was.
    pub fn parse_en_passant_info(en_passant_string: &str, board: &mut Board) -> (r: Result<
        (),
        FenError,
    >)
        ensures
            r is Ok <==> en_passant_target(en_passant_string@) is Ok,
            r is Err ==> r == Err::<(), FenError>(FenError::Malformed),
            match en_passant_target(en_passant_string@) {
                Ok(Some(target)) => {
                    &&& final(board)[target] == (Square {
                        is_en_passant_square: true,
                        ..old(board)[target]
                    })
                    &&& forall|c: Coordinate|
                        c != target ==> #[trigger] final(board)[c] == old(board)[c]
                },
                _ => *final(board) == *old(board),
            },
    {
        let chars = chars_of(en_passant_string);
        if chars.len() == 1 && chars[0] == '-' {
            return Ok(());
        }
        if chars.len() != 2 {
            return Err(FenError::Malformed);
        }
        let file = match GameState::file_for_letter(chars[0]) {
            Some(file) => file,
            None => {
                return Err(FenError::Malformed);
            },
        };
        let rank = match GameState::rank_for_digit(chars[1]) {
            Some(rank) => rank,
            None => {
                return Err(FenError::Malformed);
            },
        };
        board.index_mut(Coordinate::new(file, rank)).set_en_passant();
        Ok(())
    }

    /// Returns the file that the letter `c` names, in either case.
    fn file_for_letter(c: char) -> (file: Option<File>)
        ensures
            file == file_of_letter(c),
    {
        if c == 'a' || c == 'A' {
            Some(File::A)
        } else if c == 'b' || c == 'B' {
            Some(File::B)
        } else if c == 'c' || c == 'C' {
            Some(File::C)
        } else if c == 'd' || c == 'D' {
            Some(File::D)
        } else if c == 'e' || c == 'E' {
            Some(File::E)
        } else if c == 'f' || c == 'F' {
            Some(File::F)
        } else if c == 'g' || c == 'G' {
            Some(File::G)
        } else if c == 'h' || c == 'H' {
            Some(File::H)
        } else {
            None
        }
    }

    /// Returns the rank that the digit `c` names.
    fn rank_for_digit(c: char) -> (rank: Option<Rank>)
        ensures
            rank == rank_of_digit(c),
    {
        if c == '1' {
            Some(Rank::First)
        } else if c == '2' {
            Some(Rank::Second)
        } else if c == '3' {
            Some(Rank::Third)
        } else if c == '4' {
            Some(Rank::Fourth)
        } else if c == '5' {
            Some(Rank::Fifth)
        } else if c == '6' {
            Some(Rank::Sixth)
        } else if c == '7' {
            Some(Rank::Seventh)
        } else if c == '8' {
            Some(Rank::Eighth)
        } else {
            None
        }
    }

    /// Reads a piece-placement field onto `board`. The field is accepted
    /// exactly when it is well formed. Then every square that the field
    /// names a piece for holds that piece, and nothing else has changed: the
    /// other squares keep their pieces, and all squares keep their flags. A
    /// refused field leaves the board as it was.
    pub fn place_pieces(piece_placement: &str, board: &mut Board) -> (r: Result<(), FenError>)
        ensures
            r is Ok <==> placement_is_well_formed(piece_placement@),
            r is Err ==> r == Err::<(), FenError>(FenError::Malformed) && *final(board) == *old(
                board,
            ),
            r is Ok ==> forall|c: Coordinate| #[trigger]
                final(board)[c] == with_placed(
                    old(board)[c],
                    piece_placed(piece_placement@, square_number(c)),
                ),
    {
        let chars = chars_of(piece_placement);
        let ghost s = piece_placement@;
        let mut work: Board = *board;
        let mut cursor: u8 = 0;
        let mut i: usize = 0;
        while i < chars.len()
            invariant
                0 <= i <= chars.len(),
                chars@ == s,
                s == piece_placement@,
                forall|j: int| 0 <= j < i ==> (#[trigger] placement_advance(s[j])) is Some,
                cursor == squares_covered(s.take(i as int)),
                cursor <= 64,
                forall|c: Coordinate| #[trigger]
                    work[c] == with_placed(
                        board[c],
                        piece_placed(s.take(i as int), square_number(c)),
                    ),
            decreases chars.len() - i,
        {
            let c = chars[i];
            let ghost before = s.take(i as int);
            let ghost after = s.take(i + 1);
            assert(after.drop_last() =~= before);
            assert(after.last() == c);
            if '0' <= c && c <= '9' {
                let by: u8 = (c as u32 - '0' as u32) as u8;
                cursor = cursor + by;
                if cursor > 64 {
                    proof {
                        lemma_squares_covered_grows(s, i + 1);
                    }
                    return Err(FenError::Malformed);
                }
            } else if Self::is_piece_letter(c) {
                if cursor >= 64 {
                    proof {
                        lemma_squares_covered_grows(s, i + 1);
                    }
                    return Err(FenError::Malformed);
                }
                let piece = Self::piece_for_letter(c);
                let file = match File::try_from((cursor % 8) as i8) {
                    Ok(file) => file,
                    Err(e) => {
                        return Err(FenError::from(e));
                    },
                };
                let rank = match Rank::try_from((7 - cursor / 8) as i8) {
                    Ok(rank) => rank,
                    Err(e) => {
                        return Err(FenError::from(e));
                    },
                };
                let target = Coordinate::new(file, rank);
                assert(square_number(target) == cursor);
                let ghost previous = work;
                work.index_mut(target).set_piece(piece);
                assert forall|c: Coordinate| #[trigger]
                    work[c] == with_placed(board[c], piece_placed(after, square_number(c))) by {
                    if c != target {
                        assert(work[c] == previous[c]);
                        assert(square_number(c) != cursor);
                    }
                }
                cursor = cursor + 1;
            } else if c == '/' {
            } else {
                assert(placement_advance(s[i as int]) is None);
                return Err(FenError::Malformed);
            }
            i = i + 1;
        }
        assert(s.take(i as int) =~= s);
        if cursor != 64 {
            return Err(FenError::Malformed);
        }
        *board = work;
        Ok(())
    }

    /// Returns whether `c` is one of the twelve piece letters.
    fn is_piece_letter(c: char) -> (b: bool)
        ensures
            b == (piece_of_letter(c) is Some),
    {
        c == 'P' || c == 'K' || c == 'Q' || c == 'B' || c == 'N' || c == 'R' || c == 'p' || c == 'k'
            || c == 'q' || c == 'b' || c == 'n' || c == 'r'
    }

    /// Returns the piece that the piece letter `c` stands for.
    fn piece_for_letter(c: char) -> (piece: Piece)
        requires
            piece_of_letter(c) is Some,
        ensures
            Some(piece) == piece_of_letter(c),
    {
        let color = if c == 'P' || c == 'K' || c == 'Q' || c == 'B' || c == 'N' || c == 'R' {
            Color::White
        } else {
            Color::Black
        };
        let piece_type = if c == 'P' || c == 'p' {
            PieceType::Pawn
        } else if c == 'K' || c == 'k' {
            PieceType::King
        } else if c == 'Q' || c == 'q' {
            PieceType::Queen
        } else if c == 'B' || c == 'b' {
            PieceType::Bishop
        } else if c == 'N' || c == 'n' {
            PieceType::Knight
        } else {
            PieceType::Rook
        };
        Piece { piece_type, color }
    }
}

} // verus!
