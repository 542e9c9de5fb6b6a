//! The position in which a game begins, and its notation.

use vstd::prelude::*;
use crate::board::{Coordinate, File, Rank, Square};
use crate::castling_rights::{CastlingRights, CastlingRightsForColor};
use crate::color::Color;
use crate::game_state::{FenError, GameState};
use crate::notation::{
    active_color_named, castling_granted, castling_is_well_formed, en_passant_target, fen_fault,
    fen_square, lemma_no_letters_no_pieces, lemma_piece_placed_concat, lemma_row_of_letters,
    lemma_squares_covered_concat, piece_placed, placement_advance, placement_is_well_formed,
    square_number, squares_covered,
};
use crate::piece::{Piece, PieceType};
use crate::text::{decimal_u8, decimal_value, field, field_bounds, field_end, field_start};

verus! {

/// The notation of the position in which a game begins.
pub open spec fn start_notation() -> Seq<char> {
    "rnbqkbnr/pppppppp/8/8/8/8/PPPPPPPP/RNBQKBNR w KQkq - 0 1"@
}

/// The kind of piece that starts on the home rank in the given file: rooks
/// in the corners, then knights, then bishops, the queen on `D` and the king
/// on `E`.
pub open spec fn home_rank_piece(file: File) -> PieceType {
    match file {
        File::A => PieceType::Rook,
        File::B => PieceType::Knight,
        File::C => PieceType::Bishop,
        File::D => PieceType::Queen,
        File::E => PieceType::King,
        File::F => PieceType::Bishop,
        File::G => PieceType::Knight,
        File::H => PieceType::Rook,
    }
}

/// The piece that stands on the square at `c` when a game begins.
pub open spec fn initial_piece(c: Coordinate) -> Option<Piece> {
    match c.rank {
        Rank::First => Some(Piece { piece_type: home_rank_piece(c.file), color: Color::White }),
        Rank::Second => Some(Piece { piece_type: PieceType::Pawn, color: Color::White }),
        Rank::Seventh => Some(Piece { piece_type: PieceType::Pawn, color: Color::Black }),
        Rank::Eighth => Some(Piece { piece_type: home_rank_piece(c.file), color: Color::Black }),
        _ => None,
    }
}

/// The six fields of the notation of the start position.
proof fn lemma_start_fields()
    ensures
        field(start_notation(), 0) == Some(
            "rnbqkbnr"@ + "/"@ + "pppppppp"@ + "/8/8/8/8/"@ + "PPPPPPPP"@ + "/"@ + "RNBQKBNR"@,
        ),
        field(start_notation(), 1) == Some(seq!['w']),
        field(start_notation(), 2) == Some(seq!['K', 'Q', 'k', 'q']),
        field(start_notation(), 3) == Some(seq!['-']),
        field(start_notation(), 4) == Some(seq!['0']),
        field(start_notation(), 5) == Some(seq!['1']),
{
    reveal_strlit("rnbqkbnr/pppppppp/8/8/8/8/PPPPPPPP/RNBQKBNR w KQkq - 0 1");
    reveal_strlit("rnbqkbnr");
    reveal_strlit("/");
    reveal_strlit("pppppppp");
    reveal_strlit("/8/8/8/8/");
    reveal_strlit("PPPPPPPP");
    reveal_strlit("RNBQKBNR");
    let s = start_notation();
    reveal_with_fuel(field_end, 50);
    reveal_with_fuel(field_start, 3);
    reveal_with_fuel(field_bounds, 7);
    assert(field_bounds(s, 0) == (0int, 43int));
    assert(field_bounds(s, 1) == (44int, 45int));
    assert(field_bounds(s, 2) == (46int, 50int));
    assert(field_bounds(s, 3) == (51int, 52int));
    assert(field_bounds(s, 4) == (53int, 54int));
    assert(field_bounds(s, 5) == (55int, 56int));
    assert(s.subrange(0, 43) =~= "rnbqkbnr"@ + "/"@ + "pppppppp"@ + "/8/8/8/8/"@ + "PPPPPPPP"@ + "/"@
        + "RNBQKBNR"@);
    assert(s.subrange(44, 45) =~= seq!['w']);
    assert(s.subrange(46, 50) =~= seq!['K', 'Q', 'k', 'q']);
    assert(s.subrange(51, 52) =~= seq!['-']);
    assert(s.subrange(53, 54) =~= seq!['0']);
    assert(s.subrange(55, 56) =~= seq!['1']);
}

/// The first field of the notation of the start position is well formed
/// and puts on every square the piece that starts there.
proof fn lemma_start_placement(c: Coordinate)
    ensures
        ({
            let f = "rnbqkbnr"@ + "/"@ + "pppppppp"@ + "/8/8/8/8/"@ + "PPPPPPPP"@ + "/"@
                + "RNBQKBNR"@;
            &&& placement_is_well_formed(f)
            &&& piece_placed(f, square_number(c)) == initial_piece(c)
        }),
{
    reveal_strlit("rnbqkbnr");
    reveal_strlit("/");
    reveal_strlit("pppppppp");
    reveal_strlit("/8/8/8/8/");
    reveal_strlit("PPPPPPPP");
    reveal_strlit("RNBQKBNR");
    let black_home = "rnbqkbnr"@;
    let bar = "/"@;
    let black_pawns = "pppppppp"@;
    let middle = "/8/8/8/8/"@;
    let white_pawns = "PPPPPPPP"@;
    let white_home = "RNBQKBNR"@;
    let f = black_home + bar + black_pawns + middle + white_pawns + bar + white_home;
    let k = square_number(c);
    assert forall|i: int| 0 <= i < f.len() implies (#[trigger] placement_advance(f[i])) is Some by {
    }
    lemma_row_of_letters(black_home, k);
    lemma_row_of_letters(black_pawns, k - 8);
    lemma_row_of_letters(white_pawns, k - 48);
    lemma_row_of_letters(white_home, k - 56);
    lemma_no_letters_no_pieces(bar, k - 8);
    lemma_no_letters_no_pieces(middle, k - 16);
    lemma_no_letters_no_pieces(bar, k - 56);
    assert(squares_covered(bar) == 0) by {
        reveal_with_fuel(squares_covered, 2);
    }
    assert(squares_covered(middle) == 32) by {
        reveal_with_fuel(squares_covered, 10);
    }
    lemma_squares_covered_concat(black_home, bar);
    lemma_squares_covered_concat(black_home + bar, black_pawns);
    lemma_squares_covered_concat(black_home + bar + black_pawns, middle);
    lemma_squares_covered_concat(black_home + bar + black_pawns + middle, white_pawns);
    lemma_squares_covered_concat(black_home + bar + black_pawns + middle + white_pawns, bar);
    lemma_squares_covered_concat(black_home + bar + black_pawns + middle + white_pawns + bar, white_home);
    lemma_piece_placed_concat(black_home, bar, k);
    lemma_piece_placed_concat(black_home + bar, black_pawns, k);
    lemma_piece_placed_concat(black_home + bar + black_pawns, middle, k);
    lemma_piece_placed_concat(black_home + bar + black_pawns + middle, white_pawns, k);
    lemma_piece_placed_concat(black_home + bar + black_pawns + middle + white_pawns, bar, k);
    lemma_piece_placed_concat(black_home + bar + black_pawns + middle + white_pawns + bar, white_home, k);
}

/// The notation of the start position is accepted, and what it says is
/// the start of a game: the pieces on their starting squares and no
/// en-passant square, White to move, every castling right granted, no ply
/// played and the first move current.
pub proof fn lemma_start_notation_is_accepted()
    ensures
        fen_fault(start_notation()) is None,
        forall|c: Coordinate| #[trigger]
            fen_square(start_notation(), c) == (Square {
                piece: initial_piece(c),
                ..Square::empty()
            }),
        active_color_named(field(start_notation(), 1)->0) == Some(Color::White),
        castling_granted(field(start_notation(), 2)->0) == (CastlingRights {
            white_castling_rights: CastlingRightsForColor { kingside: true, queenside: true },
            black_castling_rights: CastlingRightsForColor { kingside: true, queenside: true },
        }),
        decimal_u8(field(start_notation(), 4)->0) == Some(0u8),
        decimal_u8(field(start_notation(), 5)->0) == Some(1u8),
{
    let s = start_notation();
    lemma_start_fields();
    lemma_start_placement(Coordinate { file: File::A, rank: Rank::First });
    assert(active_color_named(seq!['w']) == Some(Color::White));
    let rights = seq!['K', 'Q', 'k', 'q'];
    assert(castling_is_well_formed(rights));
    assert(rights[0] == 'K' && rights[1] == 'Q' && rights[2] == 'k' && rights[3] == 'q');
    assert(en_passant_target(seq!['-']) == Ok::<Option<Coordinate>, FenError>(None));
    assert(decimal_u8(seq!['0']) == Some(0u8)) by {
        reveal_with_fuel(decimal_value, 2);
    }
    assert(decimal_u8(seq!['1']) == Some(1u8)) by {
        reveal_with_fuel(decimal_value, 2);
    }
    assert forall|c: Coordinate| #[trigger]
        fen_square(s, c) == (Square { piece: initial_piece(c), ..Square::empty() }) by {
        lemma_start_placement(c);
    }
}

/// A state is the one that the notation of the start position describes
/// exactly if it is the state in which a game begins.
pub proof fn lemma_start_notation_describes_the_initial_state(state: GameState)
    ensures
        state.is_decoded_from(start_notation()) <==> state.is_initial(),
{
    let s = start_notation();
    lemma_start_notation_is_accepted();
    if state.is_initial() {
        assert forall|c: Coordinate| #[trigger] state.position.board[c] == fen_square(s, c) by {
            assert(fen_square(s, c) == (Square { piece: initial_piece(c), ..Square::empty() }));
        }
    }
    if state.is_decoded_from(s) {
        assert forall|c: Coordinate| #[trigger]
            state.position.board[c] == (Square { piece: initial_piece(c), ..Square::empty() }) by {
            assert(fen_square(s, c) == (Square { piece: initial_piece(c), ..Square::empty() }));
        }
    }
}

} // verus!
