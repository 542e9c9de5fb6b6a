//! The grammar of position notation: what each of the six fields may hold
//! and what it says.

use vstd::prelude::*;
use crate::board::{Coordinate, File, Rank, Square};
use crate::castling_rights::{CastlingRights, CastlingRightsForColor};
use crate::color::Color;
use crate::game_state::FenError;
use crate::piece::{Piece, PieceType};
use crate::text::{decimal_u8, digit_value, field};

verus! {

/// The piece that a letter of the piece-placement field stands for: `P`,
/// `K`, `Q`, `B`, `N` or `R`, in upper case for White and in lower case
/// for Black.
pub open spec fn piece_of_letter(c: char) -> Option<Piece> {
    if c == 'P' {
        Some(Piece { piece_type: PieceType::Pawn, color: Color::White })
    } else if c == 'K' {
        Some(Piece { piece_type: PieceType::King, color: Color::White })
    } else if c == 'Q' {
        Some(Piece { piece_type: PieceType::Queen, color: Color::White })
    } else if c == 'B' {
        Some(Piece { piece_type: PieceType::Bishop, color: Color::White })
    } else if c == 'N' {
        Some(Piece { piece_type: PieceType::Knight, color: Color::White })
    } else if c == 'R' {
        Some(Piece { piece_type: PieceType::Rook, color: Color::White })
    } else if c == 'p' {
        Some(Piece { piece_type: PieceType::Pawn, color: Color::Black })
    } else if c == 'k' {
        Some(Piece { piece_type: PieceType::King, color: Color::Black })
    } else if c == 'q' {
        Some(Piece { piece_type: PieceType::Queen, color: Color::Black })
    } else if c == 'b' {
        Some(Piece { piece_type: PieceType::Bishop, color: Color::Black })
    } else if c == 'n' {
        Some(Piece { piece_type: PieceType::Knight, color: Color::Black })
    } else if c == 'r' {
        Some(Piece { piece_type: PieceType::Rook, color: Color::Black })
    } else {
        None
    }
}

/// By how many squares a character of the piece-placement field moves the
/// cursor on: a digit by its value, a piece letter by one, `/` not at all.
/// `None` for a character that the field may not hold.
pub open spec fn placement_advance(c: char) -> Option<int> {
    if digit_value(c) is Some {
        digit_value(c)
    } else if piece_of_letter(c) is Some {
        Some(1)
    } else if c == '/' {
        Some(0)
    } else {
        None
    }
}

/// How many squares the characters of `s` cover together: where the cursor
/// stands after them, having started at 0.
pub open spec fn squares_covered(s: Seq<char>) -> int
    decreases s.len(),
{
    if s.len() == 0 {
        0
    } else {
        squares_covered(s.drop_last()) + match placement_advance(s.last()) {
            Some(n) => n,
            None => 0,
        }
    }
}

/// Whether `s` is a piece-placement field: every character is a digit, a
/// piece letter or `/`, and together they cover exactly 64 squares.
pub open spec fn placement_is_well_formed(s: Seq<char>) -> bool {
    &&& forall|i: int| 0 <= i < s.len() ==> (#[trigger] placement_advance(s[i])) is Some
    &&& squares_covered(s) == 64
}

/// The piece that the piece-placement field `s` puts on square number
/// `k`, if it puts one there: the piece of the letter before which the
/// cursor stands at `k`.
pub open spec fn piece_placed(s: Seq<char>, k: int) -> Option<Piece>
    decreases s.len(),
{
    if s.len() == 0 {
        None
    } else if piece_of_letter(s.last()) is Some && squares_covered(s.drop_last()) == k {
        piece_of_letter(s.last())
    } else {
        piece_placed(s.drop_last(), k)
    }
}

/// The number of a square in the order of the piece-placement field: rank
/// by rank from the eighth to the first, and within a rank from file `A`
/// to file `H`, so that `a8` is 0, `h8` is 7 and `h1` is 63.
pub open spec fn square_number(c: Coordinate) -> int {
    8 * (7 - c.rank.index()) + c.file.index()
}

/// The square `sq` after a piece-placement field has been read that puts
/// `placed` on it: with that piece, or as it was if the field puts none.
pub open spec fn with_placed(sq: Square, placed: Option<Piece>) -> Square {
    match placed {
        Some(piece) => Square { piece: Some(piece), ..sq },
        None => sq,
    }
}

/// Whether the castling field may hold `c`: one of `K`, `Q`, `k`, `q`, or
/// the placeholder `-`.
pub open spec fn castling_letter_ok(c: char) -> bool {
    c == 'K' || c == 'Q' || c == 'k' || c == 'q' || c == '-'
}

/// Whether `s` is a castling field: every character is one that the field
/// may hold.
pub open spec fn castling_is_well_formed(s: Seq<char>) -> bool {
    forall|i: int| 0 <= i < s.len() ==> castling_letter_ok(#[trigger] s[i])
}

/// The rights that the castling field `s` grants: `K` and `Q` give White
/// the king's side and the queen's side, `k` and `q` give them to Black. A
/// right whose letter is absent is not granted.
pub open spec fn castling_granted(s: Seq<char>) -> CastlingRights {
    CastlingRights {
        white_castling_rights: CastlingRightsForColor {
            kingside: s.contains('K'),
            queenside: s.contains('Q'),
        },
        black_castling_rights: CastlingRightsForColor {
            kingside: s.contains('k'),
            queenside: s.contains('q'),
        },
    }
}

/// The file that a letter names, in either case: `a` or `A` to `h` or `H`.
pub open spec fn file_of_letter(c: char) -> Option<File> {
    if c == 'a' || c == 'A' {
        Some(File::A)
    } else if c == 'b' || c == 'B' {
        Some(File::B)
    } else if c == 'c' || c == 'C' {
        Some(File::C)
    } else if c == 'd' || c == 'D' {
        Some(File::D)
    } else if c == 'e' || c == 'E' {
        Some(File::E)
    } else if c == 'f' || c == 'F' {
        Some(File::F)
    } else if c == 'g' || c == 'G' {
        Some(File::G)
    } else if c == 'h' || c == 'H' {
        Some(File::H)
    } else {
        None
    }
}

/// The rank that a digit names: `1` to `8`.
pub open spec fn rank_of_digit(c: char) -> Option<Rank> {
    if c == '1' {
        Some(Rank::First)
    } else if c == '2' {
        Some(Rank::Second)
    } else if c == '3' {
        Some(Rank::Third)
    } else if c == '4' {
        Some(Rank::Fourth)
    } else if c == '5' {
        Some(Rank::Fifth)
    } else if c == '6' {
        Some(Rank::Sixth)
    } else if c == '7' {
        Some(Rank::Seventh)
    } else if c == '8' {
        Some(Rank::Eighth)
    } else {
        None
    }
}

/// What the en-passant field `s` says: `-` names no square; a file letter
/// followed by a rank digit, and nothing more, names that square; every
/// other text is malformed.
pub open spec fn en_passant_target(s: Seq<char>) -> Result<Option<Coordinate>, FenError> {
    if s.len() == 1 && s[0] == '-' {
        Ok(None)
    } else if s.len() == 2 && file_of_letter(s[0]) is Some && rank_of_digit(s[1]) is Some {
        Ok(Some(Coordinate { file: file_of_letter(s[0])->0, rank: rank_of_digit(s[1])->0 }))
    } else {
        Err(FenError::Malformed)
    }
}

/// The side that the active-color field names: `w` is White, `b` is Black,
/// and no other text names a side.
pub open spec fn active_color_named(s: Seq<char>) -> Option<Color> {
    if s.len() == 1 && s[0] == 'w' {
        Some(Color::White)
    } else if s.len() == 1 && s[0] == 'b' {
        Some(Color::Black)
    } else {
        None
    }
}

/// Why the notation `s` is refused, or `None` if it is accepted. The fields
/// are examined in order, each for its presence and then for its grammar,
/// and the first fault found is the one reported. Fields after the sixth are
/// not examined.
pub open spec fn fen_fault(s: Seq<char>) -> Option<FenError> {
    if field(s, 0) is None {
        Some(FenError::EmptyString)
    } else if !placement_is_well_formed(field(s, 0)->0) {
        Some(FenError::Malformed)
    } else if field(s, 1) is None {
        Some(FenError::Incomplete)
    } else if active_color_named(field(s, 1)->0) is None {
        Some(FenError::Malformed)
    } else if field(s, 2) is None {
        Some(FenError::Incomplete)
    } else if !castling_is_well_formed(field(s, 2)->0) {
        Some(FenError::Malformed)
    } else if field(s, 3) is None {
        Some(FenError::Incomplete)
    } else if en_passant_target(field(s, 3)->0) is Err {
        Some(FenError::Malformed)
    } else if field(s, 4) is None {
        Some(FenError::Incomplete)
    } else if decimal_u8(field(s, 4)->0) is None {
        Some(FenError::Malformed)
    } else if field(s, 5) is None {
        Some(FenError::Incomplete)
    } else if decimal_u8(field(s, 5)->0) is None {
        Some(FenError::Malformed)
    } else {
        None
    }
}

/// The square at `c` in the position that the accepted notation `s`
/// describes: it holds the piece that the first field puts there, it is the
/// en-passant square if the fourth field names it, and it carries no attack
/// flag.
pub open spec fn fen_square(s: Seq<char>, c: Coordinate) -> Square {
    Square {
        piece: piece_placed(field(s, 0)->0, square_number(c)),
        is_en_passant_square: en_passant_target(field(s, 3)->0) == Ok::<
            Option<Coordinate>,
            FenError,
        >(Some(c)),
        is_attacked_by_white: false,
        is_attacked_by_black: false,
    }
}

/// No characters cover a negative number of squares.
pub proof fn lemma_squares_covered_nonnegative(s: Seq<char>)
    ensures
        0 <= squares_covered(s),
    decreases s.len(),
{
    if s.len() > 0 {
        lemma_squares_covered_nonnegative(s.drop_last());
    }
}

/// The squares covered never decrease as more characters are read.
pub proof fn lemma_squares_covered_grows(s: Seq<char>, n: int)
    requires
        0 <= n <= s.len(),
    ensures
        0 <= squares_covered(s.take(n)) <= squares_covered(s),
    decreases s.len() - n,
{
    if n == s.len() {
        assert(s.take(n) =~= s);
        lemma_squares_covered_nonnegative(s);
    } else {
        assert(s.drop_last().take(n) =~= s.take(n));
        lemma_squares_covered_grows(s.drop_last(), n);
    }
}

/// Reading one more character moves the cursor on by what the character
/// covers.
pub proof fn lemma_squares_covered_step(s: Seq<char>, i: int)
    requires
        0 <= i < s.len(),
    ensures
        squares_covered(s.take(i + 1)) == squares_covered(s.take(i)) + match placement_advance(
            s[i],
        ) {
            Some(n) => n,
            None => 0,
        },
{
    assert(s.take(i + 1).drop_last() =~= s.take(i));
}

/// What two texts cover together is the sum of what each covers.
pub proof fn lemma_squares_covered_concat(a: Seq<char>, b: Seq<char>)
    ensures
        squares_covered(a + b) == squares_covered(a) + squares_covered(b),
    decreases b.len(),
{
    if b.len() == 0 {
        assert(a + b =~= a);
    } else {
        assert((a + b).drop_last() =~= a + b.drop_last());
        lemma_squares_covered_concat(a, b.drop_last());
    }
}

/// Two piece letters of one field never stand on the same square: the
/// cursor has moved on by at least one between them.
pub proof fn lemma_letters_stand_apart(s: Seq<char>, i: int, j: int)
    requires
        0 <= i < j < s.len(),
        piece_of_letter(s[i]) is Some,
    ensures
        squares_covered(s.take(i)) < squares_covered(s.take(j)),
{
    lemma_squares_covered_step(s, i);
    assert(s.take(j).take(i + 1) =~= s.take(i + 1));
    lemma_squares_covered_grows(s.take(j), i + 1);
}

/// The piece that a field puts on a square is the piece of the letter
/// before which the cursor stands at that square, and a square for which
/// there is no such letter gets no piece.
pub proof fn lemma_piece_placed_by_its_letter(s: Seq<char>, k: int)
    ensures
        forall|i: int|
            0 <= i < s.len() && piece_of_letter(#[trigger] s[i]) is Some && squares_covered(
                s.take(i),
            ) == k ==> piece_placed(s, k) == piece_of_letter(s[i]),
        piece_placed(s, k) is Some ==> exists|i: int|
            0 <= i < s.len() && piece_of_letter(#[trigger] s[i]) == piece_placed(s, k)
                && squares_covered(s.take(i)) == k,
    decreases s.len(),
{
    if s.len() > 0 {
        let last = s.len() - 1;
        let front = s.drop_last();
        assert(front =~= s.take(last));
        lemma_piece_placed_by_its_letter(front, k);
        assert forall|i: int|
            0 <= i < s.len() && piece_of_letter(#[trigger] s[i]) is Some && squares_covered(
                s.take(i),
            ) == k implies piece_placed(s, k) == piece_of_letter(s[i]) by {
            if i < last {
                assert(front[i] == s[i]);
                assert(front.take(i) =~= s.take(i));
                if piece_of_letter(s.last()) is Some && squares_covered(front) == k {
                    lemma_letters_stand_apart(s, i, last);
                }
            }
        }
        if piece_placed(s, k) is Some {
            if piece_of_letter(s.last()) is Some && squares_covered(front) == k {
                assert(piece_of_letter(s[last]) == piece_placed(s, k) && squares_covered(
                    s.take(last),
                ) == k);
            } else {
                let i = choose|i: int|
                    0 <= i < front.len() && piece_of_letter(#[trigger] front[i]) == piece_placed(
                        front,
                        k,
                    ) && squares_covered(front.take(i)) == k;
                assert(front[i] == s[i]);
                assert(front.take(i) =~= s.take(i));
                assert(piece_of_letter(s[i]) == piece_placed(s, k) && squares_covered(s.take(i))
                    == k);
            }
        }
    }
}

/// A well-formed piece-placement field puts pieces on squares 0 to 63
/// only.
pub proof fn lemma_pieces_are_placed_on_the_board(s: Seq<char>, k: int)
    requires
        placement_is_well_formed(s),
        piece_placed(s, k) is Some,
    ensures
        0 <= k < 64,
{
    lemma_piece_placed_by_its_letter(s, k);
    let i = choose|i: int|
        0 <= i < s.len() && piece_of_letter(#[trigger] s[i]) == piece_placed(s, k)
            && squares_covered(s.take(i)) == k;
    lemma_squares_covered_step(s, i);
    lemma_squares_covered_grows(s, i);
    lemma_squares_covered_grows(s, i + 1);
}

/// The piece that two texts read one after the other put on a square is the
/// one that the second text puts there, counting its squares from where the
/// first text ends, and else the one that the first text puts there.
pub proof fn lemma_piece_placed_concat(a: Seq<char>, b: Seq<char>, k: int)
    ensures
        piece_placed(a + b, k) == match piece_placed(b, k - squares_covered(a)) {
            Some(piece) => Some(piece),
            None => piece_placed(a, k),
        },
    decreases b.len(),
{
    if b.len() == 0 {
        assert(a + b =~= a);
    } else {
        assert((a + b).drop_last() =~= a + b.drop_last());
        lemma_squares_covered_concat(a, b.drop_last());
        lemma_piece_placed_concat(a, b.drop_last(), k);
    }
}

/// A text of piece letters only covers one square for each letter and puts
/// the piece of its `k`-th letter on square `k`.
pub proof fn lemma_row_of_letters(s: Seq<char>, k: int)
    requires
        forall|i: int| 0 <= i < s.len() ==> piece_of_letter(#[trigger] s[i]) is Some,
    ensures
        squares_covered(s) == s.len(),
        piece_placed(s, k) == if 0 <= k < s.len() {
            piece_of_letter(s[k])
        } else {
            None
        },
    decreases s.len(),
{
    if s.len() > 0 {
        lemma_row_of_letters(s.drop_last(), k);
        assert(piece_of_letter(s.last()) is Some);
    }
}

/// A text without piece letters puts no piece anywhere.
pub proof fn lemma_no_letters_no_pieces(s: Seq<char>, k: int)
    requires
        forall|i: int| 0 <= i < s.len() ==> piece_of_letter(#[trigger] s[i]) is None,
    ensures
        piece_placed(s, k) is None,
    decreases s.len(),
{
    if s.len() > 0 {
        lemma_no_letters_no_pieces(s.drop_last(), k);
        assert(piece_of_letter(s.last()) is None);
    }
}

/// Every coordinate has a square number from 0 to 63, and no two
/// coordinates share one.
pub proof fn lemma_square_numbers(a: Coordinate, b: Coordinate)
    ensures
        0 <= square_number(a) < 64,
        square_number(a) == square_number(b) ==> a == b,
        a == Coordinate::at(square_number(a) % 8, 7 - square_number(a) / 8),
{
}

} // verus!
