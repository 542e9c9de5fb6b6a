//! A position: the board, the side to move and the castling rights, with the
//! generation of its pseudo-legal moves.
//!
//! A pseudo-legal move is one that the geometry of the piece allows. Whether
//! it would leave the mover's own king in check is not examined here.

use vstd::prelude::*;
use crate::board::{Board, Coordinate, Direction, File, Rank};
use crate::castling_rights::CastlingRights;
use crate::chess_move::ChessMove;
use crate::color::Color;
use crate::piece::PieceType;

verus! {

/// By how many ranks a pawn of the given side advances in one step: White
/// towards the eighth rank, Black towards the first.
pub open spec fn pawn_forward(color: Color) -> int {
    match color {
        Color::White => 1,
        Color::Black => -1,
    }
}

/// The rank on which the pawns of the given side start: its second.
pub open spec fn pawn_start_rank(color: Color) -> Rank {
    match color {
        Color::White => Rank::Second,
        Color::Black => Rank::Seventh,
    }
}

/// The rank from which a pawn of the given side promotes with its next
/// step: its seventh.
pub open spec fn pawn_promotion_rank(color: Color) -> Rank {
    match color {
        Color::White => Rank::Seventh,
        Color::Black => Rank::Second,
    }
}

/// The rank on which the king and the rooks of the given side start.
pub open spec fn home_rank(color: Color) -> Rank {
    match color {
        Color::White => Rank::First,
        Color::Black => Rank::Eighth,
    }
}

/// The four promotions of a pawn that goes from `from` to `to`, in the
/// order queen, rook, bishop, knight.
pub open spec fn promotions(from: Coordinate, to: Coordinate) -> Seq<ChessMove> {
    seq![
        ChessMove::PawnPromotion { from, to, promotion_to: PieceType::Queen },
        ChessMove::PawnPromotion { from, to, promotion_to: PieceType::Rook },
        ChessMove::PawnPromotion { from, to, promotion_to: PieceType::Bishop },
        ChessMove::PawnPromotion { from, to, promotion_to: PieceType::Knight },
    ]
}

/// The eight jumps of a knight, clockwise from the one that goes one file
/// right and two ranks up.
pub open spec fn knight_offsets() -> Seq<Direction> {
    seq![
        Direction::of(1, 2),
        Direction::of(2, 1),
        Direction::of(2, -1),
        Direction::of(1, -2),
        Direction::of(-1, -2),
        Direction::of(-2, -1),
        Direction::of(-2, 1),
        Direction::of(-1, 2),
    ]
}

/// The eight steps of a king, clockwise from the step up.
pub open spec fn king_offsets() -> Seq<Direction> {
    seq![
        Direction::of(0, 1),
        Direction::of(1, 1),
        Direction::of(1, 0),
        Direction::of(1, -1),
        Direction::of(0, -1),
        Direction::of(-1, -1),
        Direction::of(-1, 0),
        Direction::of(-1, 1),
    ]
}

/// The four directions of a rook: up, right, down, left.
pub open spec fn rook_directions() -> Seq<Direction> {
    seq![Direction::of(0, 1), Direction::of(1, 0), Direction::of(0, -1), Direction::of(-1, 0)]
}

/// The four directions of a bishop, clockwise from the upper right.
pub open spec fn bishop_directions() -> Seq<Direction> {
    seq![Direction::of(1, 1), Direction::of(1, -1), Direction::of(-1, -1), Direction::of(-1, 1)]
}

/// How many steps in direction `d` there is room for at most, starting at
/// `at`, judged by the axis along which `d` moves: the file if it changes
/// the file, else the rank.
pub open spec fn room(at: Coordinate, d: Direction) -> int {
    if d.delta_file > 0 {
        7 - at.file.index()
    } else if d.delta_file < 0 {
        at.file.index()
    } else if d.delta_rank > 0 {
        7 - at.rank.index()
    } else {
        at.rank.index()
    }
}

/// Whether `d` moves at all.
pub open spec fn is_step(d: Direction) -> bool {
    d.delta_file != 0 || d.delta_rank != 0
}

/// The place of a coordinate in the order in which the squares are
/// examined: file by file from `A` to `H`, and within a file from the first
/// rank to the eighth.
pub open spec fn scan_coordinate(k: int) -> Coordinate {
    Coordinate::at(k / 8, k % 8)
}

/// The line that frames the rows of a board diagram.
pub open spec fn border_text() -> Seq<char> {
    "+---+---+---+---+---+---+---+---+\n"@
}

/// A board together with the side to move and the castling rights.
#[derive(Clone, Copy, Debug, PartialEq, Eq)]
pub struct Position {
    pub board: Board,
    pub active_color: Color,
    pub castling_rights: CastlingRights,
}

impl Position {
    /// The moves of a pawn of the side to move that stands on `from` and
    /// advances straight ahead. The square ahead must be empty. From the
    /// promotion rank the step is a promotion to each of the four kinds;
    /// elsewhere it is a standard move, followed from the start rank by the
    /// double step if the second square is empty too.
    pub open spec fn pawn_pushes(&self, from: Coordinate) -> Seq<ChessMove> {
        let ahead = Direction::of(0, pawn_forward(self.active_color));
        match from.moved(ahead) {
            Err(_) => seq![],
            Ok(one) => if self.board[one].piece is Some {
                seq![]
            } else if from.rank == pawn_promotion_rank(self.active_color) {
                promotions(from, one)
            } else if from.rank == pawn_start_rank(self.active_color) {
                match one.moved(ahead) {
                    Err(_) => seq![ChessMove::Standard { from, to: one }],
                    Ok(two) => if self.board[two].piece is Some {
                        seq![ChessMove::Standard { from, to: one }]
                    } else {
                        seq![
                            ChessMove::Standard { from, to: one },
                            ChessMove::Standard { from, to: two },
                        ]
                    },
                }
            } else {
                seq![ChessMove::Standard { from, to: one }]
            },
        }
    }

    /// The moves of a pawn of the side to move that stands on `from`, onto
    /// the square diagonally ahead on the side given by `delta_file` (-1 for
    /// the left, 1 for the right). If the other side has a piece there, the
    /// pawn captures it: from the promotion rank with a promotion to each of
    /// the four kinds, elsewhere with a standard move. If the square is the
    /// en-passant square and the pawn is not on its promotion rank, the
    /// en-passant capture follows. A square off the board gives nothing.
    pub open spec fn pawn_captures(&self, from: Coordinate, delta_file: int) -> Seq<ChessMove> {
        let promoting = from.rank == pawn_promotion_rank(self.active_color);
        match from.moved(Direction::of(delta_file, pawn_forward(self.active_color))) {
            Err(_) => seq![],
            Ok(to) => {
                let capture = if !self.board[to].holds_color(self.active_color.opposite()) {
                    seq![]
                } else if promoting {
                    promotions(from, to)
                } else {
                    seq![ChessMove::Standard { from, to }]
                };
                let en_passant = if !promoting && self.board[to].is_en_passant_square {
                    seq![ChessMove::EnPassantCapture { from }]
                } else {
                    seq![]
                };
                capture + en_passant
            },
        }
    }

    /// The pseudo-legal moves of a pawn of the side to move that stands on
    /// `from`. From the promotion rank: the captures to the left, those to
    /// the right, then the step ahead. Elsewhere: the steps ahead, then the
    /// captures to the left and those to the right.
    pub open spec fn pawn_moves(&self, from: Coordinate) -> Seq<ChessMove> {
        if from.rank == pawn_promotion_rank(self.active_color) {
            self.pawn_captures(from, -1) + self.pawn_captures(from, 1) + self.pawn_pushes(from)
        } else {
            self.pawn_pushes(from) + self.pawn_captures(from, -1) + self.pawn_captures(from, 1)
        }
    }

    /// The move of a piece of the side to move from `from` by the single
    /// jump `d`: a standard move, unless the jump leaves the board or lands
    /// on a piece of the same side.
    pub open spec fn step_move(&self, from: Coordinate, d: Direction) -> Seq<ChessMove> {
        match from.moved(d) {
            Err(_) => seq![],
            Ok(to) => if self.board[to].holds_color(self.active_color) {
                seq![]
            } else {
                seq![ChessMove::Standard { from, to }]
            },
        }
    }

    /// The moves from `from` by each of the jumps `offsets`, in their order.
    pub open spec fn step_moves(&self, from: Coordinate, offsets: Seq<Direction>) -> Seq<
        ChessMove,
    > {
        Seq::new(offsets.len(), |i: int| self.step_move(from, offsets[i])).flatten()
    }

    /// The pseudo-legal moves of a knight of the side to move that stands
    /// on `from`.
    pub open spec fn knight_moves(&self, from: Coordinate) -> Seq<ChessMove> {
        self.step_moves(from, knight_offsets())
    }

    /// Whether the square at `c` holds no piece and is not marked as
    /// attacked by the side that is not to move.
    pub open spec fn is_free_and_safe(&self, c: Coordinate) -> bool {
        &&& self.board[c].piece is None
        &&& !self.board[c].attacked_by(self.active_color.opposite())
    }

    /// Whether the side to move may castle on the king's side: it has the
    /// right, and the squares on files `F` and `G` of its home rank are free
    /// and safe.
    pub open spec fn can_castle_kingside(&self) -> bool {
        let rank = home_rank(self.active_color);
        &&& self.castling_rights[self.active_color].kingside
        &&& self.is_free_and_safe(Coordinate { file: File::F, rank })
        &&& self.is_free_and_safe(Coordinate { file: File::G, rank })
    }

    /// Whether the side to move may castle on the queen's side: it has the
    /// right, and the squares on files `D`, `C` and `B` of its home rank are
    /// free and safe.
    pub open spec fn can_castle_queenside(&self) -> bool {
        let rank = home_rank(self.active_color);
        &&& self.castling_rights[self.active_color].queenside
        &&& self.is_free_and_safe(Coordinate { file: File::D, rank })
        &&& self.is_free_and_safe(Coordinate { file: File::C, rank })
        &&& self.is_free_and_safe(Coordinate { file: File::B, rank })
    }

    /// The castling moves open to the side to move: the king's side first,
    /// then the queen's side.
    pub open spec fn castling_moves(&self) -> Seq<ChessMove> {
        let kingside = if self.can_castle_kingside() {
            seq![ChessMove::CastleKingside]
        } else {
            seq![]
        };
        let queenside = if self.can_castle_queenside() {
            seq![ChessMove::CastleQueenside]
        } else {
            seq![]
        };
        kingside + queenside
    }

    /// The pseudo-legal moves of a king of the side to move that stands on
    /// `from`: its steps, then the castling moves.
    pub open spec fn king_moves(&self, from: Coordinate) -> Seq<ChessMove> {
        self.step_moves(from, king_offsets()) + self.castling_moves()
    }

    /// The moves of a sliding piece of the side to move that started on
    /// `from`, has come as far as `at`, and goes on in direction `d`. Each
    /// empty square is a move and the walk goes on; a piece of the other
    /// side is a move and ends the walk; a piece of the same side or the
    /// edge of the board ends the walk without a move.
    pub open spec fn ray_moves(&self, from: Coordinate, at: Coordinate, d: Direction) -> Seq<
        ChessMove,
    >
        decreases room(at, d),
    {
        if !is_step(d) {
            seq![]
        } else {
            match at.moved(d) {
                Err(_) => seq![],
                Ok(to) => if self.board[to].piece is None {
                    seq![ChessMove::Standard { from, to }] + self.ray_moves(from, to, d)
                } else if self.board[to].holds_color(self.active_color.opposite()) {
                    seq![ChessMove::Standard { from, to }]
                } else {
                    seq![]
                },
            }
        }
    }

    /// The moves of a sliding piece from `from` along each of the
    /// directions `directions`, in their order.
    pub open spec fn slide_moves(&self, from: Coordinate, directions: Seq<Direction>) -> Seq<
        ChessMove,
    > {
        Seq::new(directions.len(), |i: int| self.ray_moves(from, from, directions[i])).flatten()
    }

    /// The pseudo-legal moves of a rook of the side to move that stands on
    /// `from`.
    pub open spec fn rook_moves(&self, from: Coordinate) -> Seq<ChessMove> {
        self.slide_moves(from, rook_directions())
    }

    /// The pseudo-legal moves of a bishop of the side to move that stands
    /// on `from`.
    pub open spec fn bishop_moves(&self, from: Coordinate) -> Seq<ChessMove> {
        self.slide_moves(from, bishop_directions())
    }

    /// The pseudo-legal moves of a queen of the side to move that stands on
    /// `from`: those of a rook, then those of a bishop.
    pub open spec fn queen_moves(&self, from: Coordinate) -> Seq<ChessMove> {
        self.slide_moves(from, rook_directions() + bishop_directions())
    }

    /// The pseudo-legal moves that start on the square at `c`: those of the
    /// piece that stands there, if it belongs to the side to move, and none
    /// otherwise.
    pub open spec fn moves_from(&self, c: Coordinate) -> Seq<ChessMove> {
        match self.board[c].piece {
            None => seq![],
            Some(piece) => if piece.color != self.active_color {
                seq![]
            } else {
                match piece.piece_type {
                    PieceType::Pawn => self.pawn_moves(c),
                    PieceType::King => self.king_moves(c),
                    PieceType::Queen => self.queen_moves(c),
                    PieceType::Bishop => self.bishop_moves(c),
                    PieceType::Knight => self.knight_moves(c),
                    PieceType::Rook => self.rook_moves(c),
                }
            },
        }
    }

    /// The moves that start on each of the 64 squares, in the order in
    /// which the squares are examined.
    pub open spec fn moves_by_square(&self) -> Seq<Seq<ChessMove>> {
        Seq::new(64, |k: int| self.moves_from(scan_coordinate(k)))
    }

    /// All pseudo-legal moves of the side to move: the moves of each of its
    /// pieces, square after square.
    pub open spec fn all_moves(&self) -> Seq<ChessMove> {
        self.moves_by_square().flatten()
    }

    /// One cell of a board diagram: a bar, and the symbol of the square at
    /// `c` between two blanks.
    pub open spec fn cell_text(&self, c: Coordinate) -> Seq<char> {
        "| "@ + seq![self.board[c].symbol()] + " "@
    }

    /// One row of a board diagram: the cells of the rank from file `A` to
    /// file `H`, the closing bar, and the border line under the row.
    pub open spec fn row_text(&self, rank: Rank) -> Seq<char> {
        Seq::new(8, |f: int| self.cell_text(Coordinate { file: File::from_index(f), rank })).flatten()
            + "|\n"@ + border_text()
    }

    /// The board diagram: the border line, then the rows from the eighth
    /// rank down to the first.
    pub open spec fn board_text(&self) -> Seq<char> {
        border_text() + Seq::new(8, |i: int| self.row_text(Rank::from_index(7 - i))).flatten()
    }

    /// The three lines under the board diagram: the side to move, then the
    /// castling rights of White and of Black.
    pub open spec fn summary_text(&self) -> Seq<char> {
        self.active_color.name() + " to move.\n"@ + "White castling rights: "@
            + self.castling_rights[Color::White].description() + ".\n"@
            + "Black castling rights: "@ + self.castling_rights[Color::Black].description()
            + ".\n"@
    }

    /// The position as text: the board diagram and the summary lines.
    pub open spec fn text(&self) -> Seq<char> {
        self.board_text() + self.summary_text()
    }

    pub fn new(board: Board, active_color: Color, castling_rights: CastlingRights) -> (position:
        Position)
        ensures
            position.board == board,
            position.active_color == active_color,
            position.castling_rights == castling_rights,
    {
        Position { board, active_color, castling_rights }
    }

    /// Returns the position as text: a diagram of the board, framed by
    /// border lines, with White's pieces in upper case, Black's in lower
    /// case and `*` on an empty en-passant square; then one line each for
    /// the side to move and for the castling rights of White and of Black.
    pub fn to_string(&self) -> (text: String)
        ensures
            text@ == self.text(),
    {
        let files = [
            File::A,
            File::B,
            File::C,
            File::D,
            File::E,
            File::F,
            File::G,
            File::H,
        ];
        let ranks = [
            Rank::Eighth,
            Rank::Seventh,
            Rank::Sixth,
            Rank::Fifth,
            Rank::Fourth,
            Rank::Third,
            Rank::Second,
            Rank::First,
        ];
        let ghost rows = Seq::new(8, |i: int| self.row_text(Rank::from_index(7 - i)));
        let mut text = String::new();
        text.append("+---+---+---+---+---+---+---+---+\n");
        assert(rows.take(0).flatten() =~= Seq::<char>::empty());
        assert(text@ =~= border_text() + rows.take(0).flatten());
        let mut i: usize = 0;
        while i < 8
            invariant
                0 <= i <= 8,
                forall|j: int| 0 <= j < 8 ==> #[trigger] files@[j] == File::from_index(j),
                forall|j: int| 0 <= j < 8 ==> #[trigger] ranks@[j] == Rank::from_index(7 - j),
                rows == Seq::new(8, |i: int| self.row_text(Rank::from_index(7 - i))),
                text@ == border_text() + rows.take(i as int).flatten(),
            decreases 8 - i,
        {
            let rank = ranks[i];
            let ghost before = text@;
            let ghost cells = Seq::new(
                8,
                |f: int| self.cell_text(Coordinate { file: File::from_index(f), rank }),
            );
            assert(cells.take(0).flatten() =~= Seq::<char>::empty());
            assert(text@ =~= before + cells.take(0).flatten());
            let mut f: usize = 0;
            while f < 8
                invariant
                    0 <= f <= 8,
                    forall|j: int| 0 <= j < 8 ==> #[trigger] files@[j] == File::from_index(j),
                    cells == Seq::new(
                        8,
                        |f: int| self.cell_text(Coordinate { file: File::from_index(f), rank }),
                    ),
                    text@ == before + cells.take(f as int).flatten(),
                decreases 8 - f,
            {
                let coordinate = Coordinate::new(files[f], rank);
                let square = self.board[coordinate];
                let ghost so_far = text@;
                text.append("| ");
                text.append(square.as_str());
                text.append(" ");
                proof {
                    assert(text@ =~= so_far + cells[f as int]);
                    assert(cells.take(f + 1) =~= cells.take(f as int).push(cells[f as int]));
                    cells.take(f as int).lemma_flatten_push(cells[f as int]);
                }
                f = f + 1;
            }
            text.append("|\n+---+---+---+---+---+---+---+---+\n");
            proof {
                reveal_strlit("|\n+---+---+---+---+---+---+---+---+\n");
                reveal_strlit("|\n");
                reveal_strlit("+---+---+---+---+---+---+---+---+\n");
                assert("|\n+---+---+---+---+---+---+---+---+\n"@ =~= "|\n"@ + border_text());
                assert(cells.take(8) =~= cells);
                assert(text@ =~= before + rows[i as int]);
                assert(rows.take(i + 1) =~= rows.take(i as int).push(rows[i as int]));
                rows.take(i as int).lemma_flatten_push(rows[i as int]);
            }
            i = i + 1;
        }
        assert(rows.take(8) =~= rows);
        let ghost board_text = text@;
        text.append(self.active_color.as_str());
        text.append(" to move.\n");
        text.append("White castling rights: ");
        text.append(self.castling_rights[Color::White].as_str());
        text.append(".\n");
        text.append("Black castling rights: ");
        text.append(self.castling_rights[Color::Black].as_str());
        text.append(".\n");
        assert(text@ =~= board_text + self.summary_text());
        text
    }

    /// Returns every pseudo-legal move of the side to move. The squares are
    /// examined file by file and, within a file, rank by rank; the moves of
    /// one piece stand together, in the order in which its generator gives
    /// them.
    pub fn get_possible_moves(&self) -> (moves: Vec<ChessMove>)
        ensures
            moves@ == self.all_moves(),
    {
        let mut moves: Vec<ChessMove> = Vec::new();
        let ghost by_square = self.moves_by_square();
        let files = [
            File::A,
            File::B,
            File::C,
            File::D,
            File::E,
            File::F,
            File::G,
            File::H,
        ];
        let ranks = [
            Rank::First,
            Rank::Second,
            Rank::Third,
            Rank::Fourth,
            Rank::Fifth,
            Rank::Sixth,
            Rank::Seventh,
            Rank::Eighth,
        ];
        assert(by_square.take(0).flatten() =~= Seq::<ChessMove>::empty());
        let mut f: usize = 0;
        while f < 8
            invariant
                0 <= f <= 8,
                forall|i: int| 0 <= i < 8 ==> #[trigger] files@[i] == File::from_index(i),
                forall|i: int| 0 <= i < 8 ==> #[trigger] ranks@[i] == Rank::from_index(i),
                by_square == self.moves_by_square(),
                moves@ == by_square.take(8 * f).flatten(),
            decreases 8 - f,
        {
            let mut r: usize = 0;
            while r < 8
                invariant
                    0 <= f < 8,
                    0 <= r <= 8,
                    forall|i: int| 0 <= i < 8 ==> #[trigger] files@[i] == File::from_index(i),
                    forall|i: int| 0 <= i < 8 ==> #[trigger] ranks@[i] == Rank::from_index(i),
                    by_square == self.moves_by_square(),
                    moves@ == by_square.take(8 * f + r).flatten(),
                decreases 8 - r,
            {
                let ghost k: int = 8 * f + r;
                let coordinate = Coordinate::new(files[f], ranks[r]);
                assert(coordinate == scan_coordinate(k));
                let mut pseudo_legal_moves = self.get_moves_from(coordinate);
                proof {
                    assert(by_square.take(k + 1) =~= by_square.take(k).push(by_square[k]));
                    by_square.take(k).lemma_flatten_push(by_square[k]);
                }
                moves.append(&mut pseudo_legal_moves);
                r = r + 1;
            }
            f = f + 1;
        }
        assert(by_square.take(64) =~= by_square);
        moves
    }

    /// Returns the pseudo-legal moves that start on the square at
    /// `coordinate`: none if the square is empty or holds a piece of the
    /// side that is not to move, else those of the piece's generator.
    pub fn get_moves_from(&self, coordinate: Coordinate) -> (moves: Vec<ChessMove>)
        ensures
            moves@ == self.moves_from(coordinate),
    {
        let square = self.board[coordinate];
        let piece = match square.get_piece() {
            None => {
                return Vec::new();
            },
            Some(piece) => piece,
        };
        if piece.color == self.active_color.get_opposite() {
            return Vec::new();
        }
        match piece.piece_type {
            PieceType::Pawn => self.get_possible_pawn_moves(coordinate),
            PieceType::King => self.get_possible_king_moves(coordinate),
            PieceType::Queen => self.get_possible_queen_moves(coordinate),
            PieceType::Bishop => self.get_possible_bishop_moves(coordinate),
            PieceType::Knight => self.get_possible_knight_moves(coordinate),
            PieceType::Rook => self.get_possible_rook_moves(coordinate),
        }
    }

    /// Returns the pseudo-legal moves of a pawn of the side to move that
    /// stands on `from_coordinate`. A step that would leave the board is
    /// left out.
    pub fn get_possible_pawn_moves(&self, from_coordinate: Coordinate) -> (moves: Vec<ChessMove>)
        ensures
            moves@ == self.pawn_moves(from_coordinate),
    {
        let mut moves: Vec<ChessMove> = Vec::new();
        if self.is_on_promotion_rank(from_coordinate) {
            self.add_pawn_captures(from_coordinate, -1, &mut moves);
            self.add_pawn_captures(from_coordinate, 1, &mut moves);
            self.add_pawn_pushes(from_coordinate, &mut moves);
        } else {
            self.add_pawn_pushes(from_coordinate, &mut moves);
            self.add_pawn_captures(from_coordinate, -1, &mut moves);
            self.add_pawn_captures(from_coordinate, 1, &mut moves);
        }
        assert(moves@ =~= self.pawn_moves(from_coordinate));
        moves
    }

    /// Returns the pseudo-legal moves of a king of the side to move that
    /// stands on `from_coordinate`: its steps to the eight neighbouring
    /// squares, then the castling moves that are open.
    pub fn get_possible_king_moves(&self, from_coordinate: Coordinate) -> (moves: Vec<ChessMove>)
        ensures
            moves@ == self.king_moves(from_coordinate),
    {
        let offsets = [
            Direction::up(),
            Direction::upper_right(),
            Direction::right(),
            Direction::lower_right(),
            Direction::down(),
            Direction::lower_left(),
            Direction::left(),
            Direction::upper_left(),
        ];
        assert(offsets@ =~= king_offsets());
        let mut moves = self.get_step_moves(from_coordinate, offsets.as_slice());
        if self.current_player_can_castle_kingside() {
            moves.push(ChessMove::CastleKingside);
        }
        if self.current_player_can_castle_queenside() {
            moves.push(ChessMove::CastleQueenside);
        }
        assert(moves@ =~= self.king_moves(from_coordinate));
        moves
    }

    /// Returns whether the side to move may castle on the king's side. The
    /// answer rests on the attack flags of the board as they stand.
    pub fn current_player_can_castle_kingside(&self) -> (b: bool)
        ensures
            b == self.can_castle_kingside(),
    {
        if !self.castling_rights[self.active_color].kingside {
            return false;
        }
        let rank = self.home_rank_of_active_color();
        self.is_square_free_and_safe(Coordinate::new(File::F, rank))
            && self.is_square_free_and_safe(Coordinate::new(File::G, rank))
    }

    /// Returns whether the side to move may castle on the queen's side. The
    /// answer rests on the attack flags of the board as they stand.
    pub fn current_player_can_castle_queenside(&self) -> (b: bool)
        ensures
            b == self.can_castle_queenside(),
    {
        if !self.castling_rights[self.active_color].queenside {
            return false;
        }
        let rank = self.home_rank_of_active_color();
        self.is_square_free_and_safe(Coordinate::new(File::D, rank))
            && self.is_square_free_and_safe(Coordinate::new(File::C, rank))
            && self.is_square_free_and_safe(Coordinate::new(File::B, rank))
    }

    /// Returns the pseudo-legal moves of a queen of the side to move that
    /// stands on `from_coordinate`.
    pub fn get_possible_queen_moves(&self, from_coordinate: Coordinate) -> (moves: Vec<ChessMove>)
        ensures
            moves@ == self.queen_moves(from_coordinate),
    {
        let directions = [
            Direction::up(),
            Direction::right(),
            Direction::down(),
            Direction::left(),
            Direction::upper_right(),
            Direction::lower_right(),
            Direction::lower_left(),
            Direction::upper_left(),
        ];
        assert(directions@ =~= rook_directions() + bishop_directions());
        self.get_slide_moves(from_coordinate, directions.as_slice())
    }

    /// Returns the pseudo-legal moves of a bishop of the side to move that
    /// stands on `from_coordinate`.
    pub fn get_possible_bishop_moves(&self, from_coordinate: Coordinate) -> (moves: Vec<
        ChessMove,
    >)
        ensures
            moves@ == self.bishop_moves(from_coordinate),
    {
        let directions = [
            Direction::upper_right(),
            Direction::lower_right(),
            Direction::lower_left(),
            Direction::upper_left(),
        ];
        assert(directions@ =~= bishop_directions());
        self.get_slide_moves(from_coordinate, directions.as_slice())
    }

    /// Returns the pseudo-legal moves of a knight of the side to move that
    /// stands on `from_coordinate`.
    pub fn get_possible_knight_moves(&self, from_coordinate: Coordinate) -> (moves: Vec<
        ChessMove,
    >)
        ensures
            moves@ == self.knight_moves(from_coordinate),
    {
        let offsets = [
            Direction::new(1, 2),
            Direction::new(2, 1),
            Direction::new(2, -1),
            Direction::new(1, -2),
            Direction::new(-1, -2),
            Direction::new(-2, -1),
            Direction::new(-2, 1),
            Direction::new(-1, 2),
        ];
        assert(offsets@ =~= knight_offsets());
        self.get_step_moves(from_coordinate, offsets.as_slice())
    }

    /// Returns the pseudo-legal moves of a rook of the side to move that
    /// stands on `from_coordinate`.
    pub fn get_possible_rook_moves(&self, from_coordinate: Coordinate) -> (moves: Vec<ChessMove>)
        ensures
            moves@ == self.rook_moves(from_coordinate),
    {
        let directions = [
            Direction::up(),
            Direction::right(),
            Direction::down(),
            Direction::left(),
        ];
        assert(directions@ =~= rook_directions());
        self.get_slide_moves(from_coordinate, directions.as_slice())
    }

    /// Returns the moves from `from` by each of the jumps `offsets`, in
    /// their order.
    pub fn get_step_moves(&self, from: Coordinate, offsets: &[Direction]) -> (moves: Vec<
        ChessMove,
    >)
        ensures
            moves@ == self.step_moves(from, offsets@),
    {
        let mut moves: Vec<ChessMove> = Vec::new();
        let ghost per_offset = Seq::new(offsets@.len(), |i: int| self.step_move(from, offsets@[i]));
        let mut i: usize = 0;
        assert(per_offset.take(0).flatten() =~= Seq::<ChessMove>::empty());
        while i < offsets.len()
            invariant
                0 <= i <= offsets.len(),
                per_offset == Seq::new(
                    offsets@.len(),
                    |i: int| self.step_move(from, offsets@[i]),
                ),
                moves@ == per_offset.take(i as int).flatten(),
            decreases offsets.len() - i,
        {
            let ghost before = moves@;
            match from.try_moving(offsets[i]) {
                Err(_) => {},
                Ok(to) => {
                    if !self.board[to].has_piece_of_color(self.active_color) {
                        moves.push(ChessMove::Standard { from, to });
                    }
                },
            }
            proof {
                assert(moves@ =~= before + per_offset[i as int]);
                assert(per_offset.take(i + 1) =~= per_offset.take(i as int).push(
                    per_offset[i as int],
                ));
                per_offset.take(i as int).lemma_flatten_push(per_offset[i as int]);
            }
            i = i + 1;
        }
        assert(per_offset.take(i as int) =~= per_offset);
        moves
    }

    /// Returns the moves of a sliding piece from `from` along each of the
    /// directions `directions`, in their order.
    pub fn get_slide_moves(&self, from: Coordinate, directions: &[Direction]) -> (moves: Vec<
        ChessMove,
    >)
        ensures
            moves@ == self.slide_moves(from, directions@),
    {
        let mut moves: Vec<ChessMove> = Vec::new();
        let ghost per_direction = Seq::new(
            directions@.len(),
            |i: int| self.ray_moves(from, from, directions@[i]),
        );
        let mut i: usize = 0;
        assert(per_direction.take(0).flatten() =~= Seq::<ChessMove>::empty());
        while i < directions.len()
            invariant
                0 <= i <= directions.len(),
                per_direction == Seq::new(
                    directions@.len(),
                    |i: int| self.ray_moves(from, from, directions@[i]),
                ),
                moves@ == per_direction.take(i as int).flatten(),
            decreases directions.len() - i,
        {
            self.add_ray_moves(from, directions[i], &mut moves);
            proof {
                assert(per_direction.take(i + 1) =~= per_direction.take(i as int).push(
                    per_direction[i as int],
                ));
                per_direction.take(i as int).lemma_flatten_push(per_direction[i as int]);
            }
            i = i + 1;
        }
        assert(per_direction.take(i as int) =~= per_direction);
        moves
    }

    /// Walks from `from` in direction `direction` and adds the moves of the
    /// walk to `moves`. The walk ends at the edge of the board or at the
    /// first piece; a direction that does not move adds nothing.
    pub fn add_ray_moves(&self, from: Coordinate, direction: Direction, moves: &mut Vec<ChessMove>)
        ensures
            final(moves)@ == old(moves)@ + self.ray_moves(from, from, direction),
    {
        let ghost before = moves@;
        if direction.delta_file == 0 && direction.delta_rank == 0 {
            assert(moves@ =~= before + self.ray_moves(from, from, direction));
            return ;
        }
        let mut at = from;
        let mut walking = true;
        assert(moves@ =~= before + Seq::<ChessMove>::empty());
        while walking
            invariant
                is_step(direction),
                walking ==> moves@ + self.ray_moves(from, at, direction) == before
                    + self.ray_moves(from, from, direction),
                !walking ==> moves@ == before + self.ray_moves(from, from, direction),
            decreases
                    (if walking {
                        1 + room(at, direction)
                    } else {
                        0
                    }),
        {
            let ghost so_far = moves@;
            match at.try_moving(direction) {
                Err(_) => {
                    walking = false;
                    assert(so_far + Seq::<ChessMove>::empty() =~= so_far);
                },
                Ok(to) => {
                    let square = self.board[to];
                    if square.is_empty() {
                        moves.push(ChessMove::Standard { from, to });
                        assert(moves@ + self.ray_moves(from, to, direction) =~= so_far
                            + self.ray_moves(from, at, direction));
                        at = to;
                    } else {
                        if square.has_piece_of_color(self.active_color.get_opposite()) {
                            moves.push(ChessMove::Standard { from, to });
                        }
                        assert(moves@ =~= so_far + self.ray_moves(from, at, direction));
                        walking = false;
                    }
                },
            }
        }
    }

    /// Returns whether `from` lies on the rank from which a pawn of the
    /// side to move promotes with its next step.
    fn is_on_promotion_rank(&self, from: Coordinate) -> (b: bool)
        ensures
            b == (from.rank == pawn_promotion_rank(self.active_color)),
    {
        match self.active_color {
            Color::White => from.get_rank() == Rank::Seventh,
            Color::Black => from.get_rank() == Rank::Second,
        }
    }

    /// Returns whether `from` lies on the rank on which the pawns of the
    /// side to move start.
    fn is_on_start_rank(&self, from: Coordinate) -> (b: bool)
        ensures
            b == (from.rank == pawn_start_rank(self.active_color)),
    {
        match self.active_color {
            Color::White => from.get_rank() == Rank::Second,
            Color::Black => from.get_rank() == Rank::Seventh,
        }
    }

    /// Returns the home rank of the side to move.
    fn home_rank_of_active_color(&self) -> (rank: Rank)
        ensures
            rank == home_rank(self.active_color),
    {
        match self.active_color {
            Color::White => Rank::First,
            Color::Black => Rank::Eighth,
        }
    }

    /// Returns the direction in which the pawns of the side to move
    /// advance, shifted by `delta_file` files.
    fn pawn_direction(&self, delta_file: i8) -> (d: Direction)
        ensures
            d == (Direction {
                delta_file,
                delta_rank: pawn_forward(self.active_color) as i8,
            }),
    {
        match self.active_color {
            Color::White => Direction::new(delta_file, 1),
            Color::Black => Direction::new(delta_file, -1),
        }
    }

    /// Returns whether the square at `c` is free and safe for the side to
    /// move.
    fn is_square_free_and_safe(&self, c: Coordinate) -> (b: bool)
        ensures
            b == self.is_free_and_safe(c),
    {
        let square = self.board[c];
        square.is_empty() && !square.is_attacked_by(self.active_color.get_opposite())
    }

    /// Adds the four promotions of a pawn that goes from `from` to `to`.
    fn add_promotions(from: Coordinate, to: Coordinate, moves: &mut Vec<ChessMove>)
        ensures
            final(moves)@ == old(moves)@ + promotions(from, to),
    {
        moves.push(ChessMove::PawnPromotion { from, to, promotion_to: PieceType::Queen });
        moves.push(ChessMove::PawnPromotion { from, to, promotion_to: PieceType::Rook });
        moves.push(ChessMove::PawnPromotion { from, to, promotion_to: PieceType::Bishop });
        moves.push(ChessMove::PawnPromotion { from, to, promotion_to: PieceType::Knight });
        assert(moves@ =~= old(moves)@ + promotions(from, to));
    }

    /// Adds the moves of a pawn on `from` that advances straight ahead.
    fn add_pawn_pushes(&self, from: Coordinate, moves: &mut Vec<ChessMove>)
        ensures
            final(moves)@ == old(moves)@ + self.pawn_pushes(from),
    {
        let ahead = self.pawn_direction(0);
        assert(ahead == Direction::of(0, pawn_forward(self.active_color)));
        let ghost before = moves@;
        match from.try_moving(ahead) {
            Err(_) => {},
            Ok(one) => {
                if self.board[one].is_empty() {
                    if self.is_on_promotion_rank(from) {
                        Self::add_promotions(from, one, moves);
                    } else {
                        moves.push(ChessMove::Standard { from, to: one });
                        if self.is_on_start_rank(from) {
                            match one.try_moving(ahead) {
                                Err(_) => {},
                                Ok(two) => {
                                    if self.board[two].is_empty() {
                                        moves.push(ChessMove::Standard { from, to: two });
                                    }
                                },
                            }
                        }
                    }
                }
            },
        }
        assert(moves@ =~= before + self.pawn_pushes(from));
    }

    /// Adds the moves of a pawn on `from` onto the square diagonally ahead
    /// on the side given by `delta_file`.
    fn add_pawn_captures(&self, from: Coordinate, delta_file: i8, moves: &mut Vec<ChessMove>)
        requires
            delta_file == -1 || delta_file == 1,
        ensures
            final(moves)@ == old(moves)@ + self.pawn_captures(from, delta_file as int),
    {
        let diagonal = self.pawn_direction(delta_file);
        assert(diagonal == Direction::of(delta_file as int, pawn_forward(self.active_color)));
        let promoting = self.is_on_promotion_rank(from);
        let ghost before = moves@;
        match from.try_moving(diagonal) {
            Err(_) => {},
            Ok(to) => {
                let square = self.board[to];
                if square.has_piece_of_color(self.active_color.get_opposite()) {
                    if promoting {
                        Self::add_promotions(from, to, moves);
                    } else {
                        moves.push(ChessMove::Standard { from, to });
                    }
                }
                if !promoting && square.is_en_passant_square {
                    moves.push(ChessMove::EnPassantCapture { from });
                }
            },
        }
        assert(moves@ =~= before + self.pawn_captures(from, delta_file as int));
    }
}

} // verus!
