//! What holds of the generated moves: the steps of a pawn from its start
//! rank and from its promotion rank, the walk of a sliding piece along an
//! open or a blocked line, and that every move starts where its piece
//! stands and captures no piece of the side to move.

use vstd::prelude::*;
use crate::board::{BoardError, Coordinate, Direction, Rank};
use crate::chess_move::ChessMove;
use crate::color::Color;
use crate::piece::PieceType;
use crate::position::{
    bishop_directions, home_rank, is_step, king_offsets, knight_offsets, pawn_forward,
    pawn_promotion_rank, pawn_start_rank, promotions, rook_directions, room, scan_coordinate,
    Position,
};

verus! {

/// The square reached from `at` by `k` steps in direction `d`, as long as
/// the steps stay on the board; a step that would leave it is not taken.
pub open spec fn square_along(at: Coordinate, d: Direction, k: nat) -> Coordinate
    decreases k,
{
    if k == 0 {
        at
    } else {
        match at.moved(d) {
            Ok(next) => square_along(next, d, (k - 1) as nat),
            Err(_) => at,
        }
    }
}

/// How many steps in direction `d` can be taken from `at` before the next
/// one would leave the board.
pub open spec fn steps_to_edge(at: Coordinate, d: Direction) -> nat
    decreases room(at, d),
{
    if !is_step(d) {
        0
    } else {
        match at.moved(d) {
            Ok(next) => 1 + steps_to_edge(next, d),
            Err(_) => 0,
        }
    }
}

/// The standard moves from `from` onto the first `n` squares that lie
/// beyond `at` in direction `d`, nearest first.
pub open spec fn moves_along(from: Coordinate, at: Coordinate, d: Direction, n: nat) -> Seq<
    ChessMove,
> {
    Seq::new(n, |k: int| ChessMove::Standard { from, to: square_along(at, d, (k + 1) as nat) })
}

/// The square one step ahead of `from` for a pawn of the given side, for
/// a pawn that does not stand on the last rank.
pub open spec fn square_ahead(color: Color, from: Coordinate) -> Coordinate {
    Coordinate { file: from.file, rank: Rank::from_index(from.rank.index() + pawn_forward(color)) }
}

/// Whether the square at `to` lies diagonally ahead of `from` for a pawn of
/// the given side: one rank ahead, and one file to the left or to the right.
pub open spec fn is_diagonally_ahead(color: Color, from: Coordinate, to: Coordinate) -> bool {
    &&& to.rank.index() == from.rank.index() + pawn_forward(color)
    &&& (to.file.index() == from.file.index() - 1 || to.file.index() == from.file.index() + 1)
}

/// A pawn on its promotion rank that has an empty square ahead and no piece
/// on either square diagonally ahead has exactly four moves: the promotions
/// on the square ahead to queen, rook, bishop and knight, in that order. It
/// has no standard move. The square ahead lies on the last rank.
pub proof fn lemma_promotion_is_the_only_step(p: Position, from: Coordinate)
    requires
        from.rank == pawn_promotion_rank(p.active_color),
        p.board[square_ahead(p.active_color, from)].piece is None,
        forall|to: Coordinate| #[trigger]
            is_diagonally_ahead(p.active_color, from, to) ==> p.board[to].piece is None,
    ensures
        p.pawn_moves(from) == promotions(from, square_ahead(p.active_color, from)),
        forall|i: int|
            0 <= i < p.pawn_moves(from).len() ==> !(#[trigger] p.pawn_moves(from)[i]
                is Standard),
        square_ahead(p.active_color, from).rank == home_rank(p.active_color.opposite()),
{
    let fwd = pawn_forward(p.active_color);
    let left = from.moved(Direction::of(-1, fwd));
    let right = from.moved(Direction::of(1, fwd));
    if left is Ok {
        assert(is_diagonally_ahead(p.active_color, from, left->Ok_0));
    }
    if right is Ok {
        assert(is_diagonally_ahead(p.active_color, from, right->Ok_0));
    }
    assert(p.pawn_captures(from, -1) =~= Seq::<ChessMove>::empty());
    assert(p.pawn_captures(from, 1) =~= Seq::<ChessMove>::empty());
    assert(p.pawn_moves(from) =~= p.pawn_pushes(from));
}

/// A pawn on its start rank with an empty square ahead steps one square, and
/// two squares as well if the second square is empty too; if the second
/// square is occupied it steps one square only. The steps come first among
/// its moves, before the captures, and if no square diagonally ahead holds
/// a piece of the other side or is the en-passant square they are all its
/// moves.
pub proof fn lemma_double_step_from_start_rank(p: Position, from: Coordinate)
    requires
        from.rank == pawn_start_rank(p.active_color),
        p.board[square_ahead(p.active_color, from)].piece is None,
    ensures
        ({
            let one = square_ahead(p.active_color, from);
            let two = square_ahead(p.active_color, one);
            &&& p.board[two].piece is None ==> p.pawn_pushes(from) == seq![
                ChessMove::Standard { from, to: one },
                ChessMove::Standard { from, to: two },
            ]
            &&& p.board[two].piece is Some ==> p.pawn_pushes(from) == seq![
                ChessMove::Standard { from, to: one },
            ]
        }),
        p.pawn_moves(from) == p.pawn_pushes(from) + p.pawn_captures(from, -1) + p.pawn_captures(
            from,
            1,
        ),
        (forall|to: Coordinate| #[trigger]
            is_diagonally_ahead(p.active_color, from, to) ==> !p.board[to].holds_color(
                p.active_color.opposite(),
            ) && !p.board[to].is_en_passant_square) ==> p.pawn_moves(from) == p.pawn_pushes(from),
{
    let color = p.active_color;
    let fwd = pawn_forward(color);
    let ahead = Direction::of(0, fwd);
    let one = square_ahead(color, from);
    let two = square_ahead(color, one);
    assert(from.moved(ahead) == Ok::<Coordinate, BoardError>(one));
    assert(one.moved(ahead) == Ok::<Coordinate, BoardError>(two));
    if p.board[two].piece is None {
        assert(p.pawn_pushes(from) =~= seq![
            ChessMove::Standard { from, to: one },
            ChessMove::Standard { from, to: two },
        ]);
    } else {
        assert(p.pawn_pushes(from) =~= seq![ChessMove::Standard { from, to: one }]);
    }
    if forall|to: Coordinate| #[trigger]
        is_diagonally_ahead(color, from, to) ==> !p.board[to].holds_color(color.opposite())
            && !p.board[to].is_en_passant_square {
        let left = from.moved(Direction::of(-1, fwd));
        let right = from.moved(Direction::of(1, fwd));
        if left is Ok {
            assert(is_diagonally_ahead(color, from, left->Ok_0));
        }
        if right is Ok {
            assert(is_diagonally_ahead(color, from, right->Ok_0));
        }
        assert(p.pawn_captures(from, -1) =~= Seq::<ChessMove>::empty());
        assert(p.pawn_captures(from, 1) =~= Seq::<ChessMove>::empty());
        assert(p.pawn_moves(from) =~= p.pawn_pushes(from));
    }
}

/// Taking one step and then `k` more leads to the same square as taking
/// `k + 1` steps.
pub proof fn lemma_square_along_next(at: Coordinate, d: Direction, k: nat)
    requires
        at.moved(d) is Ok,
    ensures
        square_along(at, d, k + 1) == square_along(at.moved(d)->Ok_0, d, k),
{
}

/// The walk of a sliding piece that meets no piece before the edge of the
/// board gives a move onto every square up to the edge, nearest first, and
/// ends there: the square of the last move is the last one on the board in
/// that direction.
pub proof fn lemma_unobstructed_ray(p: Position, from: Coordinate, at: Coordinate, d: Direction)
    requires
        forall|k: nat|
            1 <= k <= steps_to_edge(at, d) ==> p.board[#[trigger] square_along(at, d, k)].piece
                is None,
    ensures
        p.ray_moves(from, at, d) == moves_along(from, at, d, steps_to_edge(at, d)),
        is_step(d) ==> square_along(at, d, steps_to_edge(at, d)).moved(d) is Err,
    decreases room(at, d),
{
    if is_step(d) {
        match at.moved(d) {
            Err(_) => {
                assert(p.ray_moves(from, at, d) =~= moves_along(from, at, d, 0));
            },
            Ok(next) => {
                let n = steps_to_edge(next, d);
                assert(square_along(at, d, 1) == square_along(next, d, 0));
                assert(p.board[next].piece is None);
                assert forall|k: nat| 1 <= k <= n implies p.board[#[trigger] square_along(
                    next,
                    d,
                    k,
                )].piece is None by {
                    lemma_square_along_next(at, d, k);
                    assert(p.board[square_along(at, d, k + 1)].piece is None);
                }
                lemma_unobstructed_ray(p, from, next, d);
                assert forall|k: int| 0 <= k < 1 + n implies (seq![
                    ChessMove::Standard { from, to: next },
                ] + moves_along(from, next, d, n))[k] == moves_along(from, at, d, 1 + n)[k] by {
                    if k > 0 {
                        lemma_square_along_next(at, d, k as nat);
                    }
                }
                assert(seq![ChessMove::Standard { from, to: next }] + moves_along(from, next, d, n)
                    =~= moves_along(from, at, d, 1 + n));
                lemma_square_along_next(at, d, n);
            },
        }
    } else {
        assert(p.ray_moves(from, at, d) =~= moves_along(from, at, d, 0));
    }
}

/// The walk of a sliding piece that meets its first piece on the `n`-th
/// square gives a move onto each of the `n - 1` empty squares before it,
/// nearest first. If the piece belongs to the other side, the capture on its
/// square follows; if it belongs to the same side, nothing follows. The walk
/// goes no further either way.
pub proof fn lemma_blocked_ray(
    p: Position,
    from: Coordinate,
    at: Coordinate,
    d: Direction,
    n: nat,
)
    requires
        1 <= n <= steps_to_edge(at, d),
        forall|k: nat| 1 <= k < n ==> p.board[#[trigger] square_along(at, d, k)].piece is None,
        p.board[square_along(at, d, n)].piece is Some,
    ensures
        p.board[square_along(at, d, n)].holds_color(p.active_color.opposite()) ==> p.ray_moves(
            from,
            at,
            d,
        ) == moves_along(from, at, d, n),
        p.board[square_along(at, d, n)].holds_color(p.active_color) ==> p.ray_moves(from, at, d)
            == moves_along(from, at, d, (n - 1) as nat),
    decreases n,
{
    let next = at.moved(d)->Ok_0;
    assert(is_step(d));
    assert(at.moved(d) is Ok);
    assert(square_along(at, d, 1) == square_along(next, d, 0));
    if n == 1 {
        assert(p.board[next].piece is Some);
        if p.board[next].holds_color(p.active_color.opposite()) {
            assert(p.ray_moves(from, at, d) =~= moves_along(from, at, d, 1));
        } else {
            assert(p.ray_moves(from, at, d) =~= moves_along(from, at, d, 0));
        }
    } else {
        let m = (n - 1) as nat;
        assert(p.board[square_along(at, d, 1)].piece is None);
        lemma_square_along_next(at, d, m);
        assert forall|k: nat| 1 <= k < m implies p.board[#[trigger] square_along(
            next,
            d,
            k,
        )].piece is None by {
            lemma_square_along_next(at, d, k);
            assert(p.board[square_along(at, d, k + 1)].piece is None);
        }
        lemma_blocked_ray(p, from, next, d, m);
        let head = seq![ChessMove::Standard { from, to: next }];
        assert forall|j: nat| 1 <= j <= n implies head + moves_along(from, next, d, (j - 1) as nat)
            =~= moves_along(from, at, d, j) by {
            assert forall|k: int| 0 <= k < j implies (head + moves_along(
                from,
                next,
                d,
                (j - 1) as nat,
            ))[k] == moves_along(from, at, d, j)[k] by {
                if k > 0 {
                    lemma_square_along_next(at, d, k as nat);
                }
            }
        }
        assert(head + moves_along(from, next, d, m) =~= moves_along(from, at, d, n));
        assert(head + moves_along(from, next, d, (m - 1) as nat) =~= moves_along(from, at, d, m));
    }
}

/// A sliding piece whose way is blocked two squares off, the square between
/// being empty, has exactly one move in that direction if the blocking piece
/// belongs to its own side: onto the empty square. If the blocking piece
/// belongs to the other side it has that move and then the capture on the
/// blocker's square, and nothing more.
pub proof fn lemma_blocked_two_squares_off(
    p: Position,
    from: Coordinate,
    d: Direction,
    one: Coordinate,
    two: Coordinate,
)
    requires
        is_step(d),
        from.moved(d) == Ok::<Coordinate, BoardError>(one),
        one.moved(d) == Ok::<Coordinate, BoardError>(two),
        p.board[one].piece is None,
        p.board[two].piece is Some,
    ensures
        p.board[two].holds_color(p.active_color) ==> p.ray_moves(from, from, d) == seq![
            ChessMove::Standard { from, to: one },
        ],
        p.board[two].holds_color(p.active_color.opposite()) ==> p.ray_moves(from, from, d) == seq![
            ChessMove::Standard { from, to: one },
            ChessMove::Standard { from, to: two },
        ],
{
    reveal_with_fuel(Position::ray_moves, 3);
    assert(p.board[two].holds_color(p.active_color) ==> p.ray_moves(from, from, d) =~= seq![
        ChessMove::Standard { from, to: one },
    ]);
    assert(p.board[two].holds_color(p.active_color.opposite()) ==> p.ray_moves(from, from, d)
        =~= seq![ChessMove::Standard { from, to: one }, ChessMove::Standard { from, to: two }]);
}

/// The moves of a sliding piece along several directions are the moves
/// along the first directions followed by those along the rest.
pub proof fn lemma_slide_moves_concat(
    p: Position,
    from: Coordinate,
    first: Seq<Direction>,
    rest: Seq<Direction>,
)
    ensures
        p.slide_moves(from, first + rest) == p.slide_moves(from, first) + p.slide_moves(from, rest),
{
    let all = Seq::new((first + rest).len(), |i: int| p.ray_moves(from, from, (first + rest)[i]));
    let a = Seq::new(first.len(), |i: int| p.ray_moves(from, from, first[i]));
    let b = Seq::new(rest.len(), |i: int| p.ray_moves(from, from, rest[i]));
    assert(all =~= a + b);
    vstd::seq_lib::lemma_flatten_concat(a, b);
}

/// The moves of a sliding piece along a single direction are the moves of
/// its walk in that direction.
pub proof fn lemma_slide_moves_single(p: Position, from: Coordinate, d: Direction)
    ensures
        p.slide_moves(from, seq![d]) == p.ray_moves(from, from, d),
{
    let per = Seq::new(seq![d].len(), |i: int| p.ray_moves(from, from, seq![d][i]));
    assert(per =~= Seq::<Seq<ChessMove>>::empty().push(p.ray_moves(from, from, d)));
    Seq::<Seq<ChessMove>>::empty().lemma_flatten_push(p.ray_moves(from, from, d));
    assert(Seq::<Seq<ChessMove>>::empty().flatten() =~= Seq::<ChessMove>::empty());
    assert(per.flatten() =~= p.ray_moves(from, from, d));
}

/// A rook's moves are its walks up, to the right, down and to the left, in
/// that order; a bishop's are its walks along the four diagonals, clockwise
/// from the upper right; a queen's are the rook's followed by the bishop's.
pub proof fn lemma_sliders_walk_their_directions(p: Position, from: Coordinate)
    ensures
        p.rook_moves(from) == p.ray_moves(from, from, Direction::of(0, 1)) + p.ray_moves(
            from,
            from,
            Direction::of(1, 0),
        ) + p.ray_moves(from, from, Direction::of(0, -1)) + p.ray_moves(
            from,
            from,
            Direction::of(-1, 0),
        ),
        p.bishop_moves(from) == p.ray_moves(from, from, Direction::of(1, 1)) + p.ray_moves(
            from,
            from,
            Direction::of(1, -1),
        ) + p.ray_moves(from, from, Direction::of(-1, -1)) + p.ray_moves(
            from,
            from,
            Direction::of(-1, 1),
        ),
        p.queen_moves(from) == p.rook_moves(from) + p.bishop_moves(from),
{
    lemma_slide_moves_concat(p, from, rook_directions(), bishop_directions());
    lemma_four_walks(p, from, rook_directions());
    lemma_four_walks(p, from, bishop_directions());
}

/// The moves of a sliding piece along four directions are its four walks,
/// one after the other.
pub proof fn lemma_four_walks(p: Position, from: Coordinate, directions: Seq<Direction>)
    requires
        directions.len() == 4,
    ensures
        p.slide_moves(from, directions) == p.ray_moves(from, from, directions[0]) + p.ray_moves(
            from,
            from,
            directions[1],
        ) + p.ray_moves(from, from, directions[2]) + p.ray_moves(from, from, directions[3]),
{
    let d = directions;
    assert(d =~= seq![d[0]] + seq![d[1]] + seq![d[2]] + seq![d[3]]);
    lemma_slide_moves_concat(p, from, seq![d[0]] + seq![d[1]] + seq![d[2]], seq![d[3]]);
    lemma_slide_moves_concat(p, from, seq![d[0]] + seq![d[1]], seq![d[2]]);
    lemma_slide_moves_concat(p, from, seq![d[0]], seq![d[1]]);
    lemma_slide_moves_single(p, from, d[0]);
    lemma_slide_moves_single(p, from, d[1]);
    lemma_slide_moves_single(p, from, d[2]);
    lemma_slide_moves_single(p, from, d[3]);
}

/// Whether the move `m` is a move of the piece that stands on `from`: a
/// castling move, which names no square, or a move that starts on `from`.
pub open spec fn starts_on(m: ChessMove, from: Coordinate) -> bool {
    match m {
        ChessMove::Standard { from: origin, .. } => origin == from,
        ChessMove::EnPassantCapture { from: origin } => origin == from,
        ChessMove::PawnPromotion { from: origin, .. } => origin == from,
        ChessMove::CastleKingside => true,
        ChessMove::CastleQueenside => true,
    }
}

/// Whether the move `m` leaves the pieces of the side to move alone: the
/// square that it names as its destination, if it names one, holds no piece
/// of that side.
pub open spec fn spares_own_side(p: Position, m: ChessMove) -> bool {
    match m {
        ChessMove::Standard { to, .. } => !p.board[to].holds_color(p.active_color),
        ChessMove::PawnPromotion { to, .. } => !p.board[to].holds_color(p.active_color),
        _ => true,
    }
}

/// A value occurs in the concatenation of several sequences exactly if it
/// occurs in one of them.
pub proof fn lemma_flatten_contains<A>(parts: Seq<Seq<A>>, x: A)
    ensures
        parts.flatten().contains(x) <==> exists|i: int|
            0 <= i < parts.len() && (#[trigger] parts[i]).contains(x),
    decreases parts.len(),
{
    if parts.len() == 0 {
        assert(parts.flatten() =~= Seq::<A>::empty());
    } else {
        let front = parts.drop_last();
        let last = parts.last();
        assert(parts =~= front.push(last));
        front.lemma_flatten_push(last);
        lemma_flatten_contains(front, x);
        let whole = front.flatten() + last;
        if whole.contains(x) {
            let j = choose|j: int| 0 <= j < whole.len() && whole[j] == x;
            if j < front.flatten().len() {
                assert(front.flatten()[j] == x);
                let i = choose|i: int| 0 <= i < front.len() && (#[trigger] front[i]).contains(x);
                assert(parts[i].contains(x));
            } else {
                assert(last[j - front.flatten().len()] == x);
                assert(parts[parts.len() - 1].contains(x));
            }
        }
        if exists|i: int| 0 <= i < parts.len() && (#[trigger] parts[i]).contains(x) {
            let i = choose|i: int| 0 <= i < parts.len() && (#[trigger] parts[i]).contains(x);
            if i < front.len() {
                assert(front[i].contains(x));
                let j = choose|j: int| 0 <= j < front.flatten().len() && front.flatten()[j] == x;
                assert(whole[j] == x);
            } else {
                let j = choose|j: int| 0 <= j < last.len() && last[j] == x;
                assert(whole[front.flatten().len() + j] == x);
            }
        }
    }
}

/// Every move of a walk starts on the square from which the piece set out
/// and ends on a square that holds no piece of its own side.
pub proof fn lemma_ray_moves_keep_the_rules(
    p: Position,
    from: Coordinate,
    at: Coordinate,
    d: Direction,
    m: ChessMove,
)
    requires
        p.ray_moves(from, at, d).contains(m),
    ensures
        starts_on(m, from),
        spares_own_side(p, m),
        m is Standard,
    decreases room(at, d),
{
    if is_step(d) {
        match at.moved(d) {
            Err(_) => {},
            Ok(to) => {
                let rest = p.ray_moves(from, to, d);
                let whole = p.ray_moves(from, at, d);
                let j = choose|j: int| 0 <= j < whole.len() && whole[j] == m;
                if p.board[to].piece is None {
                    if j > 0 {
                        assert(rest[j - 1] == m);
                        lemma_ray_moves_keep_the_rules(p, from, to, d, m);
                    }
                }
            },
        }
    }
}

/// Every pseudo-legal move that starts on a square is a move of the piece
/// that stands there, and none captures a piece of the side to move.
pub proof fn lemma_moves_keep_the_rules(p: Position, c: Coordinate, m: ChessMove)
    requires
        p.moves_from(c).contains(m),
    ensures
        starts_on(m, c),
        spares_own_side(p, m),
{
    let moves = p.moves_from(c);
    let j = choose|j: int| 0 <= j < moves.len() && moves[j] == m;
    match p.board[c].piece {
        None => {},
        Some(piece) => {
            if piece.color == p.active_color {
                match piece.piece_type {
                    PieceType::Pawn => {
                        lemma_pawn_moves_keep_the_rules(p, c, m);
                    },
                    PieceType::King => {
                        let steps = p.step_moves(c, king_offsets());
                        if j < steps.len() {
                            assert(steps[j] == m);
                            lemma_step_moves_keep_the_rules(p, c, king_offsets(), m);
                        } else {
                            assert(p.castling_moves()[j - steps.len()] == m);
                        }
                    },
                    PieceType::Knight => {
                        lemma_step_moves_keep_the_rules(p, c, knight_offsets(), m);
                    },
                    PieceType::Queen => {
                        lemma_slide_moves_keep_the_rules(
                            p,
                            c,
                            rook_directions() + bishop_directions(),
                            m,
                        );
                    },
                    PieceType::Bishop => {
                        lemma_slide_moves_keep_the_rules(p, c, bishop_directions(), m);
                    },
                    PieceType::Rook => {
                        lemma_slide_moves_keep_the_rules(p, c, rook_directions(), m);
                    },
                }
            }
        },
    }
}

/// Every step of a pawn straight ahead starts on the pawn's square and ends
/// on an empty square.
pub proof fn lemma_pawn_pushes_keep_the_rules(p: Position, from: Coordinate, m: ChessMove)
    requires
        p.pawn_pushes(from).contains(m),
    ensures
        starts_on(m, from),
        spares_own_side(p, m),
{
    let moves = p.pawn_pushes(from);
    let j = choose|j: int| 0 <= j < moves.len() && moves[j] == m;
    assert(moves[j] == m);
}

/// Every capture of a pawn starts on the pawn's square, and none lands on
/// a piece of the pawn's own side.
pub proof fn lemma_pawn_captures_keep_the_rules(
    p: Position,
    from: Coordinate,
    delta_file: int,
    m: ChessMove,
)
    requires
        p.pawn_captures(from, delta_file).contains(m),
    ensures
        starts_on(m, from),
        spares_own_side(p, m),
{
    let moves = p.pawn_captures(from, delta_file);
    let j = choose|j: int| 0 <= j < moves.len() && moves[j] == m;
    assert(moves[j] == m);
}

/// Every move of a pawn starts on the pawn's square, and none captures a
/// piece of the pawn's own side.
pub proof fn lemma_pawn_moves_keep_the_rules(p: Position, from: Coordinate, m: ChessMove)
    requires
        p.pawn_moves(from).contains(m),
    ensures
        starts_on(m, from),
        spares_own_side(p, m),
{
    let pushes = p.pawn_pushes(from);
    let left = p.pawn_captures(from, -1);
    let right = p.pawn_captures(from, 1);
    let moves = p.pawn_moves(from);
    let j = choose|j: int| 0 <= j < moves.len() && moves[j] == m;
    assert(pushes.contains(m) || left.contains(m) || right.contains(m)) by {
        if from.rank == pawn_promotion_rank(p.active_color) {
            if j < left.len() {
                assert(left[j] == m);
            } else if j < left.len() + right.len() {
                assert(right[j - left.len()] == m);
            } else {
                assert(pushes[j - left.len() - right.len()] == m);
            }
        } else {
            if j < pushes.len() {
                assert(pushes[j] == m);
            } else if j < pushes.len() + left.len() {
                assert(left[j - pushes.len()] == m);
            } else {
                assert(right[j - pushes.len() - left.len()] == m);
            }
        }
    }
    if pushes.contains(m) {
        lemma_pawn_pushes_keep_the_rules(p, from, m);
    } else if left.contains(m) {
        lemma_pawn_captures_keep_the_rules(p, from, -1, m);
    } else {
        lemma_pawn_captures_keep_the_rules(p, from, 1, m);
    }
}

/// Every move by a single jump starts on the square of the piece and ends
/// on a square that holds no piece of its own side.
pub proof fn lemma_step_moves_keep_the_rules(
    p: Position,
    from: Coordinate,
    offsets: Seq<Direction>,
    m: ChessMove,
)
    requires
        p.step_moves(from, offsets).contains(m),
    ensures
        starts_on(m, from),
        spares_own_side(p, m),
        m is Standard,
        exists|i: int|
            0 <= i < offsets.len() && from.moved(#[trigger] offsets[i]) is Ok && m
                == (ChessMove::Standard { from, to: from.moved(offsets[i])->Ok_0 }),
{
    let parts = Seq::new(offsets.len(), |i: int| p.step_move(from, offsets[i]));
    lemma_flatten_contains(parts, m);
    let i = choose|i: int| 0 <= i < parts.len() && (#[trigger] parts[i]).contains(m);
    let part = parts[i];
    let j = choose|j: int| 0 <= j < part.len() && part[j] == m;
    assert(part == p.step_move(from, offsets[i]));
    assert(from.moved(offsets[i]) is Ok && m == (ChessMove::Standard {
        from,
        to: from.moved(offsets[i])->Ok_0,
    }));
}

/// Every move of a sliding piece starts on the square of the piece and
/// ends on a square that holds no piece of its own side.
pub proof fn lemma_slide_moves_keep_the_rules(
    p: Position,
    from: Coordinate,
    directions: Seq<Direction>,
    m: ChessMove,
)
    requires
        p.slide_moves(from, directions).contains(m),
    ensures
        starts_on(m, from),
        spares_own_side(p, m),
        m is Standard,
{
    let parts = Seq::new(directions.len(), |i: int| p.ray_moves(from, from, directions[i]));
    lemma_flatten_contains(parts, m);
    let i = choose|i: int| 0 <= i < parts.len() && (#[trigger] parts[i]).contains(m);
    lemma_ray_moves_keep_the_rules(p, from, from, directions[i], m);
}

/// The pseudo-legal moves of a position are the moves that start on its
/// squares, and so each of them is a move of a piece of the side to move
/// that captures no piece of that side.
pub proof fn lemma_all_moves_keep_the_rules(p: Position, m: ChessMove)
    requires
        p.all_moves().contains(m),
    ensures
        spares_own_side(p, m),
        exists|k: int|
            0 <= k < 64 && (#[trigger] p.moves_from(scan_coordinate(k))).contains(m) && starts_on(
                m,
                scan_coordinate(k),
            ),
{
    let parts = p.moves_by_square();
    lemma_flatten_contains(parts, m);
    let k = choose|k: int| 0 <= k < parts.len() && (#[trigger] parts[k]).contains(m);
    assert(parts[k] == p.moves_from(scan_coordinate(k)));
    lemma_moves_keep_the_rules(p, scan_coordinate(k), m);
}

} // verus!
