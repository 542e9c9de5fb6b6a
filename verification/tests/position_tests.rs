use chess_position::board::{Coordinate, Direction, File, Rank};
use chess_position::chess_move::ChessMove;
use chess_position::color::Color;
use chess_position::piece::{Piece, PieceType};
use chess_position::position::Position;
use chess_position::GameState;

fn position(fen: &str) -> Position {
    GameState::try_from_fen(fen).unwrap().position
}

fn sq(name: &str) -> Coordinate {
    let files = [
        File::A,
        File::B,
        File::C,
        File::D,
        File::E,
        File::F,
        File::G,
        File::H,
    ];
    let ranks = [
        Rank::First,
        Rank::Second,
        Rank::Third,
        Rank::Fourth,
        Rank::Fifth,
        Rank::Sixth,
        Rank::Seventh,
        Rank::Eighth,
    ];
    let bytes = name.as_bytes();
    Coordinate::new(files[(bytes[0] - b'a') as usize], ranks[(bytes[1] - b'1') as usize])
}

fn step(from: &str, to: &str) -> ChessMove {
    ChessMove::Standard { from: sq(from), to: sq(to) }
}

fn steps(from: &str, to: &[&str]) -> Vec<ChessMove> {
    to.iter().map(|t| step(from, t)).collect()
}

fn promotions(from: &str, to: &str) -> Vec<ChessMove> {
    [PieceType::Queen, PieceType::Rook, PieceType::Bishop, PieceType::Knight]
        .into_iter()
        .map(|promotion_to| ChessMove::PawnPromotion { from: sq(from), to: sq(to), promotion_to })
        .collect()
}

#[test]
fn white_pawn_on_the_seventh_promotes() {
    for file in ["a", "b", "c", "d", "e", "f", "g", "h"] {
        let from = format!("{file}7");
        let to = format!("{file}8");
        let mut placement = String::from("8/");
        let index = (file.as_bytes()[0] - b'a') as usize;
        if index > 0 {
            placement.push_str(&format!("{index}"));
        }
        placement.push('P');
        if index < 7 {
            placement.push_str(&format!("{}", 7 - index));
        }
        placement.push_str("/8/8/8/8/8/8 w - - 0 1");
        let p = position(&placement);
        let moves = p.get_possible_pawn_moves(sq(&from));
        assert_eq!(moves, promotions(&from, &to));
        assert_eq!(moves.len(), 4);
        assert!(moves.iter().all(|m| !matches!(m, ChessMove::Standard { .. })));
        assert_eq!(p.get_possible_moves(), moves);
    }
}

#[test]
fn promoting_pawn_captures_first() {
    let p = position("3rnb2/4P3/8/8/8/8/8/8 w - - 0 1");
    let mut expected = promotions("e7", "d8");
    expected.extend(promotions("e7", "f8"));
    assert_eq!(p.get_possible_pawn_moves(sq("e7")), expected);

    let p = position("3r1b2/4P3/8/8/8/8/8/8 w - - 0 1");
    let mut expected = promotions("e7", "d8");
    expected.extend(promotions("e7", "f8"));
    expected.extend(promotions("e7", "e8"));
    assert_eq!(p.get_possible_pawn_moves(sq("e7")), expected);

    let p = position("3RnB2/4P3/8/8/8/8/8/8 w - - 0 1");
    assert_eq!(p.get_possible_pawn_moves(sq("e7")), vec![]);
}

#[test]
fn black_pawn_promotes_on_the_first_rank() {
    let p = position("8/8/8/8/8/8/p7/1N6 b - - 0 1");
    let mut expected = promotions("a2", "b1");
    expected.extend(promotions("a2", "a1"));
    assert_eq!(p.get_possible_pawn_moves(sq("a2")), expected);
}

#[test]
fn white_pawn_on_its_start_rank_steps_once_or_twice() {
    let p = position("8/8/8/8/8/8/4P3/8 w - - 0 1");
    assert_eq!(p.get_possible_pawn_moves(sq("e2")), steps("e2", &["e3", "e4"]));

    let p = position("8/8/8/8/4p3/8/4P3/8 w - - 0 1");
    assert_eq!(p.get_possible_pawn_moves(sq("e2")), steps("e2", &["e3"]));

    let p = position("8/8/8/8/4N3/8/4P3/8 w - - 0 1");
    assert_eq!(p.get_possible_pawn_moves(sq("e2")), steps("e2", &["e3"]));

    let p = position("8/8/8/8/8/4p3/4P3/8 w - - 0 1");
    assert_eq!(p.get_possible_pawn_moves(sq("e2")), vec![]);
}

#[test]
fn pawn_off_its_start_rank_steps_once() {
    let p = position("8/8/8/8/8/4P3/8/8 w - - 0 1");
    assert_eq!(p.get_possible_pawn_moves(sq("e3")), steps("e3", &["e4"]));
    let p = position("8/8/4p3/8/8/8/8/8 b - - 0 1");
    assert_eq!(p.get_possible_pawn_moves(sq("e6")), steps("e6", &["e5"]));
}

#[test]
fn black_pawn_moves_down_the_board() {
    let p = position("8/4p3/8/8/8/8/8/8 b - - 0 1");
    assert_eq!(p.get_possible_pawn_moves(sq("e7")), steps("e7", &["e6", "e5"]));
    let p = position("8/4p3/3P1P2/8/8/8/8/8 b - - 0 1");
    assert_eq!(p.get_possible_pawn_moves(sq("e7")), steps("e7", &["e6", "e5", "d6", "f6"]));
}

#[test]
fn pawn_captures_only_the_other_side() {
    let p = position("8/8/8/8/8/3p1N2/4P3/8 w - - 0 1");
    assert_eq!(p.get_possible_pawn_moves(sq("e2")), steps("e2", &["e3", "e4", "d3"]));
    let p = position("8/8/8/8/8/3ppp2/4P3/8 w - - 0 1");
    assert_eq!(p.get_possible_pawn_moves(sq("e2")), steps("e2", &["d3", "f3"]));
}

#[test]
fn pawn_on_the_edge_file_skips_the_missing_diagonal() {
    let p = position("8/8/8/8/8/1p6/P7/8 w - - 0 1");
    assert_eq!(p.get_possible_pawn_moves(sq("a2")), steps("a2", &["a3", "a4", "b3"]));
    let p = position("8/8/8/8/8/6p1/7P/8 w - - 0 1");
    assert_eq!(p.get_possible_pawn_moves(sq("h2")), steps("h2", &["h3", "h4", "g3"]));
}

#[test]
fn pawn_on_the_last_rank_has_no_move() {
    let p = position("P7/8/8/8/8/8/8/7P w - - 0 1");
    assert_eq!(p.get_possible_pawn_moves(sq("a8")), vec![]);
    let p = position("8/8/8/8/8/8/8/p7 b - - 0 1");
    assert_eq!(p.get_possible_pawn_moves(sq("a1")), vec![]);
}

#[test]
fn en_passant_capture_follows_the_flag() {
    let p = position("8/8/8/3pP3/8/8/8/8 w - d6 0 1");
    assert_eq!(
        p.get_possible_pawn_moves(sq("e5")),
        vec![step("e5", "e6"), ChessMove::EnPassantCapture { from: sq("e5") }]
    );
    let p = position("8/8/8/4Pp2/8/8/8/8 w - f6 0 1");
    assert_eq!(
        p.get_possible_pawn_moves(sq("e5")),
        vec![step("e5", "e6"), ChessMove::EnPassantCapture { from: sq("e5") }]
    );
    let p = position("8/8/8/8/3pP3/8/8/8 b - e3 0 1");
    assert_eq!(
        p.get_possible_pawn_moves(sq("d4")),
        vec![step("d4", "d3"), ChessMove::EnPassantCapture { from: sq("d4") }]
    );
    let p = position("8/8/8/3pP3/8/8/8/8 w - - 0 1");
    assert_eq!(p.get_possible_pawn_moves(sq("e5")), steps("e5", &["e6"]));
    let p = position("8/8/8/3pP3/8/8/8/8 w - c6 0 1");
    assert_eq!(p.get_possible_pawn_moves(sq("e5")), steps("e5", &["e6"]));
}

#[test]
fn en_passant_is_not_a_promotion() {
    let p = position("8/4P3/8/8/8/8/8/8 w - d8 0 1");
    assert_eq!(p.get_possible_pawn_moves(sq("e7")), promotions("e7", "e8"));
}

#[test]
fn rook_walks_to_the_edge() {
    let p = position("8/8/8/8/8/8/8/R7 w - - 0 1");
    let mut expected = steps("a1", &["a2", "a3", "a4", "a5", "a6", "a7", "a8"]);
    expected.extend(steps("a1", &["b1", "c1", "d1", "e1", "f1", "g1", "h1"]));
    assert_eq!(p.get_possible_rook_moves(sq("a1")), expected);

    let p = position("8/8/8/3R4/8/8/8/8 w - - 0 1");
    let mut expected = steps("d5", &["d6", "d7", "d8"]);
    expected.extend(steps("d5", &["e5", "f5", "g5", "h5"]));
    expected.extend(steps("d5", &["d4", "d3", "d2", "d1"]));
    expected.extend(steps("d5", &["c5", "b5", "a5"]));
    assert_eq!(p.get_possible_rook_moves(sq("d5")), expected);
    assert_eq!(p.get_possible_moves(), expected);
}

#[test]
fn bishop_walks_to_the_edge() {
    let p = position("8/8/8/8/8/8/8/B7 w - - 0 1");
    assert_eq!(
        p.get_possible_bishop_moves(sq("a1")),
        steps("a1", &["b2", "c3", "d4", "e5", "f6", "g7", "h8"])
    );
    let p = position("8/8/8/8/2B5/8/8/8 w - - 0 1");
    let mut expected = steps("c4", &["d5", "e6", "f7", "g8"]);
    expected.extend(steps("c4", &["d3", "e2", "f1"]));
    expected.extend(steps("c4", &["b3", "a2"]));
    expected.extend(steps("c4", &["b5", "a6"]));
    assert_eq!(p.get_possible_bishop_moves(sq("c4")), expected);
}

#[test]
fn queen_walks_like_rook_then_bishop() {
    let p = position("8/8/8/8/8/8/1Q6/8 w - - 0 1");
    let from = sq("b2");
    let mut expected = p.get_possible_rook_moves(from);
    expected.extend(p.get_possible_bishop_moves(from));
    assert_eq!(p.get_possible_queen_moves(from), expected);
    assert_eq!(expected.len(), 23);
    assert_eq!(expected[0], step("b2", "b3"));
    assert_eq!(expected[22], step("b2", "a3"));
}

#[test]
fn slider_stops_before_its_own_piece() {
    let p = position("8/8/8/8/8/N7/8/R7 w - - 0 1");
    let mut expected = steps("a1", &["a2"]);
    expected.extend(steps("a1", &["b1", "c1", "d1", "e1", "f1", "g1", "h1"]));
    assert_eq!(p.get_possible_rook_moves(sq("a1")), expected);

    let mut moves = Vec::new();
    p.add_ray_moves(sq("a1"), Direction::up(), &mut moves);
    assert_eq!(moves, steps("a1", &["a2"]));

    let p = position("8/8/8/8/8/2P5/8/B7 w - - 0 1");
    assert_eq!(p.get_possible_bishop_moves(sq("a1")), steps("a1", &["b2"]));
    assert_eq!(p.get_possible_queen_moves(sq("a1")).len(), 7 + 7 + 1);
}

#[test]
fn slider_captures_the_other_side_and_stops() {
    let p = position("8/8/8/8/8/n7/8/R7 w - - 0 1");
    let mut moves = Vec::new();
    p.add_ray_moves(sq("a1"), Direction::up(), &mut moves);
    assert_eq!(moves, steps("a1", &["a2", "a3"]));

    let p = position("8/8/8/8/8/2p5/8/B7 w - - 0 1");
    assert_eq!(p.get_possible_bishop_moves(sq("a1")), steps("a1", &["b2", "c3"]));

    let p = position("8/8/8/8/8/8/n7/R7 w - - 0 1");
    let mut moves = Vec::new();
    p.add_ray_moves(sq("a1"), Direction::up(), &mut moves);
    assert_eq!(moves, steps("a1", &["a2"]));

    let p = position("8/8/8/8/8/8/N7/R7 w - - 0 1");
    let mut moves = Vec::new();
    p.add_ray_moves(sq("a1"), Direction::up(), &mut moves);
    assert_eq!(moves, vec![]);
}

#[test]
fn ray_keeps_what_was_there_and_ignores_a_still_direction() {
    let p = position("8/8/8/8/8/8/8/R7 w - - 0 1");
    let mut moves = vec![ChessMove::CastleKingside];
    p.add_ray_moves(sq("a1"), Direction::new(0, 0), &mut moves);
    assert_eq!(moves, vec![ChessMove::CastleKingside]);
    p.add_ray_moves(sq("a1"), Direction::new(3, 2), &mut moves);
    assert_eq!(moves, vec![ChessMove::CastleKingside, step("a1", "d3"), step("a1", "g5")]);
    p.add_ray_moves(sq("a1"), Direction::new(-128, 127), &mut moves);
    assert_eq!(moves.len(), 3);
}

#[test]
fn knight_jumps_clockwise() {
    let p = position("8/8/8/8/3N4/8/8/8 w - - 0 1");
    assert_eq!(
        p.get_possible_knight_moves(sq("d4")),
        steps("d4", &["e6", "f5", "f3", "e2", "c2", "b3", "b5", "c6"])
    );
    let p = position("8/8/8/8/8/8/8/N7 w - - 0 1");
    assert_eq!(p.get_possible_knight_moves(sq("a1")), steps("a1", &["b3", "c2"]));
    let p = position("7N/8/8/8/8/8/8/8 w - - 0 1");
    assert_eq!(p.get_possible_knight_moves(sq("h8")), steps("h8", &["g6", "f7"]));
}

#[test]
fn knight_skips_its_own_side_and_takes_the_other() {
    let p = position("8/8/8/8/8/1P6/2p5/N7 w - - 0 1");
    assert_eq!(p.get_possible_knight_moves(sq("a1")), steps("a1", &["c2"]));
}

#[test]
fn king_steps_clockwise() {
    let p = position("8/8/8/8/3K4/8/8/8 w - - 0 1");
    assert_eq!(
        p.get_possible_king_moves(sq("d4")),
        steps("d4", &["d5", "e5", "e4", "e3", "d3", "c3", "c4", "c5"])
    );
    let p = position("8/8/8/8/8/8/8/K7 w - - 0 1");
    assert_eq!(p.get_possible_king_moves(sq("a1")), steps("a1", &["a2", "b2", "b1"]));
    let p = position("8/8/8/8/8/8/Pp6/K7 w - - 0 1");
    assert_eq!(p.get_possible_king_moves(sq("a1")), steps("a1", &["b2", "b1"]));
}

#[test]
fn king_castles_when_the_way_is_free() {
    let p = position("r3k2r/8/8/8/8/8/8/R3K2R w KQkq - 0 1");
    assert!(p.current_player_can_castle_kingside());
    assert!(p.current_player_can_castle_queenside());
    let mut expected = steps("e1", &["e2", "f2", "f1", "d1", "d2"]);
    expected.push(ChessMove::CastleKingside);
    expected.push(ChessMove::CastleQueenside);
    assert_eq!(p.get_possible_king_moves(sq("e1")), expected);

    let p = position("r3k2r/8/8/8/8/8/8/R3K2R b KQkq - 0 1");
    assert!(p.current_player_can_castle_kingside());
    assert!(p.current_player_can_castle_queenside());
    let mut expected = steps("e8", &["f8", "f7", "e7", "d7", "d8"]);
    expected.push(ChessMove::CastleKingside);
    expected.push(ChessMove::CastleQueenside);
    assert_eq!(p.get_possible_king_moves(sq("e8")), expected);
}

#[test]
fn castling_needs_the_right() {
    let p = position("r3k2r/8/8/8/8/8/8/R3K2R w Qk - 0 1");
    assert!(!p.current_player_can_castle_kingside());
    assert!(p.current_player_can_castle_queenside());
    let p = position("r3k2r/8/8/8/8/8/8/R3K2R b Qk - 0 1");
    assert!(p.current_player_can_castle_kingside());
    assert!(!p.current_player_can_castle_queenside());
    let p = position("r3k2r/8/8/8/8/8/8/R3K2R w - - 0 1");
    assert!(!p.current_player_can_castle_kingside());
    assert!(!p.current_player_can_castle_queenside());
    assert_eq!(
        p.get_possible_king_moves(sq("e1")),
        steps("e1", &["e2", "f2", "f1", "d1", "d2"])
    );
}

#[test]
fn castling_needs_empty_squares() {
    for (fen, kingside, queenside) in [
        ("8/8/8/8/8/8/8/R3KB1R w KQ - 0 1", false, true),
        ("8/8/8/8/8/8/8/R3K1nR w KQ - 0 1", false, true),
        ("8/8/8/8/8/8/8/R2QK2R w KQ - 0 1", true, false),
        ("8/8/8/8/8/8/8/R1b1K2R w KQ - 0 1", true, false),
        ("8/8/8/8/8/8/8/RN2K2R w KQ - 0 1", true, false),
        ("rn2k1nr/8/8/8/8/8/8/8 b kq - 0 1", false, false),
    ] {
        let p = position(fen);
        assert_eq!(p.current_player_can_castle_kingside(), kingside, "{fen}");
        assert_eq!(p.current_player_can_castle_queenside(), queenside, "{fen}");
    }
}

#[test]
fn castling_needs_squares_that_are_not_attacked() {
    let fen = "r3k2r/8/8/8/8/8/8/R3K2R w KQkq - 0 1";
    for (square, kingside, queenside) in [
        ("f1", false, true),
        ("g1", false, true),
        ("d1", true, false),
        ("c1", true, false),
        ("b1", true, false),
        ("e1", true, true),
        ("a1", true, true),
        ("h1", true, true),
        ("f8", true, true),
    ] {
        let mut p = position(fen);
        p.board[sq(square)].is_attacked_by_black = true;
        assert_eq!(p.current_player_can_castle_kingside(), kingside, "{square}");
        assert_eq!(p.current_player_can_castle_queenside(), queenside, "{square}");

        let mut p = position(fen);
        p.board[sq(square)].is_attacked_by_white = true;
        assert!(p.current_player_can_castle_kingside());
        assert!(p.current_player_can_castle_queenside());
    }
    let mut p = position("r3k2r/8/8/8/8/8/8/R3K2R b KQkq - 0 1");
    p.board[sq("g8")].is_attacked_by_white = true;
    p.board[sq("c8")].is_attacked_by_black = true;
    assert!(!p.current_player_can_castle_kingside());
    assert!(p.current_player_can_castle_queenside());
}

#[test]
fn start_position_has_twenty_moves() {
    let p = GameState::new().position;
    let mut expected = Vec::new();
    expected.extend(steps("a2", &["a3", "a4"]));
    expected.extend(steps("b1", &["c3", "a3"]));
    expected.extend(steps("b2", &["b3", "b4"]));
    expected.extend(steps("c2", &["c3", "c4"]));
    expected.extend(steps("d2", &["d3", "d4"]));
    expected.extend(steps("e2", &["e3", "e4"]));
    expected.extend(steps("f2", &["f3", "f4"]));
    expected.extend(steps("g1", &["h3", "f3"]));
    expected.extend(steps("g2", &["g3", "g4"]));
    expected.extend(steps("h2", &["h3", "h4"]));
    assert_eq!(p.get_possible_moves(), expected);
}

#[test]
fn black_to_move_in_the_start_position() {
    let p = position("rnbqkbnr/pppppppp/8/8/8/8/PPPPPPPP/RNBQKBNR b KQkq - 0 1");
    let mut expected = Vec::new();
    expected.extend(steps("a7", &["a6", "a5"]));
    expected.extend(steps("b7", &["b6", "b5"]));
    expected.extend(steps("b8", &["c6", "a6"]));
    expected.extend(steps("c7", &["c6", "c5"]));
    expected.extend(steps("d7", &["d6", "d5"]));
    expected.extend(steps("e7", &["e6", "e5"]));
    expected.extend(steps("f7", &["f6", "f5"]));
    expected.extend(steps("g7", &["g6", "g5"]));
    expected.extend(steps("g8", &["h6", "f6"]));
    expected.extend(steps("h7", &["h6", "h5"]));
    assert_eq!(p.get_possible_moves(), expected);
}

#[test]
fn moves_are_grouped_by_square_in_scan_order() {
    let p = position("4rk2/PR4pp/2R2p2/8/1P6/7P/5BK1/8 w - - 0 1");
    let mut expected = Vec::new();
    for file in ["a", "b", "c", "d", "e", "f", "g", "h"] {
        for rank in ["1", "2", "3", "4", "5", "6", "7", "8"] {
            expected.extend(p.get_moves_from(sq(&format!("{file}{rank}"))));
        }
    }
    assert_eq!(p.get_possible_moves(), expected);
    assert_eq!(p.get_moves_from(sq("a7")), promotions("a7", "a8"));
    assert_eq!(p.get_moves_from(sq("e8")), vec![]);
    assert_eq!(p.get_moves_from(sq("a1")), vec![]);
    assert_eq!(p.get_moves_from(sq("h3")), steps("h3", &["h4"]));
}

#[test]
fn empty_board_has_no_moves() {
    let p = position("8/8/8/8/8/8/8/8 w KQkq - 0 1");
    assert_eq!(p.get_possible_moves(), vec![]);
}

#[test]
fn generators_use_the_side_to_move() {
    let p = position("8/8/8/8/8/8/8/8 w - - 0 1");
    assert_eq!(p.get_possible_pawn_moves(sq("c3")), steps("c3", &["c4"]));
    let p = position("8/8/8/8/8/8/8/8 b - - 0 1");
    assert_eq!(p.get_possible_pawn_moves(sq("c3")), steps("c3", &["c2"]));
}

#[test]
fn new_position_holds_what_it_was_given() {
    let mut board = chess_position::board::Board::new_empty();
    board[sq("e4")].set_piece(Piece { piece_type: PieceType::Queen, color: Color::Black });
    let rights = GameState::parse_castling_rights("Kq").unwrap();
    let p = Position::new(board, Color::Black, rights);
    assert_eq!(p.active_color, Color::Black);
    assert_eq!(p.castling_rights, rights);
    assert_eq!(
        p.board[sq("e4")].get_piece(),
        Some(Piece { piece_type: PieceType::Queen, color: Color::Black })
    );
    assert_eq!(p.get_possible_moves().len(), 27);
}
