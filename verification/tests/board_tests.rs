use chess_position::board::{Board, BoardError, Coordinate, Direction, File, Rank, Square};
use chess_position::castling_rights::{CastlingRights, CastlingRightsForColor};
use chess_position::color::Color;
use chess_position::piece::{Piece, PieceType};

const FILES: [File; 8] = [
    File::A,
    File::B,
    File::C,
    File::D,
    File::E,
    File::F,
    File::G,
    File::H,
];

const RANKS: [Rank; 8] = [
    Rank::First,
    Rank::Second,
    Rank::Third,
    Rank::Fourth,
    Rank::Fifth,
    Rank::Sixth,
    Rank::Seventh,
    Rank::Eighth,
];

#[test]
fn test_moving_coordinate() {
    let mut coordinate = Coordinate::new(File::A, Rank::First);
    coordinate = coordinate.try_moving(Direction::new(1, 0)).unwrap();
    assert_eq!(coordinate, Coordinate::new(File::B, Rank::First));
}

#[test]
fn file_shift_over_every_delta() {
    for (i, file) in FILES.into_iter().enumerate() {
        assert_eq!(file.to_index(), i as i8);
        for delta in i8::MIN..=i8::MAX {
            let target = i as i32 + delta as i32;
            let expected = if (0..=7).contains(&target) {
                Ok(FILES[target as usize])
            } else {
                Err(BoardError::FileOutOfBounds)
            };
            assert_eq!(file.try_moving(delta), expected);
        }
    }
}

#[test]
fn rank_shift_over_every_delta() {
    for (i, rank) in RANKS.into_iter().enumerate() {
        assert_eq!(rank.to_index(), i as i8);
        for delta in i8::MIN..=i8::MAX {
            let target = i as i32 + delta as i32;
            let expected = if (0..=7).contains(&target) {
                Ok(RANKS[target as usize])
            } else {
                Err(BoardError::RankOutOfBounds)
            };
            assert_eq!(rank.try_moving(delta), expected);
        }
    }
}

#[test]
fn axis_conversion_accepts_zero_to_seven() {
    for value in i8::MIN..=i8::MAX {
        if (0..=7).contains(&value) {
            assert_eq!(File::try_from(value), Ok(FILES[value as usize]));
            assert_eq!(Rank::try_from(value), Ok(RANKS[value as usize]));
        } else {
            assert_eq!(File::try_from(value), Err(BoardError::FileOutOfBounds));
            assert_eq!(Rank::try_from(value), Err(BoardError::RankOutOfBounds));
        }
    }
}

#[test]
fn coordinate_move_is_atomic() {
    let h1 = Coordinate::new(File::H, Rank::First);
    assert_eq!(h1.try_moving(Direction::new(-1, -1)), Err(BoardError::RankOutOfBounds));
    assert_eq!(h1.try_moving(Direction::new(0, 8)), Err(BoardError::RankOutOfBounds));
    assert_eq!(h1.try_moving(Direction::new(1, 1)), Err(BoardError::FileOutOfBounds));
    assert_eq!(h1.try_moving(Direction::new(1, -1)), Err(BoardError::FileOutOfBounds));
    assert_eq!(h1.try_moving(Direction::new(127, 127)), Err(BoardError::FileOutOfBounds));
    assert_eq!(h1.try_moving(Direction::new(-128, -128)), Err(BoardError::FileOutOfBounds));
    assert_eq!(
        h1.try_moving(Direction::new(-7, 7)),
        Ok(Coordinate::new(File::A, Rank::Eighth))
    );
    assert_eq!(h1.try_moving(Direction::new(0, 0)), Ok(h1));
}

#[test]
fn coordinate_move_everywhere() {
    for (f, file) in FILES.into_iter().enumerate() {
        for (r, rank) in RANKS.into_iter().enumerate() {
            let c = Coordinate::new(file, rank);
            assert_eq!(c.get_file(), file);
            assert_eq!(c.get_rank(), rank);
            for df in -9i8..=9 {
                for dr in -9i8..=9 {
                    let tf = f as i32 + df as i32;
                    let tr = r as i32 + dr as i32;
                    let expected = if !(0..=7).contains(&tf) {
                        Err(BoardError::FileOutOfBounds)
                    } else if !(0..=7).contains(&tr) {
                        Err(BoardError::RankOutOfBounds)
                    } else {
                        Ok(Coordinate::new(FILES[tf as usize], RANKS[tr as usize]))
                    };
                    assert_eq!(c.try_moving(Direction::new(df, dr)), expected);
                }
            }
        }
    }
}

#[test]
fn compass_directions() {
    assert_eq!(Direction::up(), Direction::new(0, 1));
    assert_eq!(Direction::down(), Direction::new(0, -1));
    assert_eq!(Direction::left(), Direction::new(-1, 0));
    assert_eq!(Direction::right(), Direction::new(1, 0));
    assert_eq!(Direction::upper_left(), Direction::new(-1, 1));
    assert_eq!(Direction::upper_right(), Direction::new(1, 1));
    assert_eq!(Direction::lower_left(), Direction::new(-1, -1));
    assert_eq!(Direction::lower_right(), Direction::new(1, -1));
    let d = Direction::new(-3, 5);
    assert_eq!(d.delta_file, -3);
    assert_eq!(d.delta_rank, 5);
}

#[test]
fn empty_board_is_empty_everywhere() {
    let board = Board::new_empty();
    for file in FILES {
        for rank in RANKS {
            let square = board[Coordinate::new(file, rank)];
            assert_eq!(square, Square::new_empty());
            assert!(square.is_empty());
            assert_eq!(square.get_piece(), None);
            assert!(!square.has_piece_of_color(Color::White));
            assert!(!square.has_piece_of_color(Color::Black));
            assert!(!square.is_attacked_by(Color::White));
            assert!(!square.is_attacked_by(Color::Black));
            assert!(!square.is_en_passant_square);
        }
    }
}

#[test]
fn writing_one_square_leaves_the_others() {
    let piece = Piece { piece_type: PieceType::Knight, color: Color::Black };
    for file in FILES {
        for rank in RANKS {
            let mut board = Board::new_empty();
            let target = Coordinate::new(file, rank);
            board[target].set_piece(piece);
            for file2 in FILES {
                for rank2 in RANKS {
                    let c = Coordinate::new(file2, rank2);
                    if c == target {
                        assert_eq!(board[c].get_piece(), Some(piece));
                    } else {
                        assert_eq!(board[c], Square::new_empty());
                    }
                }
            }
        }
    }
}

#[test]
fn square_setters_change_one_thing() {
    let knight = Piece { piece_type: PieceType::Knight, color: Color::Black };
    let mut square = Square::new_empty();
    square.is_attacked_by_white = true;
    square.set_piece(knight);
    assert_eq!(
        square,
        Square {
            piece: Some(knight),
            is_en_passant_square: false,
            is_attacked_by_white: true,
            is_attacked_by_black: false,
        }
    );
    assert!(!square.is_empty());
    assert!(square.has_piece_of_color(Color::Black));
    assert!(!square.has_piece_of_color(Color::White));
    assert!(square.is_attacked_by(Color::White));
    assert!(!square.is_attacked_by(Color::Black));
    square.set_en_passant();
    assert_eq!(
        square,
        Square {
            piece: Some(knight),
            is_en_passant_square: true,
            is_attacked_by_white: true,
            is_attacked_by_black: false,
        }
    );
    square.clear_piece();
    assert_eq!(
        square,
        Square {
            piece: None,
            is_en_passant_square: true,
            is_attacked_by_white: true,
            is_attacked_by_black: false,
        }
    );
    assert!(square.is_empty());
    assert!(!square.has_piece_of_color(Color::Black));
}

#[test]
fn square_symbols() {
    let kinds = [
        (PieceType::Pawn, "P", "p"),
        (PieceType::King, "K", "k"),
        (PieceType::Queen, "Q", "q"),
        (PieceType::Bishop, "B", "b"),
        (PieceType::Knight, "N", "n"),
        (PieceType::Rook, "R", "r"),
    ];
    for (piece_type, white, black) in kinds {
        let mut square = Square::new_empty();
        square.set_piece(Piece { piece_type, color: Color::White });
        assert_eq!(square.to_string(), white);
        assert_eq!(square.as_str(), white);
        square.set_piece(Piece { piece_type, color: Color::Black });
        assert_eq!(square.to_string(), black);
        square.set_en_passant();
        assert_eq!(square.to_string(), black);
    }
    let mut square = Square::new_empty();
    assert_eq!(square.to_string(), " ");
    square.set_en_passant();
    assert_eq!(square.to_string(), "*");
}

#[test]
fn colors() {
    assert_eq!(Color::White.get_opposite(), Color::Black);
    assert_eq!(Color::Black.get_opposite(), Color::White);
    assert_eq!(Color::White.to_string(), "white");
    assert_eq!(Color::Black.to_string(), "black");
    assert_eq!(Color::White.as_str(), "white");
}

#[test]
fn pieces() {
    let piece = Piece { piece_type: PieceType::Bishop, color: Color::White };
    assert_eq!(piece.get_type(), PieceType::Bishop);
    assert_eq!(piece.get_color(), Color::White);
}

#[test]
fn castling_rights_by_color() {
    let mut rights = CastlingRights::new_assuming_all_false();
    for color in [Color::White, Color::Black] {
        assert_eq!(rights[color], CastlingRightsForColor { kingside: false, queenside: false });
    }
    rights[Color::Black].queenside = true;
    assert_eq!(
        rights[Color::Black],
        CastlingRightsForColor { kingside: false, queenside: true }
    );
    assert_eq!(
        rights[Color::White],
        CastlingRightsForColor { kingside: false, queenside: false }
    );
    rights[Color::White].kingside = true;
    assert_eq!(rights.white_castling_rights.kingside, true);
    assert_eq!(rights.black_castling_rights.kingside, false);
}

#[test]
fn castling_rights_in_words() {
    let words = |kingside, queenside| CastlingRightsForColor { kingside, queenside }.to_string();
    assert_eq!(words(true, true), "kingside, queenside");
    assert_eq!(words(true, false), "kingside");
    assert_eq!(words(false, true), "queenside");
    assert_eq!(words(false, false), "none");
}
