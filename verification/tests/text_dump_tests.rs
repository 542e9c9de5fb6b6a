use chess_position::GameState;

const BORDER: &str = "+---+---+---+---+---+---+---+---+\n";

#[test]
fn dump_of_the_start_position() {
    let expected = [
        BORDER,
        "| r | n | b | q | k | b | n | r |\n",
        BORDER,
        "| p | p | p | p | p | p | p | p |\n",
        BORDER,
        "|   |   |   |   |   |   |   |   |\n",
        BORDER,
        "|   |   |   |   |   |   |   |   |\n",
        BORDER,
        "|   |   |   |   |   |   |   |   |\n",
        BORDER,
        "|   |   |   |   |   |   |   |   |\n",
        BORDER,
        "| P | P | P | P | P | P | P | P |\n",
        BORDER,
        "| R | N | B | Q | K | B | N | R |\n",
        BORDER,
        "white to move.\n",
        "White castling rights: kingside, queenside.\n",
        "Black castling rights: kingside, queenside.\n",
    ]
    .concat();
    let state = GameState::new();
    assert_eq!(state.position.to_string(), expected);
    assert_eq!(
        state.to_string(),
        format!(
            "{expected}Current move number: 1\nPlies since last capture/pawn move: 0\n"
        )
    );
}

#[test]
fn dump_shows_the_en_passant_square_and_the_rights() {
    let state = GameState::try_from_fen("4rk2/PR4pp/2R2p2/8/1P6/7P/5BK1/8 b Qk b3 17 142").unwrap();
    let expected = [
        BORDER,
        "|   |   |   |   | r | k |   |   |\n",
        BORDER,
        "| P | R |   |   |   |   | p | p |\n",
        BORDER,
        "|   |   | R |   |   | p |   |   |\n",
        BORDER,
        "|   |   |   |   |   |   |   |   |\n",
        BORDER,
        "|   | P |   |   |   |   |   |   |\n",
        BORDER,
        "|   | * |   |   |   |   |   | P |\n",
        BORDER,
        "|   |   |   |   |   | B | K |   |\n",
        BORDER,
        "|   |   |   |   |   |   |   |   |\n",
        BORDER,
        "black to move.\n",
        "White castling rights: queenside.\n",
        "Black castling rights: kingside.\n",
        "Current move number: 142\n",
        "Plies since last capture/pawn move: 17\n",
    ]
    .concat();
    assert_eq!(state.to_string(), expected);
}

#[test]
fn dump_hides_the_en_passant_mark_under_a_piece() {
    let state = GameState::try_from_fen("8/8/8/8/8/1n6/8/8 w - b3 0 9").unwrap();
    let text = state.position.to_string();
    assert!(!text.contains('*'));
    assert!(text.contains("|   | n |   |   |   |   |   |   |\n"));
    assert!(text.ends_with(
        "white to move.\nWhite castling rights: none.\nBlack castling rights: none.\n"
    ));
}
