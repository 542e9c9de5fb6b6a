//! A chess position model with pseudo-legal move generation and a decoder
//! for six-field position notation.

pub mod board;
pub mod castling_rights;
pub mod chess_move;
pub mod color;
pub mod game_state;
pub mod move_laws;
pub mod notation;
pub mod piece;
pub mod position;
pub mod start_position;
pub mod text;

pub use game_state::GameState;
