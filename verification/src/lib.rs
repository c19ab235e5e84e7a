//! A chess engine library: board model, legal-move generation, attack and
//! checkmate detection, a positional evaluator, and an alpha-beta search,
//! all verified against a mathematical model of the game state.

pub mod color;
pub mod piece_type;
pub mod piece;
pub mod position;
pub mod move_;
pub mod board;
pub mod starting_board;
pub mod evaluator;
pub mod player;
pub mod engine;
pub mod laws;
