//! A tic-tac-toe engine: marks, a nine-cell board, a bounded move history,
//! the game state machine that ties them together, and a registry of games
//! keyed by identifier.

pub mod api;
pub mod board;
pub mod error;
pub mod game;
pub mod history;
pub mod mark;
