//! Rules engine for a two-team hex-grid penguin game: board geometry on
//! bit masks, legal-move generation, turn order and state transitions.

pub mod board;
pub mod coordinate;
pub mod game_move;
pub mod game_state;
pub mod team;
