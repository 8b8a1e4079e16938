//! Hexagonal chess: the board geometry, the clock-face direction algebra,
//! per-piece move generation and the move-preview state machine.
pub mod axis;
pub mod board;
pub mod cell;
pub mod depth;
pub mod direction;
pub mod file;
pub mod movegen;
pub mod moves;
pub mod piece;
pub mod range;
pub mod rank;
pub mod repr;
pub mod stack;
pub mod state;
