//! A falling-block puzzle: piece geometry, the playing field, and the rules
//! that turn gravity ticks and key presses into moves, locks and line clears.

pub mod board;
pub mod game;
pub mod geometry;
pub mod selector;
pub mod shapes;
