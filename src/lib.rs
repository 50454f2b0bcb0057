//! A falling-block puzzle engine following the Super Rotation System rules:
//! a 10 by 40 board, seven tetromino shapes, wall kicks, hold, ghost preview,
//! line clears and twist detection.
//!
//! Durations are whole microseconds throughout the library.

pub mod position;
pub mod piece;
pub mod board;
pub mod srs;
pub mod twist;
pub mod random;
pub mod queue;
pub mod input;
pub mod game;
pub mod renderer;
