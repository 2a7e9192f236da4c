//! A two-player, gravity-based grid game for a text terminal.
//!
//! The library owns the board state machine: a fixed-size grid that accepts
//! column-targeted piece drops settled by gravity, a horizontally movable
//! column selector clamped to the grid width, and a renderer that turns the
//! grid and selector into display lines. Terminal input and output live
//! outside the library; callers feed it plain values and write out the lines
//! it returns.

pub mod board;
pub mod piece;
