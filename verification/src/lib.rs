//! The rules of a small sliding-piece puzzle: pieces made of squares are
//! picked up, rotated, moved and dropped on a grid board, which keeps track
//! of the squares that the placed pieces cover.
use vstd::prelude::*;

pub mod board;
pub mod cursor;
pub mod game;
pub mod piece;
pub mod piece_builder;
pub mod point;
pub mod shapes;
pub mod triste;

verus! {

/// Width of each square in the puzzle pieces, measured in pixels.
pub const SQUARE_WIDTH: i64 = 50;

} // verus!
