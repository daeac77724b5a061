use vstd::prelude::*;

use crate::piece::{Piece, PieceKind, PieceView};
use crate::piece_builder::{row_square, PieceBuilder};
use crate::point::Point;

verus! {

/// The layer on which pieces are drawn, above the board.
pub const PIECE_LAYER: i64 = 1;

/// The square at `(x + dx, y + dy)` on the piece layer.
pub open spec fn piece_square(x: int, y: int, dx: int, dy: int) -> Point {
    Point { x: (x + dx) as i64, y: (y + dy) as i64, z: PIECE_LAYER }
}

/// The squares of the one-square piece placed at `(x, y)`.
pub open spec fn square_squares(x: int, y: int) -> Seq<Point> {
    seq![piece_square(x, y, 0, 0)]
}

/// The squares of the corner piece placed at `(x, y)`.
pub open spec fn corner_squares(x: int, y: int) -> Seq<Point> {
    seq![piece_square(x, y, 0, 0), piece_square(x, y, 50, 0), piece_square(x, y, 0, 50)]
}

/// The squares of the L piece placed at `(x, y)`.
pub open spec fn l_squares(x: int, y: int) -> Seq<Point> {
    seq![piece_square(x, y, 0, 0), piece_square(x, y, 50, 0), piece_square(x, y, 0, 50), piece_square(x, y, 0, 100)]
}

/// The squares of the Z piece placed at `(x, y)`.
pub open spec fn z_squares(x: int, y: int) -> Seq<Point> {
    seq![piece_square(x, y, 0, 0), piece_square(x, y, 50, 0), piece_square(x, y, 50, 50), piece_square(x, y, 100, 50)]
}

/// The squares of the straight piece placed at `(x, y)`.
pub open spec fn rectangle_squares(x: int, y: int) -> Seq<Point> {
    seq![piece_square(x, y, 0, 0), piece_square(x, y, 50, 0), piece_square(x, y, 100, 0)]
}

/// A new piece of the given shape made of the given squares, at rest.
pub open spec fn new_piece(kind: PieceKind, positions: Seq<Point>) -> PieceView {
    PieceView { kind, positions, moving: false, error_timer: 0 }
}

fn square_at(x: i32, y: i32, dx: i64, dy: i64) -> (p: Point)
    requires
        -1000 <= dx <= 1000,
        -1000 <= dy <= 1000,
    ensures
        p == piece_square(x as int, y as int, dx as int, dy as int),
{
    Point { x: x as i64 + dx, y: y as i64 + dy, z: PIECE_LAYER }
}

/// The one-square piece.
/// ```text
/// *
/// ```
pub struct Square;

impl Square {
    pub fn new(start_x: i32, start_y: i32) -> (p: Piece)
        ensures
            p@ == new_piece(PieceKind::Square, square_squares(start_x as int, start_y as int)),
    {
        let mut positions: Vec<Point> = Vec::new();
        positions.push(square_at(start_x, start_y, 0, 0));
        let p = Piece::new(PieceKind::Square, positions);
        assert(p@.positions =~= seq![piece_square(start_x as int, start_y as int, 0, 0)]);
        p
    }
}

/// The three-square corner piece.
/// ```text
/// *
/// * *
/// ```
pub struct Corner;

impl Corner {
    pub fn new(start_x: i32, start_y: i32) -> (p: Piece)
        ensures
            p@ == new_piece(PieceKind::Corner, corner_squares(start_x as int, start_y as int)),
    {
        let mut positions: Vec<Point> = Vec::new();
        positions.push(square_at(start_x, start_y, 0, 0));
        positions.push(square_at(start_x, start_y, 50, 0));
        positions.push(square_at(start_x, start_y, 0, 50));
        let p = Piece::new(PieceKind::Corner, positions);
        assert(p@.positions =~= seq![
            piece_square(start_x as int, start_y as int, 0, 0),
            piece_square(start_x as int, start_y as int, 50, 0),
            piece_square(start_x as int, start_y as int, 0, 50),
        ]);
        p
    }
}

/// The four-square L piece.
/// ```text
/// *
/// *
/// * *
/// ```
pub struct L;

impl L {
    pub fn new(start_x: i32, start_y: i32) -> (p: Piece)
        ensures
            p@ == new_piece(PieceKind::L, l_squares(start_x as int, start_y as int)),
    {
        let mut positions: Vec<Point> = Vec::new();
        positions.push(square_at(start_x, start_y, 0, 0));
        positions.push(square_at(start_x, start_y, 50, 0));
        positions.push(square_at(start_x, start_y, 0, 50));
        positions.push(square_at(start_x, start_y, 0, 100));
        let p = Piece::new(PieceKind::L, positions);
        assert(p@.positions =~= seq![
            piece_square(start_x as int, start_y as int, 0, 0),
            piece_square(start_x as int, start_y as int, 50, 0),
            piece_square(start_x as int, start_y as int, 0, 50),
            piece_square(start_x as int, start_y as int, 0, 100),
        ]);
        p
    }
}

/// The four-square Z piece.
/// ```text
///   * *
/// * *
/// ```
pub struct Z;

impl Z {
    pub fn new(start_x: i32, start_y: i32) -> (p: Piece)
        ensures
            p@ == new_piece(PieceKind::Z, z_squares(start_x as int, start_y as int)),
    {
        let mut positions: Vec<Point> = Vec::new();
        positions.push(square_at(start_x, start_y, 0, 0));
        positions.push(square_at(start_x, start_y, 50, 0));
        positions.push(square_at(start_x, start_y, 50, 50));
        positions.push(square_at(start_x, start_y, 100, 50));
        let p = Piece::new(PieceKind::Z, positions);
        assert(p@.positions =~= seq![
            piece_square(start_x as int, start_y as int, 0, 0),
            piece_square(start_x as int, start_y as int, 50, 0),
            piece_square(start_x as int, start_y as int, 50, 50),
            piece_square(start_x as int, start_y as int, 100, 50),
        ]);
        p
    }
}

/// The three-square straight piece.
/// ```text
/// * * *
/// ```
pub struct Rectangle;

impl Rectangle {
    pub fn new(start_x: i32, start_y: i32) -> (p: Piece)
        requires
            start_x + 100 <= i32::MAX,
        ensures
            p@ == new_piece(PieceKind::Rectangle, rectangle_squares(start_x as int, start_y as int)),
    {
        let positions = PieceBuilder::new_horizontal_rectangle(start_x, start_y, 3, PIECE_LAYER);
        assert(positions@[0] == row_square(start_x as int, start_y as int, PIECE_LAYER, 0));
        assert(positions@[1] == row_square(start_x as int, start_y as int, PIECE_LAYER, 1));
        assert(positions@[2] == row_square(start_x as int, start_y as int, PIECE_LAYER, 2));
        let p = Piece::new(PieceKind::Rectangle, positions);
        assert(p@.positions =~= seq![
            piece_square(start_x as int, start_y as int, 0, 0),
            piece_square(start_x as int, start_y as int, 50, 0),
            piece_square(start_x as int, start_y as int, 100, 0),
        ]);
        p
    }
}

} // verus!
