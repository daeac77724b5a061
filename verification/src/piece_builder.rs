use vstd::prelude::*;

use crate::point::Point;

verus! {

/// Builds the square positions of pieces and of the board.
pub struct PieceBuilder {
    pub positions: Vec<Point>,
}

/// The `i`-th square of a horizontal row starting at `(start_x, start_y)`.
pub open spec fn row_square(start_x: int, start_y: int, z_index: i64, i: int) -> Point {
    Point { x: (start_x + i * crate::SQUARE_WIDTH) as i64, y: start_y as i64, z: z_index }
}

/// The horizontal row of `length` squares starting at `(start_x, start_y)`.
pub open spec fn row(start_x: int, start_y: int, length: nat, z_index: i64) -> Seq<Point> {
    Seq::new(length, |i: int| row_square(start_x, start_y, z_index, i))
}

impl PieceBuilder {
    /// A horizontal row of `length` squares, the first one centred on
    /// `(start_x, start_y)`, all on the layer `z_index`. A length below one
    /// gives no square.
    pub fn new_horizontal_rectangle(start_x: i32, start_y: i32, length: i32, z_index: i64) -> (squares: Vec<Point>)
        requires
            length > 0 ==> (length - 1) * crate::SQUARE_WIDTH <= i32::MAX,
            length > 0 ==> start_x + (length - 1) * crate::SQUARE_WIDTH <= i32::MAX,
        ensures
            squares@.len() == if length > 0 { length as int } else { 0 },
            forall|i: int|
                0 <= i < squares@.len() ==> #[trigger] squares@[i] == row_square(
                    start_x as int,
                    start_y as int,
                    z_index,
                    i,
                ),
            squares@ == row(start_x as int, start_y as int, squares@.len(), z_index),
    {
        let mut squares: Vec<Point> = Vec::new();
        let mut i: i32 = 0;
        while i < length
            invariant
                0 <= i,
                length > 0 ==> i <= length,
                length <= 0 ==> i == 0,
                length > 0 ==> (length - 1) * crate::SQUARE_WIDTH <= i32::MAX,
                length > 0 ==> start_x + (length - 1) * crate::SQUARE_WIDTH <= i32::MAX,
                squares@.len() == i,
                forall|j: int|
                    0 <= j < i ==> #[trigger] squares@[j] == row_square(
                        start_x as int,
                        start_y as int,
                        z_index,
                        j,
                    ),
            decreases length - i,
        {
            let x: i32 = start_x + i * 50;
            squares.push(Point { x: x as i64, y: start_y as i64, z: z_index });
            i = i + 1;
        }
        assert(squares@ =~= row(start_x as int, start_y as int, squares@.len(), z_index));
        squares
    }
}

/// A row of `a + b` squares is the row of `a` squares followed by the row of
/// `b` squares that starts `a` square widths further right.
pub proof fn law_row_concatenation(start_x: int, start_y: int, a: nat, b: nat, z_index: i64)
    ensures
        row(start_x, start_y, a + b, z_index) == row(start_x, start_y, a, z_index) + row(
            start_x + a * crate::SQUARE_WIDTH,
            start_y,
            b,
            z_index,
        ),
{
    let whole = row(start_x, start_y, a + b, z_index);
    let parts = row(start_x, start_y, a, z_index) + row(start_x + a * crate::SQUARE_WIDTH, start_y, b, z_index);
    assert forall|i: int| 0 <= i < whole.len() implies #[trigger] whole[i] == parts[i] by {
        if i >= a {
            assert(start_x + a * crate::SQUARE_WIDTH + (i - a) * crate::SQUARE_WIDTH == start_x + i
                * crate::SQUARE_WIDTH) by (nonlinear_arith);
        }
    }
    assert(whole =~= parts);
}

} // verus!
