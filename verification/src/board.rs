use vstd::prelude::*;

use crate::piece_builder::{row_square, PieceBuilder};
use crate::point::{same_xy, Point, HALF_SQUARE};

verus! {

/// Number of rows of the board.
pub const NB_ROWS: i32 = 3;

/// Number of columns of the board.
pub const NB_COLS: i32 = 5;

/// The layer on which the board is drawn, below the pieces.
pub const BOARD_LAYER: i64 = 0;

/// One square of the board, with whether a placed piece covers it.
#[derive(Clone, Copy, Debug, PartialEq, Eq, Structural)]
pub struct BoardPosition {
    pub coordinates: Point,
    pub filled: bool,
}

impl BoardPosition {
    pub fn new(coordinates: Point) -> (b: BoardPosition)
        ensures
            b == (BoardPosition { coordinates, filled: false }),
    {
        BoardPosition { coordinates, filled: false }
    }

    /// The centre of the square.
    pub fn coordinates(&self) -> (p: Point)
        ensures
            p == self.coordinates,
    {
        self.coordinates
    }

    /// Whether a placed piece covers the square.
    pub fn is_filled(&self) -> (b: bool)
        ensures
            b == self.filled,
    {
        self.filled
    }

    pub fn set_filled(&mut self, filled: bool)
        ensures
            *final(self) == (BoardPosition { filled, ..*old(self) }),
    {
        self.filled = filled;
    }
}

/// Represents the game board where pieces can be placed.
/// A fixed 3x5 grid:
/// ```text
/// * * * * *
/// * * * * *
/// * * * * *
/// ```
pub struct Board {
    /// All squares that make up the board
    pub positions: Vec<BoardPosition>,
    /// Minimum X coordinate of the board (centre of the leftmost squares)
    pub min_x: i64,
    /// Minimum Y coordinate of the board (centre of the bottom squares)
    pub min_y: i64,
    /// Maximum X coordinate of the board (centre of the rightmost squares)
    pub max_x: i64,
    /// Maximum Y coordinate of the board (centre of the top squares)
    pub max_y: i64,
}

/// The abstract state of a board.
pub struct BoardView {
    pub squares: Seq<BoardPosition>,
    pub min_x: i64,
    pub min_y: i64,
    pub max_x: i64,
    pub max_y: i64,
}

impl View for Board {
    type V = BoardView;

    open spec fn view(&self) -> BoardView {
        BoardView {
            squares: self.positions@,
            min_x: self.min_x,
            min_y: self.min_y,
            max_x: self.max_x,
            max_y: self.max_y,
        }
    }
}

/// One of the squares `ps` is centred on `c` in the plane.
pub open spec fn covered_by(ps: Seq<Point>, c: Point) -> bool {
    exists|i: int| 0 <= i < ps.len() && same_xy(#[trigger] ps[i], c)
}

/// The centre of the board square at `row` and `col`, counted from the
/// bottom left.
pub open spec fn board_square(row: int, col: int) -> Point {
    Point {
        x: (-(NB_COLS / 2) * crate::SQUARE_WIDTH + col * crate::SQUARE_WIDTH) as i64,
        y: (-(NB_ROWS / 2) * crate::SQUARE_WIDTH + row * crate::SQUARE_WIDTH) as i64,
        z: BOARD_LAYER,
    }
}

impl BoardView {
    /// Every square of `ps` lies over the board, allowing half a square of
    /// slack on each side.
    pub open spec fn fits(self, ps: Seq<Point>) -> bool {
        forall|i: int| 0 <= i < ps.len() ==> self.over_board(#[trigger] ps[i])
    }

    /// `p` lies over the board, allowing half a square of slack on each side.
    pub open spec fn over_board(self, p: Point) -> bool {
        &&& self.min_x - HALF_SQUARE <= p.x <= self.max_x + HALF_SQUARE
        &&& self.min_y - HALF_SQUARE <= p.y <= self.max_y + HALF_SQUARE
    }

    /// No two squares of the board share a centre.
    pub open spec fn well_formed(self) -> bool {
        forall|k1: int, k2: int|
            0 <= k1 < self.squares.len() && 0 <= k2 < self.squares.len() && k1 != k2 ==> !same_xy(
                #[trigger] self.squares[k1].coordinates,
                #[trigger] self.squares[k2].coordinates,
            )
    }

    /// The board has a square centred on `p`.
    pub open spec fn has_square_at(self, p: Point) -> bool {
        exists|k: int| 0 <= k < self.squares.len() && same_xy(#[trigger] self.squares[k].coordinates, p)
    }

    /// The piece with squares `ps` lies on the board: each of its squares is
    /// centred on a board square, and every board square under it is filled.
    pub open spec fn holds(self, ps: Seq<Point>) -> bool {
        &&& forall|i: int| 0 <= i < ps.len() ==> self.has_square_at(#[trigger] ps[i])
        &&& forall|k: int|
            0 <= k < self.squares.len() && covered_by(ps, #[trigger] self.squares[k].coordinates)
                ==> self.squares[k].filled
    }

    /// The board has a filled square centred on `p`.
    pub open spec fn taken_at(self, p: Point) -> bool {
        exists|k: int|
            0 <= k < self.squares.len() && same_xy(#[trigger] self.squares[k].coordinates, p)
                && self.squares[k].filled
    }

    /// The board has an empty square centred on `p`.
    pub open spec fn free_at(self, p: Point) -> bool {
        exists|k: int|
            0 <= k < self.squares.len() && same_xy(#[trigger] self.squares[k].coordinates, p)
                && !self.squares[k].filled
    }

    /// Every square of `ps` is centred on an empty board square.
    pub open spec fn can_place(self, ps: Seq<Point>) -> bool {
        forall|i: int| 0 <= i < ps.len() ==> self.free_at(#[trigger] ps[i])
    }

    /// The board with the squares under `ps` marked as filled.
    pub open spec fn filled_with(self, ps: Seq<Point>) -> BoardView {
        BoardView {
            squares: Seq::new(
                self.squares.len(),
                |k: int|
                    BoardPosition {
                        coordinates: self.squares[k].coordinates,
                        filled: self.squares[k].filled || covered_by(ps, self.squares[k].coordinates),
                    },
            ),
            ..self
        }
    }

    /// The board with the squares under `ps` marked as empty.
    pub open spec fn cleared_of(self, ps: Seq<Point>) -> BoardView {
        BoardView {
            squares: Seq::new(
                self.squares.len(),
                |k: int|
                    BoardPosition {
                        coordinates: self.squares[k].coordinates,
                        filled: self.squares[k].filled && !covered_by(ps, self.squares[k].coordinates),
                    },
            ),
            ..self
        }
    }
}

proof fn lemma_board_squares_distinct()
    ensures
        forall|k1: int, k2: int|
            0 <= k1 < NB_ROWS * NB_COLS && 0 <= k2 < NB_ROWS * NB_COLS && k1 != k2 ==> !same_xy(
                #[trigger] board_square(k1 / NB_COLS as int, k1 % NB_COLS as int),
                #[trigger] board_square(k2 / NB_COLS as int, k2 % NB_COLS as int),
            ),
{
    assert forall|k1: int, k2: int|
        0 <= k1 < NB_ROWS * NB_COLS && 0 <= k2 < NB_ROWS * NB_COLS && k1 != k2 implies !same_xy(
            #[trigger] board_square(k1 / NB_COLS as int, k1 % NB_COLS as int),
            #[trigger] board_square(k2 / NB_COLS as int, k2 % NB_COLS as int),
        ) by {
        vstd::arithmetic::div_mod::lemma_fundamental_div_mod(k1, 5);
        vstd::arithmetic::div_mod::lemma_fundamental_div_mod(k2, 5);
        vstd::arithmetic::div_mod::lemma_mod_bound(k1, 5);
        vstd::arithmetic::div_mod::lemma_mod_bound(k2, 5);
        vstd::arithmetic::div_mod::lemma_div_pos_is_pos(k1, 5);
        vstd::arithmetic::div_mod::lemma_div_pos_is_pos(k2, 5);
        assert(k1 / 5 < 3 && k2 / 5 < 3) by {
            vstd::arithmetic::div_mod::lemma_div_is_ordered(k1, 14, 5);
            vstd::arithmetic::div_mod::lemma_div_is_ordered(k2, 14, 5);
        }
        if same_xy(board_square(k1 / 5, k1 % 5), board_square(k2 / 5, k2 % 5)) {
            assert(k1 % 5 == k2 % 5);
            assert(k1 / 5 == k2 / 5);
            assert(k1 == k2);
        }
    }
}

/// Whether one of the squares `ps` is centred on `c` in the plane.
fn covers(ps: &Vec<Point>, c: Point) -> (b: bool)
    ensures
        b == covered_by(ps@, c),
{
    let n = ps.len();
    for i in 0..n
        invariant
            n == ps@.len(),
            forall|j: int| 0 <= j < i ==> !same_xy(#[trigger] ps@[j], c),
    {
        if ps[i].x == c.x && ps[i].y == c.y {
            assert(same_xy(ps@[i as int], c));
            return true;
        }
    }
    false
}

impl Board {
    /// The empty 3x5 board centred on the origin, its squares listed row by
    /// row from the bottom left.
    pub fn new() -> (b: Board)
        ensures
            b@.squares.len() == NB_ROWS * NB_COLS,
            forall|k: int|
                0 <= k < b@.squares.len() ==> #[trigger] b@.squares[k] == (BoardPosition {
                    coordinates: board_square(k / NB_COLS as int, k % NB_COLS as int),
                    filled: false,
                }),
            b@.min_x == board_square(0, 0).x,
            b@.min_y == board_square(0, 0).y,
            b@.max_x == board_square(NB_ROWS - 1, NB_COLS - 1).x,
            b@.max_y == board_square(NB_ROWS - 1, NB_COLS - 1).y,
            b@.well_formed(),
    {
        let nb_rows: i32 = NB_ROWS;
        let nb_cols: i32 = NB_COLS;
        let mut positions: Vec<BoardPosition> = Vec::new();

        // Center the board; start_x and start_y are aligned with SQUARE_WIDTH
        let start_x: i32 = -(nb_cols / 2) * 50;
        let start_y: i32 = -(nb_rows / 2) * 50;

        let mut i: i32 = 0;
        while i < nb_rows
            invariant
                0 <= i <= nb_rows,
                nb_rows == NB_ROWS,
                nb_cols == NB_COLS,
                start_x == -100,
                start_y == -50,
                positions@.len() == i * nb_cols,
                forall|k: int|
                    0 <= k < positions@.len() ==> #[trigger] positions@[k] == (BoardPosition {
                        coordinates: board_square(k / NB_COLS as int, k % NB_COLS as int),
                        filled: false,
                    }),
            decreases nb_rows - i,
        {
            let row = PieceBuilder::new_horizontal_rectangle(start_x, start_y + i * 50, nb_cols, BOARD_LAYER);
            let ghost before = positions@;
            let mut j: usize = 0;
            while j < row.len()
                invariant
                    0 <= j <= row@.len(),
                    row@.len() == NB_COLS,
                    0 <= i < NB_ROWS,
                    start_x == -100,
                    start_y == -50,
                    forall|c: int|
                        0 <= c < row@.len() ==> #[trigger] row@[c] == row_square(
                            start_x as int,
                            (start_y + i * 50) as int,
                            BOARD_LAYER,
                            c,
                        ),
                    before.len() == i * NB_COLS,
                    positions@.len() == before.len() + j,
                    forall|k: int| 0 <= k < before.len() ==> #[trigger] positions@[k] == before[k],
                    forall|c: int|
                        0 <= c < j ==> #[trigger] positions@[before.len() + c] == (BoardPosition {
                            coordinates: board_square(i as int, c),
                            filled: false,
                        }),
                decreases row@.len() - j,
            {
                positions.push(BoardPosition::new(row[j]));
                j = j + 1;
            }
            assert forall|k: int| 0 <= k < positions@.len() implies #[trigger] positions@[k] == (BoardPosition {
                coordinates: board_square(k / NB_COLS as int, k % NB_COLS as int),
                filled: false,
            }) by {
                if k >= before.len() {
                    let c = k - before.len();
                    assert(positions@[before.len() + c] == positions@[k]);
                    assert(k / NB_COLS as int == i as int && k % NB_COLS as int == c) by (nonlinear_arith)
                        requires
                            k == i * 5 + c,
                            0 <= c < 5,
                    ;
                } else {
                    assert(positions@[k] == before[k]);
                }
            }
            i = i + 1;
        }
        proof {
            lemma_board_squares_distinct();
        }
        Board {
            positions,
            min_x: start_x as i64,
            min_y: start_y as i64,
            max_x: (start_x + (nb_cols - 1) * 50) as i64,
            max_y: (start_y + (nb_rows - 1) * 50) as i64,
        }
    }

    /// Every square of the piece lies over the board, allowing half a square
    /// of slack on each side.
    pub fn fits_piece(&self, ps: &Vec<Point>) -> (b: bool)
        ensures
            b == self@.fits(ps@),
    {
        let n = ps.len();
        for i in 0..n
            invariant
                n == ps@.len(),
                forall|j: int| 0 <= j < i ==> self@.over_board(#[trigger] ps@[j]),
        {
            let p = ps[i];
            let x = p.x as i128;
            let y = p.y as i128;
            if !(self.min_x as i128 - 25 <= x && x <= self.max_x as i128 + 25 && self.min_y as i128 - 25
                <= y && y <= self.max_y as i128 + 25) {
                assert(HALF_SQUARE == 25);
                assert(!self@.over_board(ps@[i as int]));
                return false;
            }
            assert(HALF_SQUARE == 25);
            assert(self@.over_board(ps@[i as int]));
        }
        true
    }

    /// Whether the board has an empty square centred on `p`.
    pub fn has_free_square(&self, p: Point) -> (b: bool)
        ensures
            b == self@.free_at(p),
    {
        let m = self.positions.len();
        for k in 0..m
            invariant
                m == self.positions@.len(),
                forall|l: int|
                    0 <= l < k ==> !(same_xy(#[trigger] self@.squares[l].coordinates, p)
                        && !self@.squares[l].filled),
        {
            let sq = self.positions[k];
            if sq.coordinates.x == p.x && sq.coordinates.y == p.y && !sq.filled {
                assert(same_xy(self@.squares[k as int].coordinates, p));
                return true;
            }
        }
        false
    }

    /// Every square of the piece is centred on an empty board square.
    pub fn can_place_piece(&self, positions: &Vec<Point>) -> (b: bool)
        ensures
            b == self@.can_place(positions@),
    {
        let n = positions.len();
        for i in 0..n
            invariant
                n == positions@.len(),
                forall|j: int| 0 <= j < i ==> self@.free_at(#[trigger] positions@[j]),
        {
            let p = positions[i];
            if !self.has_free_square(p) {
                return false;
            }
        }
        true
    }

    /// Marks the board squares under the piece as filled.
    pub fn fill_piece(&mut self, positions: &Vec<Point>)
        ensures
            final(self)@ == old(self)@.filled_with(positions@),
    {
        let ghost old_view = self@;
        let m = self.positions.len();
        for k in 0..m
            invariant
                m == self.positions@.len(),
                m == old_view.squares.len(),
                self.min_x == old_view.min_x,
                self.min_y == old_view.min_y,
                self.max_x == old_view.max_x,
                self.max_y == old_view.max_y,
                forall|l: int|
                    0 <= l < m ==> #[trigger] self@.squares[l] == if l < k {
                        old_view.filled_with(positions@).squares[l]
                    } else {
                        old_view.squares[l]
                    },
        {
            let c = self.positions[k].coordinates;
            let ghost before = self@.squares;
            if covers(positions, c) {
                let mut sq = self.positions[k];
                sq.set_filled(true);
                self.positions.set(k, sq);
            }
            assert(self@.squares[k as int] == old_view.filled_with(positions@).squares[k as int]);
            assert(forall|l: int| 0 <= l < m && l != k ==> self@.squares[l] == before[l]);
        }
        assert(self@.squares =~= old_view.filled_with(positions@).squares);
    }

    /// Marks the board squares under the piece as empty.
    pub fn clear_piece(&mut self, positions: &Vec<Point>)
        ensures
            final(self)@ == old(self)@.cleared_of(positions@),
    {
        let ghost old_view = self@;
        let m = self.positions.len();
        for k in 0..m
            invariant
                m == self.positions@.len(),
                m == old_view.squares.len(),
                self.min_x == old_view.min_x,
                self.min_y == old_view.min_y,
                self.max_x == old_view.max_x,
                self.max_y == old_view.max_y,
                forall|l: int|
                    0 <= l < m ==> #[trigger] self@.squares[l] == if l < k {
                        old_view.cleared_of(positions@).squares[l]
                    } else {
                        old_view.squares[l]
                    },
        {
            let c = self.positions[k].coordinates;
            let ghost before = self@.squares;
            if covers(positions, c) {
                let mut sq = self.positions[k];
                sq.set_filled(false);
                self.positions.set(k, sq);
            }
            assert(self@.squares[k as int] == old_view.cleared_of(positions@).squares[k as int]);
            assert(forall|l: int| 0 <= l < m && l != k ==> self@.squares[l] == before[l]);
        }
        assert(self@.squares =~= old_view.cleared_of(positions@).squares);
    }
}

} // verus!

verus! {

// ------------------------------------------------------------------------
// Laws of the board
// ------------------------------------------------------------------------

/// Once a piece has filled the board, none of its squares can be taken
/// again.
pub proof fn law_filled_squares_are_taken(b: BoardView, ps: Seq<Point>)
    ensures
        forall|i: int| 0 <= i < ps.len() ==> !b.filled_with(ps).free_at(#[trigger] ps[i]),
        forall|i: int| 0 <= i < ps.len() ==> b.filled_with(ps).taken_at(#[trigger] ps[i]) == covered_by(
            b.squares.map_values(|sq: BoardPosition| sq.coordinates),
            ps[i],
        ),
{
    let f = b.filled_with(ps);
    let cs = b.squares.map_values(|sq: BoardPosition| sq.coordinates);
    assert forall|i: int| 0 <= i < ps.len() implies !f.free_at(#[trigger] ps[i]) by {
        if f.free_at(ps[i]) {
            let k = choose|k: int| 0 <= k < f.squares.len() && same_xy(#[trigger] f.squares[k].coordinates, ps[i]) && !f.squares[k].filled;
            assert(same_xy(ps[i], b.squares[k].coordinates));
            assert(covered_by(ps, b.squares[k].coordinates));
        }
    }
    assert forall|i: int| 0 <= i < ps.len() implies f.taken_at(#[trigger] ps[i]) == covered_by(cs, ps[i]) by {
        if f.taken_at(ps[i]) {
            let k = choose|k: int| 0 <= k < f.squares.len() && same_xy(#[trigger] f.squares[k].coordinates, ps[i]) && f.squares[k].filled;
            assert(same_xy(cs[k], ps[i]));
        }
        if covered_by(cs, ps[i]) {
            let k = choose|k: int| 0 <= k < cs.len() && same_xy(#[trigger] cs[k], ps[i]);
            assert(same_xy(ps[i], b.squares[k].coordinates));
            assert(covered_by(ps, b.squares[k].coordinates));
            assert(f.squares[k].filled);
            assert(same_xy(f.squares[k].coordinates, ps[i]));
        }
    }
}

/// Lifting a piece right after placing it gives back the board it was
/// placed on.
pub proof fn law_lift_after_place(b: BoardView, ps: Seq<Point>)
    requires
        b.well_formed(),
        b.can_place(ps),
    ensures
        b.filled_with(ps).cleared_of(ps) == b,
{
    let r = b.filled_with(ps).cleared_of(ps);
    assert forall|k: int| 0 <= k < b.squares.len() implies #[trigger] r.squares[k] == b.squares[k] by {
        if covered_by(ps, b.squares[k].coordinates) {
            let i = choose|i: int| 0 <= i < ps.len() && same_xy(#[trigger] ps[i], b.squares[k].coordinates);
            assert(b.free_at(ps[i]));
            let k2 = choose|k2: int| 0 <= k2 < b.squares.len() && same_xy(#[trigger] b.squares[k2].coordinates, ps[i]) && !b.squares[k2].filled;
            if k2 != k {
                assert(same_xy(b.squares[k2].coordinates, b.squares[k].coordinates));
            }
        }
    }
    assert(r.squares =~= b.squares);
}

/// Placing a piece again right after lifting it gives back the board it was
/// lifted from, when the board held the piece; and the lifted piece can be
/// placed there.
pub proof fn law_place_after_lift(b: BoardView, ps: Seq<Point>)
    requires
        b.holds(ps),
    ensures
        b.cleared_of(ps).can_place(ps),
        b.cleared_of(ps).filled_with(ps) == b,
{
    let c = b.cleared_of(ps);
    assert forall|i: int| 0 <= i < ps.len() implies c.free_at(#[trigger] ps[i]) by {
        assert(b.has_square_at(ps[i]));
        let k = choose|k: int| 0 <= k < b.squares.len() && same_xy(#[trigger] b.squares[k].coordinates, ps[i]);
        assert(same_xy(ps[i], b.squares[k].coordinates));
        assert(covered_by(ps, b.squares[k].coordinates));
        assert(same_xy(c.squares[k].coordinates, ps[i]) && !c.squares[k].filled);
    }
    let r = c.filled_with(ps);
    assert forall|k: int| 0 <= k < b.squares.len() implies #[trigger] r.squares[k] == b.squares[k] by {
        if covered_by(ps, b.squares[k].coordinates) {
            assert(b.squares[k].filled);
        }
    }
    assert(r.squares =~= b.squares);
}

/// On a board whose squares have distinct centres, a piece all of whose
/// squares are centred on filled board squares is held by the board.
pub proof fn law_taken_squares_hold_piece(b: BoardView, ps: Seq<Point>)
    requires
        b.well_formed(),
        forall|i: int| 0 <= i < ps.len() ==> b.taken_at(#[trigger] ps[i]),
    ensures
        b.holds(ps),
{
    assert forall|i: int| 0 <= i < ps.len() implies b.has_square_at(#[trigger] ps[i]) by {
        assert(b.taken_at(ps[i]));
        let k = choose|k: int| 0 <= k < b.squares.len() && same_xy(#[trigger] b.squares[k].coordinates, ps[i]) && b.squares[k].filled;
        assert(same_xy(b.squares[k].coordinates, ps[i]));
    }
    assert forall|k: int|
        0 <= k < b.squares.len() && covered_by(ps, #[trigger] b.squares[k].coordinates) implies b.squares[k].filled by {
        let i = choose|i: int| 0 <= i < ps.len() && same_xy(#[trigger] ps[i], b.squares[k].coordinates);
        assert(b.taken_at(ps[i]));
        let k2 = choose|k2: int| 0 <= k2 < b.squares.len() && same_xy(#[trigger] b.squares[k2].coordinates, ps[i]) && b.squares[k2].filled;
        if k2 != k {
            assert(same_xy(b.squares[k2].coordinates, b.squares[k].coordinates));
        }
    }
}

/// Filling and clearing change only the filled flags: every square keeps
/// its centre and the board keeps its bounds and its well-formedness.
pub proof fn law_fill_and_clear_keep_layout(b: BoardView, ps: Seq<Point>)
    ensures
        b.filled_with(ps).squares.len() == b.squares.len(),
        b.cleared_of(ps).squares.len() == b.squares.len(),
        forall|k: int|
            0 <= k < b.squares.len() ==> #[trigger] b.filled_with(ps).squares[k].coordinates
                == b.squares[k].coordinates && b.cleared_of(ps).squares[k].coordinates
                == b.squares[k].coordinates,
        b.filled_with(ps).min_x == b.min_x && b.filled_with(ps).max_x == b.max_x,
        b.filled_with(ps).min_y == b.min_y && b.filled_with(ps).max_y == b.max_y,
        b.cleared_of(ps).min_x == b.min_x && b.cleared_of(ps).max_x == b.max_x,
        b.cleared_of(ps).min_y == b.min_y && b.cleared_of(ps).max_y == b.max_y,
        b.well_formed() ==> b.filled_with(ps).well_formed() && b.cleared_of(ps).well_formed(),
{
}

} // verus!
