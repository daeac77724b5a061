use vstd::prelude::*;

use crate::point::{abs, all_within, copy_points, fits_i64, within, Point, Point2, HALF_SQUARE};
use crate::SQUARE_WIDTH;

verus! {

/// The shapes of the puzzle's pieces. The renderer picks a piece's colour by
/// its shape.
#[derive(Clone, Copy, Debug, PartialEq, Eq, Structural)]
pub enum PieceKind {
    Rectangle,
    L,
    Z,
    Corner,
    Square,
}

/// A game piece: a set of squares that can be moved, rotated and snapped to
/// the board grid. Its first square is the pivot of rotations and the anchor
/// of moves.
#[derive(Debug)]
pub struct Piece {
    kind: PieceKind,
    positions: Vec<Point>,
    moving: bool,
    error_timer: u32,
}

/// The abstract state of a piece.
pub struct PieceView {
    pub kind: PieceKind,
    /// The centres of the piece's squares.
    pub positions: Seq<Point>,
    /// Whether the player is dragging the piece.
    pub moving: bool,
    /// Remaining duration of the error outline, in milliseconds.
    pub error_timer: u32,
}

impl View for Piece {
    type V = PieceView;

    closed spec fn view(&self) -> PieceView {
        PieceView {
            kind: self.kind,
            positions: self.positions@,
            moving: self.moving,
            error_timer: self.error_timer,
        }
    }
}

impl PieceView {
    /// The same piece with other positions.
    pub open spec fn with_positions(self, positions: Seq<Point>) -> PieceView {
        PieceView { positions, ..self }
    }
}

// ------------------------------------------------------------------------
// Geometry
// ------------------------------------------------------------------------

/// `p` rotated by a quarter turn clockwise around `c` (the y axis points up).
pub open spec fn rotate_about(c: Point, p: Point) -> Point {
    Point { x: (c.x + (p.y - c.y)) as i64, y: (c.y - (p.x - c.x)) as i64, z: p.z }
}

/// The squares `ps` rotated by a quarter turn clockwise around the first one.
pub open spec fn rotated(ps: Seq<Point>) -> Seq<Point> {
    Seq::new(ps.len(), |i: int| rotate_about(ps[0], ps[i]))
}

/// The rotation of `ps` around its first square can be held in `i64`s.
pub open spec fn rotation_fits(ps: Seq<Point>) -> bool {
    forall|i: int|
        0 <= i < ps.len() ==> {
            &&& fits_i64(ps[0].x + (#[trigger] ps[i].y - ps[0].y))
            &&& fits_i64(ps[0].y - (ps[i].x - ps[0].x))
        }
}

/// `v` rounded to the nearest multiple of `SQUARE_WIDTH`, halfway cases away
/// from zero.
pub open spec fn snap_coord(v: int) -> int {
    if v >= 0 {
        ((v + HALF_SQUARE) / SQUARE_WIDTH as int) * SQUARE_WIDTH
    } else {
        -(((-v + HALF_SQUARE) / SQUARE_WIDTH as int) * SQUARE_WIDTH)
    }
}

/// `p` moved to the nearest grid point in the plane.
pub open spec fn snap_point(p: Point) -> Point {
    Point { x: snap_coord(p.x as int) as i64, y: snap_coord(p.y as int) as i64, z: p.z }
}

/// Every square of `ps` moved to the nearest grid point.
pub open spec fn snapped(ps: Seq<Point>) -> Seq<Point> {
    Seq::new(ps.len(), |i: int| snap_point(ps[i]))
}

/// The snapped squares of `ps` can be held in `i64`s.
pub open spec fn snap_fits(ps: Seq<Point>) -> bool {
    forall|i: int|
        0 <= i < ps.len() ==> fits_i64(snap_coord(#[trigger] ps[i].x as int)) && fits_i64(
            snap_coord(ps[i].y as int),
        )
}

/// `v` is a multiple of `SQUARE_WIDTH`.
pub open spec fn on_grid(v: int) -> bool {
    v % SQUARE_WIDTH as int == 0
}

/// Every square of `ps` is centred on a grid point.
pub open spec fn all_on_grid(ps: Seq<Point>) -> bool {
    forall|i: int| 0 <= i < ps.len() ==> on_grid(#[trigger] ps[i].x as int) && on_grid(ps[i].y as int)
}

/// `ps` translated in the plane so that its first square lands on `(tx, ty)`.
pub open spec fn translated(ps: Seq<Point>, tx: int, ty: int) -> Seq<Point> {
    Seq::new(
        ps.len(),
        |i: int| Point { x: (ps[i].x + (tx - ps[0].x)) as i64, y: (ps[i].y + (ty - ps[0].y)) as i64, z: ps[i].z },
    )
}

/// `ps` translated so that its first square lands on `target`, every square
/// taking the layer of `target`.
pub open spec fn moved_to(ps: Seq<Point>, target: Point) -> Seq<Point> {
    Seq::new(
        ps.len(),
        |i: int| Point { z: target.z, ..translated(ps, target.x as int, target.y as int)[i] },
    )
}

/// The translation of `ps` that brings its first square to `(tx, ty)` can be
/// held in `i64`s.
pub open spec fn translation_fits(ps: Seq<Point>, tx: int, ty: int) -> bool {
    forall|i: int|
        0 <= i < ps.len() ==> fits_i64(#[trigger] ps[i].x + (tx - ps[0].x)) && fits_i64(
            ps[i].y + (ty - ps[0].y),
        )
}

/// The square centred on `p` contains the point `c` (its edges included).
pub open spec fn square_contains(p: Point, c: Point2) -> bool {
    &&& p.x - HALF_SQUARE <= c.x <= p.x + HALF_SQUARE
    &&& p.y - HALF_SQUARE <= c.y <= p.y + HALF_SQUARE
}

/// One of the squares `ps` contains the point `c`.
pub open spec fn squares_contain(ps: Seq<Point>, c: Point2) -> bool {
    exists|i: int| 0 <= i < ps.len() && square_contains(#[trigger] ps[i], c)
}

/// The snapped value of one coordinate.
fn snap_value(v: i64) -> (r: i64)
    requires
        fits_i64(snap_coord(v as int)),
    ensures
        r == snap_coord(v as int),
{
    let w = v as i128;
    let s: i128 = if w >= 0 {
        ((w + 25) / 50) * 50
    } else {
        -(((-w + 25) / 50) * 50)
    };
    s as i64
}

// ------------------------------------------------------------------------
// Piece operations
// ------------------------------------------------------------------------

impl Piece {
    /// A piece of the given shape made of the squares `positions`, at rest.
    pub fn new(kind: PieceKind, positions: Vec<Point>) -> (p: Piece)
        ensures
            p@ == (PieceView { kind, positions: positions@, moving: false, error_timer: 0 }),
    {
        Piece { kind, positions, moving: false, error_timer: 0 }
    }

    /// The shape of the piece.
    pub fn kind(&self) -> (k: PieceKind)
        ensures
            k == self@.kind,
    {
        self.kind
    }

    /// Returns the current positions of all squares that make up this piece.
    pub fn positions(&self) -> (ps: Vec<Point>)
        ensures
            ps@ == self@.positions,
    {
        copy_points(&self.positions)
    }

    /// Returns true if this piece is currently being moved by the player.
    pub fn is_moving(&self) -> (b: bool)
        ensures
            b == self@.moving,
    {
        self.moving
    }

    /// Sets whether this piece is currently being moved by the player.
    pub fn set_moving(&mut self, moving: bool)
        ensures
            final(self)@ == (PieceView { moving, ..old(self)@ }),
    {
        self.moving = moving;
    }

    /// Sets the current positions of all squares that make up this piece.
    pub fn set_positions(&mut self, positions: Vec<Point>)
        ensures
            final(self)@ == old(self)@.with_positions(positions@),
    {
        self.positions = positions;
    }

    /// Returns the remaining duration of the error state (outline), in
    /// milliseconds.
    pub fn error_timer(&self) -> (t: u32)
        ensures
            t == self@.error_timer,
    {
        self.error_timer
    }

    /// Whether the piece shows its error outline: its error timer has not run
    /// out.
    pub fn has_error_outline(&self) -> (b: bool)
        ensures
            b == (self@.error_timer > 0),
    {
        self.error_timer > 0
    }

    /// Sets the error timer, in milliseconds.
    pub fn set_error_timer(&mut self, duration: u32)
        ensures
            final(self)@ == (PieceView { error_timer: duration, ..old(self)@ }),
    {
        self.error_timer = duration;
    }

    /// Counts the error timer down by `delta` milliseconds, stopping at zero.
    pub fn update_error_timer(&mut self, delta: u32)
        ensures
            final(self)@ == (PieceView {
                error_timer: if old(self)@.error_timer >= delta {
                    (old(self)@.error_timer - delta) as u32
                } else {
                    0
                },
                ..old(self)@
            }),
    {
        if self.error_timer >= delta {
            self.error_timer = self.error_timer - delta;
        } else {
            self.error_timer = 0;
        }
    }

    /// Rotates the piece a quarter turn clockwise around its first square.
    pub fn rotate(&mut self)
        requires
            old(self)@.positions.len() > 0,
            rotation_fits(old(self)@.positions),
        ensures
            final(self)@ == old(self)@.with_positions(rotated(old(self)@.positions)),
    {
        let ghost old_ps = self.positions@;
        let c = self.positions[0];
        let n = self.positions.len();
        let mut new_positions: Vec<Point> = Vec::new();
        for i in 0..n
            invariant
                n == self.positions@.len(),
                self.positions@ == old_ps,
                c == old_ps[0],
                rotation_fits(old_ps),
                new_positions@ == rotated(old_ps).subrange(0, i as int),
        {
            let p = self.positions[i];
            assert(fits_i64(old_ps[0].x + (old_ps[i as int].y - old_ps[0].y)));
            assert(fits_i64(old_ps[0].y - (old_ps[i as int].x - old_ps[0].x)));
            let x = (c.x as i128 + (p.y as i128 - c.y as i128)) as i64;
            let y = (c.y as i128 - (p.x as i128 - c.x as i128)) as i64;
            new_positions.push(Point { x, y, z: p.z });
            assert(new_positions@ =~= rotated(old_ps).subrange(0, i + 1));
        }
        assert(new_positions@ =~= rotated(old_ps));
        self.positions = new_positions;
    }

    /// Snaps every square of the piece to the nearest grid point.
    pub fn snap(&mut self)
        requires
            snap_fits(old(self)@.positions),
        ensures
            final(self)@ == old(self)@.with_positions(snapped(old(self)@.positions)),
    {
        let ghost old_ps = self.positions@;
        let n = self.positions.len();
        let mut new_positions: Vec<Point> = Vec::new();
        for i in 0..n
            invariant
                n == self.positions@.len(),
                self.positions@ == old_ps,
                snap_fits(old_ps),
                new_positions@ == snapped(old_ps).subrange(0, i as int),
        {
            let p = self.positions[i];
            assert(fits_i64(snap_coord(old_ps[i as int].x as int)));
            let x = snap_value(p.x);
            let y = snap_value(p.y);
            new_positions.push(Point { x, y, z: p.z });
            assert(new_positions@ =~= snapped(old_ps).subrange(0, i + 1));
        }
        assert(new_positions@ =~= snapped(old_ps));
        self.positions = new_positions;
    }

    /// Moves the piece so that its first square lands on `target`; every
    /// square takes the layer of `target`.
    pub fn move_to_position(&mut self, target: Point)
        requires
            old(self)@.positions.len() > 0,
            translation_fits(old(self)@.positions, target.x as int, target.y as int),
        ensures
            final(self)@ == old(self)@.with_positions(moved_to(old(self)@.positions, target)),
    {
        let ghost old_ps = self.positions@;
        let c = self.positions[0];
        let n = self.positions.len();
        let mut new_positions: Vec<Point> = Vec::new();
        for i in 0..n
            invariant
                n == self.positions@.len(),
                self.positions@ == old_ps,
                c == old_ps[0],
                translation_fits(old_ps, target.x as int, target.y as int),
                new_positions@ == moved_to(old_ps, target).subrange(0, i as int),
        {
            let p = self.positions[i];
            assert(fits_i64(old_ps[i as int].x + (target.x - old_ps[0].x)));
            let x = (p.x as i128 + (target.x as i128 - c.x as i128)) as i64;
            let y = (p.y as i128 + (target.y as i128 - c.y as i128)) as i64;
            new_positions.push(Point { x, y, z: target.z });
            assert(new_positions@ =~= moved_to(old_ps, target).subrange(0, i + 1));
        }
        assert(new_positions@ =~= moved_to(old_ps, target));
        self.positions = new_positions;
    }

    /// Moves the piece in the plane so that its first square lands on the
    /// cursor; the layers of the squares do not change.
    pub fn move_to_cursor(&mut self, cursor: Point2)
        requires
            old(self)@.positions.len() > 0,
            translation_fits(old(self)@.positions, cursor.x as int, cursor.y as int),
        ensures
            final(self)@ == old(self)@.with_positions(
                translated(old(self)@.positions, cursor.x as int, cursor.y as int),
            ),
    {
        let ghost old_ps = self.positions@;
        let c = self.positions[0];
        let n = self.positions.len();
        let mut new_positions: Vec<Point> = Vec::new();
        for i in 0..n
            invariant
                n == self.positions@.len(),
                self.positions@ == old_ps,
                c == old_ps[0],
                translation_fits(old_ps, cursor.x as int, cursor.y as int),
                new_positions@ == translated(old_ps, cursor.x as int, cursor.y as int).subrange(
                    0,
                    i as int,
                ),
        {
            let p = self.positions[i];
            assert(fits_i64(old_ps[i as int].x + (cursor.x - old_ps[0].x)));
            let x = (p.x as i128 + (cursor.x as i128 - c.x as i128)) as i64;
            let y = (p.y as i128 + (cursor.y as i128 - c.y as i128)) as i64;
            new_positions.push(Point { x, y, z: p.z });
            assert(new_positions@ =~= translated(old_ps, cursor.x as int, cursor.y as int).subrange(
                0,
                i + 1,
            ));
        }
        assert(new_positions@ =~= translated(old_ps, cursor.x as int, cursor.y as int));
        self.positions = new_positions;
    }

    /// Checks if a cursor position is within any of the piece's squares
    /// (edges included).
    pub fn is_even_odd(&self, current_pos: Point2) -> (b: bool)
        ensures
            b == squares_contain(self@.positions, current_pos),
    {
        let n = self.positions.len();
        for i in 0..n
            invariant
                n == self.positions@.len(),
                forall|j: int|
                    0 <= j < i ==> !square_contains(#[trigger] self.positions@[j], current_pos),
        {
            let p = self.positions[i];
            let px = p.x as i128;
            let py = p.y as i128;
            let cx = current_pos.x as i128;
            let cy = current_pos.y as i128;
            if px - 25 <= cx && cx <= px + 25 && py - 25 <= cy && cy <= py + 25 {
                assert(square_contains(self.positions@[i as int], current_pos));
                return true;
            }
        }
        false
    }
}

} // verus!

verus! {

// ------------------------------------------------------------------------
// Bounds on the geometry
// ------------------------------------------------------------------------

/// Rotating squares that lie within `bq` of the origin, around a first
/// square within `bp`, stays within `2 * bp + bq` and keeps the first square.
pub proof fn lemma_rotation_bounded(ps: Seq<Point>, bp: int, bq: int)
    requires
        ps.len() > 0,
        0 <= bp,
        0 <= bq,
        2 * bp + bq <= i64::MAX,
        within(ps[0], bp),
        all_within(ps, bq),
    ensures
        rotation_fits(ps),
        rotated(ps).len() == ps.len(),
        rotated(ps)[0] == ps[0],
        all_within(rotated(ps), 2 * bp + bq),
{
    let r = rotated(ps);
    assert forall|i: int| 0 <= i < ps.len() implies {
        &&& fits_i64(ps[0].x + (#[trigger] ps[i].y - ps[0].y))
        &&& fits_i64(ps[0].y - (ps[i].x - ps[0].x))
    } by {
        assert(within(ps[i], bq));
    }
    assert forall|i: int| 0 <= i < r.len() implies within(#[trigger] r[i], 2 * bp + bq) by {
        assert(within(ps[i], bq));
    }
}

/// Snapping squares that lie within `b` of the origin stays within `b + 25`.
pub proof fn lemma_snap_bounded(ps: Seq<Point>, b: int)
    requires
        0 <= b,
        b + HALF_SQUARE <= i64::MAX,
        all_within(ps, b),
    ensures
        snap_fits(ps),
        snapped(ps).len() == ps.len(),
        all_within(snapped(ps), b + HALF_SQUARE),
{
    assert forall|i: int| 0 <= i < ps.len() implies abs(snap_coord(#[trigger] ps[i].x as int)) <= abs(
        ps[i].x as int,
    ) + HALF_SQUARE && abs(snap_coord(ps[i].y as int)) <= abs(ps[i].y as int) + HALF_SQUARE by {
        lemma_snap_coord_close(ps[i].x as int);
        lemma_snap_coord_close(ps[i].y as int);
    }
    assert forall|i: int| 0 <= i < ps.len() implies fits_i64(snap_coord(#[trigger] ps[i].x as int))
        && fits_i64(snap_coord(ps[i].y as int)) by {
        assert(within(ps[i], b));
    }
    let s = snapped(ps);
    assert forall|i: int| 0 <= i < s.len() implies within(#[trigger] s[i], b + HALF_SQUARE) by {
        assert(within(ps[i], b));
    }
}

/// A snapped coordinate is a multiple of the square width, at most half a
/// square away from the given one.
pub proof fn lemma_snap_coord_close(v: int)
    ensures
        on_grid(snap_coord(v)),
        abs(snap_coord(v) - v) <= HALF_SQUARE,
        abs(snap_coord(v)) <= abs(v) + HALF_SQUARE,
        on_grid(v) ==> snap_coord(v) == v,
{
    assert(HALF_SQUARE == 25);
    assert(SQUARE_WIDTH == 50);
    if v >= 0 {
        let q = (v + 25) / 50;
        assert(q * 50 <= v + 25 < q * 50 + 50);
        assert(on_grid(q * 50)) by {
            vstd::arithmetic::div_mod::lemma_mod_multiples_basic(q, 50);
        }
        if on_grid(v) {
            assert(v == (v / 50) * 50 + v % 50);
            assert((v + 25) / 50 == v / 50);
        }
    } else {
        let q = (-v + 25) / 50;
        assert(q * 50 <= -v + 25 < q * 50 + 50);
        assert(on_grid(-(q * 50))) by {
            vstd::arithmetic::div_mod::lemma_mod_multiples_basic(-q, 50);
        }
        if on_grid(v) {
            assert(v == (v / 50) * 50 + v % 50);
            assert(-v == (-v / 50) * 50 + (-v) % 50);
            assert((-v) % 50 == 0) by {
                vstd::arithmetic::div_mod::lemma_mod_multiples_basic(-(v / 50), 50);
            }
            assert((-v + 25) / 50 == -v / 50);
        }
    }
}

} // verus!

verus! {

// ------------------------------------------------------------------------
// Laws of rotation, snapping and moves
// ------------------------------------------------------------------------

/// A quarter turn leaves the pivot (the first square) where it is, keeps the
/// number of squares, and turns every square's offset from the pivot
/// `(dx, dy)` into `(dy, -dx)`.
pub proof fn law_rotation_turns_around_pivot(ps: Seq<Point>)
    requires
        ps.len() > 0,
        rotation_fits(ps),
    ensures
        rotated(ps).len() == ps.len(),
        rotated(ps)[0] == ps[0],
        forall|i: int|
            0 <= i < ps.len() ==> {
                &&& #[trigger] rotated(ps)[i].x - ps[0].x == ps[i].y - ps[0].y
                &&& rotated(ps)[i].y - ps[0].y == -(ps[i].x - ps[0].x)
                &&& rotated(ps)[i].z == ps[i].z
            },
{
    assert(rotation_fits(ps));
    assert forall|i: int| 0 <= i < ps.len() implies {
        &&& #[trigger] rotated(ps)[i].x - ps[0].x == ps[i].y - ps[0].y
        &&& rotated(ps)[i].y - ps[0].y == -(ps[i].x - ps[0].x)
        &&& rotated(ps)[i].z == ps[i].z
    } by {
        assert(fits_i64(ps[0].x + (ps[i].y - ps[0].y)));
        assert(fits_i64(ps[0].y - (ps[i].x - ps[0].x)));
    }
    assert(fits_i64(ps[0].x + (ps[0].y - ps[0].y)));
}

/// Four quarter turns bring every square back where it was.
pub proof fn law_four_quarter_turns(ps: Seq<Point>)
    requires
        ps.len() > 0,
        rotation_fits(ps),
        rotation_fits(rotated(ps)),
        rotation_fits(rotated(rotated(ps))),
        rotation_fits(rotated(rotated(rotated(ps)))),
    ensures
        rotated(rotated(rotated(rotated(ps)))) == ps,
{
    let r1 = rotated(ps);
    let r2 = rotated(r1);
    let r3 = rotated(r2);
    let r4 = rotated(r3);
    law_rotation_turns_around_pivot(ps);
    law_rotation_turns_around_pivot(r1);
    law_rotation_turns_around_pivot(r2);
    law_rotation_turns_around_pivot(r3);
    assert forall|i: int| 0 <= i < ps.len() implies #[trigger] r4[i] == ps[i] by {
        assert(r1[i].x - ps[0].x == ps[i].y - ps[0].y);
        assert(r2[i].x - ps[0].x == r1[i].y - ps[0].y);
        assert(r3[i].x - ps[0].x == r2[i].y - ps[0].y);
        assert(r4[i].x - ps[0].x == r3[i].y - ps[0].y);
    }
    assert(r4 =~= ps);
}

/// Snapped squares lie on the grid, each coordinate moved by at most half a
/// square, and snapping them again changes nothing.
pub proof fn law_snap_is_idempotent(ps: Seq<Point>)
    requires
        snap_fits(ps),
    ensures
        all_on_grid(snapped(ps)),
        forall|i: int|
            0 <= i < ps.len() ==> abs(#[trigger] snapped(ps)[i].x - ps[i].x) <= HALF_SQUARE && abs(
                snapped(ps)[i].y - ps[i].y,
            ) <= HALF_SQUARE && snapped(ps)[i].z == ps[i].z,
        snap_fits(snapped(ps)),
        snapped(snapped(ps)) == snapped(ps),
{
    let s = snapped(ps);
    assert forall|i: int| 0 <= i < ps.len() implies {
        &&& on_grid(#[trigger] s[i].x as int)
        &&& on_grid(s[i].y as int)
        &&& abs(s[i].x - ps[i].x) <= HALF_SQUARE
        &&& abs(s[i].y - ps[i].y) <= HALF_SQUARE
        &&& snap_coord(s[i].x as int) == s[i].x
        &&& snap_coord(s[i].y as int) == s[i].y
    } by {
        lemma_snap_coord_close(ps[i].x as int);
        lemma_snap_coord_close(ps[i].y as int);
        lemma_snap_coord_close(s[i].x as int);
        lemma_snap_coord_close(s[i].y as int);
    }
    assert(snapped(s) =~= s);
}

/// Squares already on the grid are left where they are by snapping.
pub proof fn law_snap_keeps_grid_pieces(ps: Seq<Point>)
    requires
        all_on_grid(ps),
    ensures
        snap_fits(ps),
        snapped(ps) == ps,
{
    assert forall|i: int| 0 <= i < ps.len() implies fits_i64(snap_coord(#[trigger] ps[i].x as int))
        && fits_i64(snap_coord(ps[i].y as int)) && snap_coord(ps[i].x as int) == ps[i].x
        && snap_coord(ps[i].y as int) == ps[i].y by {
        lemma_snap_coord_close(ps[i].x as int);
        lemma_snap_coord_close(ps[i].y as int);
    }
    assert(snapped(ps) =~= ps);
}

/// Squares already on the grid are left where they are by snapping, and a
/// quarter turn around one of them keeps them on the grid.
pub proof fn law_grid_pieces_stay_on_grid(ps: Seq<Point>)
    requires
        ps.len() > 0,
        all_on_grid(ps),
        rotation_fits(ps),
    ensures
        snap_fits(ps),
        snapped(ps) == ps,
        all_on_grid(rotated(ps)),
        snap_fits(rotated(ps)),
        snapped(rotated(ps)) == rotated(ps),
{
    law_rotation_turns_around_pivot(ps);
    let r = rotated(ps);
    assert forall|i: int| 0 <= i < ps.len() implies on_grid(#[trigger] r[i].x as int) && on_grid(r[i].y as int) by {
        assert(on_grid(ps[0].x as int) && on_grid(ps[0].y as int));
        assert(on_grid(ps[i].x as int) && on_grid(ps[i].y as int));
        assert(r[i].x == ps[0].x + (ps[i].y - ps[0].y));
        assert(r[i].y == ps[0].y - (ps[i].x - ps[0].x));
        lemma_grid_combination(ps[0].x as int, ps[i].y as int, ps[0].y as int);
        lemma_grid_combination(ps[0].y as int, ps[0].x as int, ps[i].x as int);
    }
    law_snap_keeps_grid_pieces(ps);
    assert forall|i: int| 0 <= i < r.len() implies fits_i64(snap_coord(#[trigger] r[i].x as int))
        && fits_i64(snap_coord(r[i].y as int)) && snap_coord(r[i].x as int) == r[i].x
        && snap_coord(r[i].y as int) == r[i].y by {
        lemma_snap_coord_close(r[i].x as int);
        lemma_snap_coord_close(r[i].y as int);
    }
    assert(snapped(r) =~= r);
}

proof fn lemma_grid_combination(a: int, b: int, c: int)
    requires
        on_grid(a),
        on_grid(b),
        on_grid(c),
    ensures
        on_grid(a + (b - c)),
        on_grid(a - (b - c)),
{
    assert(SQUARE_WIDTH == 50);
    let qa = a / 50;
    let qb = b / 50;
    let qc = c / 50;
    assert(a == qa * 50) by {
        vstd::arithmetic::div_mod::lemma_fundamental_div_mod(a, 50);
    }
    assert(b == qb * 50) by {
        vstd::arithmetic::div_mod::lemma_fundamental_div_mod(b, 50);
    }
    assert(c == qc * 50) by {
        vstd::arithmetic::div_mod::lemma_fundamental_div_mod(c, 50);
    }
    assert(a + (b - c) == (qa + qb - qc) * 50) by (nonlinear_arith)
        requires
            a == qa * 50,
            b == qb * 50,
            c == qc * 50,
    ;
    assert(a - (b - c) == (qa - qb + qc) * 50) by (nonlinear_arith)
        requires
            a == qa * 50,
            b == qb * 50,
            c == qc * 50,
    ;
    vstd::arithmetic::div_mod::lemma_mod_multiples_basic(qa + qb - qc, 50);
    vstd::arithmetic::div_mod::lemma_mod_multiples_basic(qa - qb + qc, 50);
}

/// A turn that is refused on the board (a quarter turn and a snap, then
/// three more quarter turns and a snap) leaves a piece that lies on the
/// grid exactly where it was.
pub proof fn law_refused_turn_restores_piece(ps: Seq<Point>)
    requires
        ps.len() > 0,
        all_on_grid(ps),
        all_within(ps, crate::point::WORLD_LIMIT as int),
    ensures
        snapped(rotated(rotated(rotated(snapped(rotated(ps)))))) == ps,
{
    let lim = crate::point::WORLD_LIMIT as int;
    let r1 = rotated(ps);
    let r2 = rotated(r1);
    let r3 = rotated(r2);
    assert(snapped(r1) == r1 && r1.len() == ps.len() && r1[0] == ps[0] && all_within(r1, 3 * lim)
        && rotation_fits(ps)) by {
        assert(within(ps[0], lim));
        lemma_rotation_bounded(ps, lim, lim);
        law_grid_pieces_stay_on_grid(ps);
    }
    assert(rotation_fits(r1) && r2.len() == ps.len() && r2[0] == ps[0] && all_within(r2, 5 * lim)) by {
        lemma_rotation_bounded(r1, lim, 3 * lim);
    }
    assert(rotation_fits(r2) && r3.len() == ps.len() && r3[0] == ps[0] && all_within(r3, 7 * lim)) by {
        lemma_rotation_bounded(r2, lim, 5 * lim);
    }
    assert(rotation_fits(r3)) by {
        lemma_rotation_bounded(r3, lim, 7 * lim);
    }
    assert(rotated(r3) == ps) by {
        law_four_quarter_turns(ps);
    }
    assert(snapped(ps) == ps) by {
        law_grid_pieces_stay_on_grid(ps);
    }
    assert(rotated(rotated(rotated(snapped(r1)))) == ps);
}

/// Moving a piece brings its first square onto the target and keeps every
/// square's offset from the first one: the piece keeps its shape.
pub proof fn law_translation_keeps_shape(ps: Seq<Point>, tx: int, ty: int)
    requires
        ps.len() > 0,
        translation_fits(ps, tx, ty),
    ensures
        translated(ps, tx, ty).len() == ps.len(),
        translated(ps, tx, ty)[0].x == tx,
        translated(ps, tx, ty)[0].y == ty,
        forall|i: int|
            0 <= i < ps.len() ==> {
                &&& #[trigger] translated(ps, tx, ty)[i].x - tx == ps[i].x - ps[0].x
                &&& translated(ps, tx, ty)[i].y - ty == ps[i].y - ps[0].y
                &&& translated(ps, tx, ty)[i].z == ps[i].z
            },
{
    assert(fits_i64(ps[0].x + (tx - ps[0].x)));
    assert forall|i: int| 0 <= i < ps.len() implies {
        &&& #[trigger] translated(ps, tx, ty)[i].x - tx == ps[i].x - ps[0].x
        &&& translated(ps, tx, ty)[i].y - ty == ps[i].y - ps[0].y
        &&& translated(ps, tx, ty)[i].z == ps[i].z
    } by {
        assert(fits_i64(ps[i].x + (tx - ps[0].x)));
        assert(fits_i64(ps[i].y + (ty - ps[0].y)));
    }
}

/// The cursor over the centre of one of a piece's squares is over the piece.
pub proof fn law_piece_contains_its_centres(ps: Seq<Point>, i: int)
    requires
        0 <= i < ps.len(),
    ensures
        squares_contain(ps, Point2 { x: ps[i].x, y: ps[i].y }),
{
    assert(HALF_SQUARE == 25);
    assert(square_contains(ps[i], Point2 { x: ps[i].x, y: ps[i].y }));
}

} // verus!

verus! {

/// A piece moved to the cursor lies under the cursor: its first square is
/// centred on it, so a click there hits the piece.
pub proof fn law_moved_piece_contains_cursor(ps: Seq<Point>, cursor: Point2)
    requires
        ps.len() > 0,
        translation_fits(ps, cursor.x as int, cursor.y as int),
    ensures
        squares_contain(translated(ps, cursor.x as int, cursor.y as int), cursor),
{
    law_translation_keeps_shape(ps, cursor.x as int, cursor.y as int);
    let t = translated(ps, cursor.x as int, cursor.y as int);
    law_piece_contains_its_centres(t, 0);
    assert(Point2 { x: t[0].x, y: t[0].y } == cursor);
}

} // verus!
