use vstd::prelude::*;

verus! {

/// Half the width of a square: the distance from a square's centre to its edge.
pub const HALF_SQUARE: i64 = 25;

/// Largest coordinate magnitude, in pixels, that the game systems accept.
///
/// Every piece is at most a few hundred pixels across, so rotating or
/// snapping a piece whose squares lie within this bound stays far from the
/// limits of `i64`.
pub const WORLD_LIMIT: i64 = 1_099_511_627_776;

/// A point of the game world, in pixels, with the drawing layer in `z`.
///
/// The y axis points up, as in the rendering engine's 2D world.
#[derive(Clone, Copy, Debug, PartialEq, Eq, Structural)]
pub struct Point {
    pub x: i64,
    pub y: i64,
    pub z: i64,
}

/// A point of the plane, in pixels (the cursor's position).
#[derive(Clone, Copy, Debug, PartialEq, Eq, Structural)]
pub struct Point2 {
    pub x: i64,
    pub y: i64,
}

impl Point {
    pub fn new(x: i64, y: i64, z: i64) -> (p: Point)
        ensures
            p.x == x,
            p.y == y,
            p.z == z,
    {
        Point { x, y, z }
    }

    /// The projection of the point on the plane.
    pub fn xy(&self) -> (p: Point2)
        ensures
            p.x == self.x,
            p.y == self.y,
    {
        Point2 { x: self.x, y: self.y }
    }
}

impl Point2 {
    pub fn new(x: i64, y: i64) -> (p: Point2)
        ensures
            p.x == x,
            p.y == y,
    {
        Point2 { x, y }
    }

    /// Whether both coordinates lie within `WORLD_LIMIT` of the origin.
    pub fn in_world(&self) -> (b: bool)
        ensures
            b == within_xy(*self, WORLD_LIMIT as int),
    {
        -WORLD_LIMIT <= self.x && self.x <= WORLD_LIMIT && -WORLD_LIMIT <= self.y && self.y <= WORLD_LIMIT
    }
}

/// `v` can be held by an `i64`.
pub open spec fn fits_i64(v: int) -> bool {
    i64::MIN <= v <= i64::MAX
}

/// The absolute value of `v`.
pub open spec fn abs(v: int) -> int {
    if v < 0 {
        -v
    } else {
        v
    }
}

/// Both plane coordinates of `p` lie within `bound` of the origin.
pub open spec fn within(p: Point, bound: int) -> bool {
    abs(p.x as int) <= bound && abs(p.y as int) <= bound
}

/// Both coordinates of the plane point `p` lie within `bound` of the origin.
pub open spec fn within_xy(p: Point2, bound: int) -> bool {
    abs(p.x as int) <= bound && abs(p.y as int) <= bound
}

/// Every point of `ps` lies within `bound` of the origin.
pub open spec fn all_within(ps: Seq<Point>, bound: int) -> bool {
    forall|i: int| 0 <= i < ps.len() ==> within(#[trigger] ps[i], bound)
}

/// `a` and `b` have the same plane coordinates.
pub open spec fn same_xy(a: Point, b: Point) -> bool {
    a.x == b.x && a.y == b.y
}

/// A copy of a sequence of points.
pub fn copy_points(ps: &Vec<Point>) -> (r: Vec<Point>)
    ensures
        r@ == ps@,
{
    let mut r: Vec<Point> = Vec::new();
    let n = ps.len();
    for i in 0..n
        invariant
            n == ps@.len(),
            r@ == ps@.subrange(0, i as int),
    {
        r.push(ps[i]);
        assert(r@ =~= ps@.subrange(0, i + 1));
    }
    assert(r@ =~= ps@);
    r
}

/// `all_within` checked at run time.
pub fn points_within_world(ps: &Vec<Point>) -> (r: bool)
    ensures
        r == all_within(ps@, WORLD_LIMIT as int),
{
    let n = ps.len();
    for i in 0..n
        invariant
            n == ps@.len(),
            forall|j: int| 0 <= j < i ==> within(#[trigger] ps@[j], WORLD_LIMIT as int),
    {
        let p = ps[i];
        if p.x < -WORLD_LIMIT || p.x > WORLD_LIMIT || p.y < -WORLD_LIMIT || p.y > WORLD_LIMIT {
            assert(!within(ps@[i as int], WORLD_LIMIT as int));
            return false;
        }
    }
    true
}

} // verus!
