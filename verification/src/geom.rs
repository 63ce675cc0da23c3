//! Planar geometry for the proximity queries: points, collidable entities,
//! and squared Euclidean distance.
//!
//! Positions are integer world units.  All distance comparisons are made on
//! squared distances, so no rounding ever enters a containment decision:
//! a point is within radius `r` of a center exactly when the squared
//! distance is at most `r * r`.

use vstd::prelude::*;

verus! {

/// A position in the plane, in integer world units.
#[derive(Clone, Copy, PartialEq, Eq, Structural, Debug)]
pub struct Point2 {
    pub x: i32,
    pub y: i32,
}

/// An entity tracked for proximity queries: a stable opaque handle together
/// with the position it had when the snapshot was taken.  The index owns
/// only this copy, never the entity itself.
#[derive(Clone, Copy, PartialEq, Eq, Structural, Debug)]
pub struct Collidable {
    pub entity: u64,
    pub pos: Point2,
}

impl Point2 {
    pub fn new(x: i32, y: i32) -> (p: Point2)
        ensures
            p == (Point2 { x, y }),
    {
        Point2 { x, y }
    }
}

impl Collidable {
    pub fn new(entity: u64, pos: Point2) -> (c: Collidable)
        ensures
            c == (Collidable { entity, pos }),
    {
        Collidable { entity, pos }
    }

    /// The coordinate of this point on axis `k`: `x` for `k == 0`, `y`
    /// otherwise.
    pub fn at(&self, k: usize) -> (c: i32)
        ensures
            c as int == axis_coord(self.pos, k == 0),
    {
        if k == 0 {
            return self.pos.x;
        }
        self.pos.y
    }
}

/// Executable twin of [`axis_coord`].
pub fn axis_key(p: Point2, x_axis: bool) -> (k: i32)
    ensures
        k as int == axis_coord(p, x_axis),
{
    if x_axis {
        p.x
    } else {
        p.y
    }
}

/// The coordinate of `p` on the splitting axis: `x` when `x_axis` holds,
/// `y` otherwise.
pub open spec fn axis_coord(p: Point2, x_axis: bool) -> int {
    if x_axis {
        p.x as int
    } else {
        p.y as int
    }
}

/// Squared Euclidean distance between two points.
pub open spec fn dist_sq(a: Point2, b: Point2) -> int {
    (a.x - b.x) * (a.x - b.x) + (a.y - b.y) * (a.y - b.y)
}

/// `p` lies within (inclusive) radius `r` of `center`.
pub open spec fn within_radius(p: Point2, center: Point2, r: int) -> bool {
    dist_sq(p, center) <= r * r
}

/// Computes the squared distance exactly.  The coordinate differences fit in
/// `i64` and their squares sum inside `i128`, so the computation never
/// overflows for any pair of points.
pub fn dist_sq_exec(a: Point2, b: Point2) -> (d: i128)
    ensures
        d as int == dist_sq(a, b),
{
    let dx: i64 = (a.x as i64) - (b.x as i64);
    let dy: i64 = (a.y as i64) - (b.y as i64);
    proof {
        lemma_square_bound(dx as int);
        lemma_square_bound(dy as int);
    }
    (dx as i128) * (dx as i128) + (dy as i128) * (dy as i128)
}

/// Decides `within_radius` exactly on executable values.
pub fn within_radius_exec(p: Point2, center: Point2, radius: u32) -> (b: bool)
    ensures
        b == within_radius(p, center, radius as int),
{
    proof {
        lemma_square_bound(radius as int);
    }
    dist_sq_exec(p, center) <= (radius as i128) * (radius as i128)
}

/// A bounded value has a bounded square; used to show that squared
/// distances fit in `i128`.
proof fn lemma_square_bound(v: int)
    requires
        -0x1_0000_0000 <= v <= 0x1_0000_0000,
    ensures
        0 <= v * v <= 0x1_0000_0000_0000_0000,
{
    assert(0 <= v * v <= 0x1_0000_0000_0000_0000) by (nonlinear_arith)
        requires
            -0x1_0000_0000 <= v <= 0x1_0000_0000,
    ;
}

/// Squares are never negative.
pub proof fn lemma_square_nonneg(v: int)
    ensures
        v * v >= 0,
{
    assert(v * v >= 0) by (nonlinear_arith);
}

/// Squaring preserves strict order on non-negative values.
pub proof fn lemma_square_strictly_monotonic(a: int, b: int)
    requires
        0 <= a < b,
    ensures
        a * a < b * b,
{
    assert(a * a < b * b) by (nonlinear_arith)
        requires
            0 <= a < b,
    ;
}

/// Squaring preserves order on non-negative values.
pub proof fn lemma_square_monotonic(a: int, b: int)
    requires
        0 <= a <= b,
    ensures
        a * a <= b * b,
{
    assert(a * a <= b * b) by (nonlinear_arith)
        requires
            0 <= a <= b,
    ;
}

/// The squared distance dominates the squared coordinate difference on
/// either single axis; this is what justifies pruning a subtree whose
/// splitting line lies entirely outside the search circle.
pub proof fn lemma_axis_gap_bounds_dist(p: Point2, c: Point2, x_axis: bool)
    ensures
        dist_sq(p, c) >= (axis_coord(p, x_axis) - axis_coord(c, x_axis)) * (axis_coord(p, x_axis)
            - axis_coord(c, x_axis)),
{
    if x_axis {
        lemma_square_nonneg(p.y - c.y);
    } else {
        lemma_square_nonneg(p.x - c.x);
    }
}

/// A point whose coordinate on one axis is further than `r` from the
/// center's coordinate on that axis cannot lie within radius `r`.
pub proof fn lemma_axis_gap_excludes(p: Point2, c: Point2, x_axis: bool, r: int)
    requires
        r >= 0,
        axis_coord(p, x_axis) - axis_coord(c, x_axis) > r || axis_coord(c, x_axis) - axis_coord(
            p,
            x_axis,
        ) > r,
    ensures
        !within_radius(p, c, r),
{
    let pc = axis_coord(p, x_axis) - axis_coord(c, x_axis);
    let gap = if pc > r {
        pc
    } else {
        -pc
    };
    lemma_square_strictly_monotonic(r, gap);
    lemma_axis_gap_bounds_dist(p, c, x_axis);
    assert(gap * gap == pc * pc) by (nonlinear_arith)
        requires
            gap == pc || gap == -pc,
    ;
}

} // verus!
