//! Planar spatial model behind the nearby search and the first-in-area check.
//!
//! Locations are points on a metric grid: coordinates in whole metres on a
//! plane. Projecting geographic coordinates into such a plane is the caller's
//! concern; the core only asks "is this point within `r` metres of that one?",
//! which any spatial backend may answer, so it is answered here exactly, by
//! comparing squared Euclidean distances in integers.

use vstd::prelude::*;

verus! {

/// Coordinates are bounded so that every squared distance fits comfortably
/// in an `i64`. Thirty thousand kilometres exceeds any distance on a plane
/// that models points on Earth.
pub const COORD_LIMIT_M: i64 = 30_000_000;

/// Largest radius, in metres, that a spatial query may use.
pub const RADIUS_LIMIT_M: i64 = 100_000_000;

/// A point of the metric grid: `x_m` metres east and `y_m` metres north of
/// the grid's origin.
#[derive(Debug, Clone, Copy, PartialEq, Eq, Structural)]
pub struct Location {
    pub x_m: i64,
    pub y_m: i64,
}

impl Location {
    pub open spec fn in_bounds(self) -> bool {
        &&& -COORD_LIMIT_M <= self.x_m <= COORD_LIMIT_M
        &&& -COORD_LIMIT_M <= self.y_m <= COORD_LIMIT_M
    }
}

/// Squared Euclidean distance between two points, in square metres.
pub open spec fn dist_sq(a: Location, b: Location) -> int {
    (a.x_m - b.x_m) * (a.x_m - b.x_m) + (a.y_m - b.y_m) * (a.y_m - b.y_m)
}

/// Whether `a` lies within `radius_m` metres of `b`.
pub open spec fn within_radius(a: Location, b: Location, radius_m: int) -> bool {
    dist_sq(a, b) <= radius_m * radius_m
}

/// Products of values bounded by `2 * COORD_LIMIT_M` or `RADIUS_LIMIT_M`
/// stay well inside `i64`.
proof fn lemma_square_bound(d: int, bound: int)
    by (nonlinear_arith)
    requires
        0 <= bound,
        -bound <= d <= bound,
    ensures
        0 <= d * d <= bound * bound,
{
}

/// Decides `within_radius` on bounded inputs.
pub fn is_within_radius(a: &Location, b: &Location, radius_m: i64) -> (r: bool)
    requires
        a.in_bounds(),
        b.in_bounds(),
        0 <= radius_m <= RADIUS_LIMIT_M,
    ensures
        r == within_radius(*a, *b, radius_m as int),
{
    let dx: i64 = a.x_m - b.x_m;
    let dy: i64 = a.y_m - b.y_m;
    proof {
        lemma_square_bound(dx as int, 2 * COORD_LIMIT_M);
        lemma_square_bound(dy as int, 2 * COORD_LIMIT_M);
        lemma_square_bound(radius_m as int, RADIUS_LIMIT_M as int);
    }
    let dsq: i64 = dx * dx + dy * dy;
    dsq <= radius_m * radius_m
}

} // verus!
