//! Plane geometry on the milli-unit grid.
//!
//! Positions and velocities are pairs of `i64` coordinates. A position is in
//! milli-units (one thousandth of a world unit); a velocity is in world units
//! per second, so `v * dt_ms` is a displacement in milli-units. Collision
//! tests are the two the game uses: a Euclidean center-distance threshold
//! and a strict axis-aligned box overlap.

use vstd::prelude::*;

verus! {

/// A point of the arena plane, in milli-units.
#[derive(Clone, Copy, PartialEq, Eq, Structural, Debug)]
pub struct Pos {
    pub x: i64,
    pub y: i64,
}

/// A velocity, in world units per second per axis.
#[derive(Clone, Copy, PartialEq, Eq, Structural, Debug)]
pub struct Vel {
    pub x: i64,
    pub y: i64,
}

/// The largest coordinate magnitude the squared-distance test accepts:
/// beyond it the 128-bit squares could overflow. Every position the game
/// keeps is far below it.
pub const COORD_LIMIT: i64 = 0x2000_0000_0000_0000;

/// The squared Euclidean distance between two points.
pub open spec fn dist_sq(a: Pos, b: Pos) -> int {
    (a.x - b.x) * (a.x - b.x) + (a.y - b.y) * (a.y - b.y)
}

/// Whether `a` and `b` lie strictly closer than `radius` milli-units apart.
pub open spec fn within_radius(a: Pos, b: Pos, radius: i64) -> bool {
    dist_sq(a, b) < radius * radius
}

/// Whether two axis-aligned boxes, given by center and half-extent,
/// strictly overlap on both axes.
pub open spec fn boxes_overlap(ca: Pos, ha: Pos, cb: Pos, hb: Pos) -> bool {
    &&& ca.x - cb.x < ha.x + hb.x
    &&& cb.x - ca.x < ha.x + hb.x
    &&& ca.y - cb.y < ha.y + hb.y
    &&& cb.y - ca.y < ha.y + hb.y
}

/// Decides [`within_radius`]; squares are taken in 128 bits, so any
/// coordinates are accepted.
pub fn check_within_radius(a: Pos, b: Pos, radius: i64) -> (r: bool)
    requires
        -COORD_LIMIT <= a.x <= COORD_LIMIT,
        -COORD_LIMIT <= a.y <= COORD_LIMIT,
        -COORD_LIMIT <= b.x <= COORD_LIMIT,
        -COORD_LIMIT <= b.y <= COORD_LIMIT,
    ensures
        r == within_radius(a, b, radius),
{
    let dx: i128 = a.x as i128 - b.x as i128;
    let dy: i128 = a.y as i128 - b.y as i128;
    let r128: i128 = radius as i128;
    proof {
        assert(0 <= r128 * r128 <= 0x4000_0000_0000_0000_0000_0000_0000_0000i128)
            by (nonlinear_arith)
            requires
                -0x8000_0000_0000_0000i128 <= r128 <= 0x7fff_ffff_ffff_ffffi128,
        ;
        assert(0 <= dx * dx <= 0x1000_0000_0000_0000_0000_0000_0000_0000i128)
            by (nonlinear_arith)
            requires
                -0x4000_0000_0000_0000i128 <= dx <= 0x4000_0000_0000_0000i128,
        ;
        assert(0 <= dy * dy <= 0x1000_0000_0000_0000_0000_0000_0000_0000i128)
            by (nonlinear_arith)
            requires
                -0x4000_0000_0000_0000i128 <= dy <= 0x4000_0000_0000_0000i128,
        ;
    }
    let rr: i128 = r128 * r128;
    dx * dx + dy * dy < rr
}

/// Decides [`boxes_overlap`]; differences are taken in 128 bits, so any
/// coordinates are accepted.
pub fn check_boxes_overlap(ca: Pos, ha: Pos, cb: Pos, hb: Pos) -> (r: bool)
    ensures
        r == boxes_overlap(ca, ha, cb, hb),
{
    let hx: i128 = ha.x as i128 + hb.x as i128;
    let hy: i128 = ha.y as i128 + hb.y as i128;
    let dx: i128 = ca.x as i128 - cb.x as i128;
    let dy: i128 = ca.y as i128 - cb.y as i128;
    let overlap_x: bool = dx < hx && -dx < hx;
    let overlap_y: bool = dy < hy && -dy < hy;
    overlap_x && overlap_y
}

} // verus!
