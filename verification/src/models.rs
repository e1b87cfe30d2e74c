//! The leaf data entities: fixed-point 2D vectors, mass points, and ropes
//! (fixed-length constraints between two points held by arena index).

use vstd::prelude::*;
use crate::COORD_LIMIT;
use crate::LEN_MAX;
use crate::num::{clamp_spec, clamp_coord, sqrt_floor, isqrt};

verus! {

/// A fixed-point 2D vector: each component counts thousandths of a world unit.
#[derive(Clone, Copy, PartialEq, Eq, Structural, Debug)]
pub struct Vec2Fx {
    pub x: i64,
    pub y: i64,
}

impl Vec2Fx {
    /// Both components lie inside the coordinate box.
    pub open spec fn in_bounds(self) -> bool {
        -(COORD_LIMIT as int) <= self.x <= COORD_LIMIT as int
            && -(COORD_LIMIT as int) <= self.y <= COORD_LIMIT as int
    }

    pub fn new(x: i64, y: i64) -> (v: Vec2Fx)
        ensures
            v == (Vec2Fx { x, y }),
    {
        Vec2Fx { x, y }
    }

    /// Saturate both components into the coordinate box.
    pub open spec fn clamped_spec(self) -> Vec2Fx {
        Vec2Fx { x: clamp_spec(self.x as int) as i64, y: clamp_spec(self.y as int) as i64 }
    }

    pub fn clamped(self) -> (v: Vec2Fx)
        ensures
            v == self.clamped_spec(),
            v.in_bounds(),
    {
        Vec2Fx { x: clamp_coord(self.x), y: clamp_coord(self.y) }
    }
}

/// The squared Euclidean distance between two vectors, as a mathematical int.
pub open spec fn dist_sq(a: Vec2Fx, b: Vec2Fx) -> int {
    (a.x - b.x) * (a.x - b.x) + (a.y - b.y) * (a.y - b.y)
}

/// The Euclidean distance between two vectors, rounded down.
pub open spec fn dist_fx(a: Vec2Fx, b: Vec2Fx) -> int {
    sqrt_floor(dist_sq(a, b) as nat) as int
}

/// Squared distances of in-bounds vectors fit comfortably below `i64::MAX`.
pub proof fn lemma_dist_sq_bounds(a: Vec2Fx, b: Vec2Fx)
    requires
        a.in_bounds(),
        b.in_bounds(),
    ensures
        0 <= dist_sq(a, b) <= 8_000_000_000_000_000_000,
        0 <= dist_fx(a, b) < LEN_MAX as int,
{
    assert(0 <= dist_sq(a, b) <= 8_000_000_000_000_000_000) by (nonlinear_arith)
        requires
            -(COORD_LIMIT as int) <= a.x <= COORD_LIMIT as int,
            -(COORD_LIMIT as int) <= a.y <= COORD_LIMIT as int,
            -(COORD_LIMIT as int) <= b.x <= COORD_LIMIT as int,
            -(COORD_LIMIT as int) <= b.y <= COORD_LIMIT as int,
            COORD_LIMIT == 1_000_000_000i64,
    {
    }
    let n = dist_sq(a, b) as nat;
    crate::num::lemma_sqrt_floor_bounds(n);
    let s = sqrt_floor(n);
    assert(s < 3_000_000_000) by (nonlinear_arith)
        requires
            s * s <= n,
            n <= 8_000_000_000_000_000_000,
    {
    }
}

/// Compute the rounded-down Euclidean distance between two in-bounds vectors.
pub fn distance(a: Vec2Fx, b: Vec2Fx) -> (r: i64)
    requires
        a.in_bounds(),
        b.in_bounds(),
    ensures
        r == dist_fx(a, b),
        0 <= r < LEN_MAX,
{
    proof {
        lemma_dist_sq_bounds(a, b);
        assert((a.x - b.x) * (a.x - b.x) <= 4_000_000_000_000_000_000
            && (a.y - b.y) * (a.y - b.y) <= 4_000_000_000_000_000_000
            && (a.x - b.x) * (a.x - b.x) >= 0
            && (a.y - b.y) * (a.y - b.y) >= 0) by (nonlinear_arith)
            requires
                -(COORD_LIMIT as int) <= a.x <= COORD_LIMIT as int,
                -(COORD_LIMIT as int) <= a.y <= COORD_LIMIT as int,
                -(COORD_LIMIT as int) <= b.x <= COORD_LIMIT as int,
                -(COORD_LIMIT as int) <= b.y <= COORD_LIMIT as int,
                COORD_LIMIT == 1_000_000_000i64,
        {
        }
    }
    let dx = a.x - b.x;
    let dy = a.y - b.y;
    let sq = (dx * dx + dy * dy) as u64;
    let r = isqrt(sq);
    r as i64
}

/// A particle: authoritative position, position one step ago, and a pin flag.
#[derive(Clone, Copy, PartialEq, Eq, Structural, Debug)]
pub struct RopePoint {
    pub current_pos: Vec2Fx,
    pub prev_pos: Vec2Fx,
    pub locked: bool,
}

impl RopePoint {
    pub open spec fn wf(self) -> bool {
        self.current_pos.in_bounds() && self.prev_pos.in_bounds()
    }

    /// A fresh point is at rest: its previous position equals its current one.
    pub fn new(current_pos: Vec2Fx, locked: bool) -> (p: RopePoint)
        ensures
            p == (RopePoint { current_pos, prev_pos: current_pos, locked }),
    {
        RopePoint { current_pos, prev_pos: current_pos, locked }
    }
}

/// Make a fresh, resting point (the free-standing constructor).
pub fn new_point(pos: Vec2Fx, locked: bool) -> (p: RopePoint)
    ensures
        p == (RopePoint { current_pos: pos, prev_pos: pos, locked }),
{
    RopePoint::new(pos, locked)
}

/// A fixed-length link between the points at arena indices `end1` and `end2`.
/// `length` is the distance between the two at creation time, never updated.
#[derive(Clone, Copy, PartialEq, Eq, Structural, Debug)]
pub struct Rope {
    pub end1: usize,
    pub end2: usize,
    pub length: i64,
}

impl Rope {
    /// Endpoint indices in range, and a rest length a distance could produce.
    pub open spec fn wf(self, n_points: int) -> bool {
        self.end1 < n_points && self.end2 < n_points && 0 <= self.length < LEN_MAX as int
    }

    /// Link the points at indices `end1` and `end2`, whose current positions
    /// are `pos1` and `pos2`; the rest length is their distance right now.
    pub fn new(end1: usize, end2: usize, pos1: Vec2Fx, pos2: Vec2Fx) -> (r: Rope)
        requires
            pos1.in_bounds(),
            pos2.in_bounds(),
        ensures
            r == (Rope { end1, end2, length: dist_fx(pos1, pos2) as i64 }),
    {
        let length = distance(pos1, pos2);
        Rope { end1, end2, length }
    }
}

} // verus!
