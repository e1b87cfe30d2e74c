//! The scene: the ordered arena of points and the ropes linking them, with
//! every topology edit (add, remove, lock, drag, clear, bulk grid build).

use vstd::prelude::*;
use crate::models::{Vec2Fx, RopePoint, Rope, new_point, dist_fx, dist_sq, lemma_dist_sq_bounds};
use crate::num::{sqrt_floor, lemma_sqrt_floor_unique};
use crate::GRID_STEP;
use vstd::arithmetic::div_mod::lemma_fundamental_div_mod_converse;

verus! {

/// Component-wise proximity: `p` lies in the axis-aligned box of half-side
/// `rad` around `q` (the test the pointer interactions use).
pub open spec fn near_spec(p: Vec2Fx, q: Vec2Fx, rad: int) -> bool {
    -rad <= p.x - q.x <= rad && -rad <= p.y - q.y <= rad
}

/// The first index at or after `i` whose point is near `pos`, if any.
pub open spec fn first_near_from(ps: Seq<RopePoint>, pos: Vec2Fx, rad: int, i: int) -> Option<int>
    decreases ps.len() - i,
{
    if i < 0 || i >= ps.len() {
        None
    } else if near_spec(ps[i].current_pos, pos, rad) {
        Some(i)
    } else {
        first_near_from(ps, pos, rad, i + 1)
    }
}

/// The first point (in insertion order) within `rad` of `pos`.
pub open spec fn first_near(ps: Seq<RopePoint>, pos: Vec2Fx, rad: int) -> Option<int> {
    first_near_from(ps, pos, rad, 0)
}

/// Does either endpoint of `r` currently sit exactly at `pos`? Removal purges
/// ropes by this position test, so two coincident points are conflated: a
/// deliberate simplification, kept as documented behaviour.
pub open spec fn rope_touches(ps: Seq<RopePoint>, r: Rope, pos: Vec2Fx) -> bool {
    (r.end1 < ps.len() && ps[r.end1 as int].current_pos == pos)
        || (r.end2 < ps.len() && ps[r.end2 as int].current_pos == pos)
}

/// Re-aim a rope after the point at index `i` left the arena: indices above
/// `i` slide down by one.
pub open spec fn shift_rope(r: Rope, i: int) -> Rope {
    Rope {
        end1: if r.end1 > i { (r.end1 - 1) as usize } else { r.end1 },
        end2: if r.end2 > i { (r.end2 - 1) as usize } else { r.end2 },
        length: r.length,
    }
}

/// The ropes that survive removing the point at index `i` (which sits at
/// `pos`), in their original order, with endpoint indices re-aimed.
pub open spec fn purge_ropes(ps: Seq<RopePoint>, ropes: Seq<Rope>, pos: Vec2Fx, i: int) -> Seq<Rope>
    decreases ropes.len(),
{
    if ropes.len() == 0 {
        Seq::empty()
    } else {
        let rest = purge_ropes(ps, ropes.drop_last(), pos, i);
        if rope_touches(ps, ropes.last(), pos) {
            rest
        } else {
            rest.push(shift_rope(ropes.last(), i))
        }
    }
}

/// How many ropes have an endpoint currently sitting exactly at `pos`.
pub open spec fn count_touching(ps: Seq<RopePoint>, ropes: Seq<Rope>, pos: Vec2Fx) -> int
    decreases ropes.len(),
{
    if ropes.len() == 0 {
        0
    } else {
        count_touching(ps, ropes.drop_last(), pos) + if rope_touches(ps, ropes.last(), pos) {
            1int
        } else {
            0int
        }
    }
}

/// The incident count is between zero and the number of ropes.
pub proof fn lemma_count_touching_bounds(ps: Seq<RopePoint>, ropes: Seq<Rope>, pos: Vec2Fx)
    ensures
        0 <= count_touching(ps, ropes, pos) <= ropes.len(),
    decreases ropes.len(),
{
    if ropes.len() > 0 {
        lemma_count_touching_bounds(ps, ropes.drop_last(), pos);
    }
}

/// Topology integrity of removal: the ropes that survive removing point `i`
/// are exactly the ones not incident (by position) to it — their number
/// drops by exactly the incident count — and each survivor is re-aimed at a
/// live index whose point does not carry the removed position signature.
pub proof fn lemma_remove_point_integrity(ps: Seq<RopePoint>, ropes: Seq<Rope>, i: int)
    requires
        0 <= i < ps.len(),
        forall|k: int| 0 <= k < ropes.len() ==> (#[trigger] ropes[k]).wf(ps.len() as int),
    ensures
        purge_ropes(ps, ropes, ps[i].current_pos, i).len() == ropes.len() - count_touching(
            ps,
            ropes,
            ps[i].current_pos,
        ),
        forall|m: int|
            0 <= m < purge_ropes(ps, ropes, ps[i].current_pos, i).len() ==> (#[trigger] purge_ropes(
                ps,
                ropes,
                ps[i].current_pos,
                i,
            )[m]).wf(ps.len() - 1) && ps.remove(i)[purge_ropes(ps, ropes, ps[i].current_pos, i)[m].end1 as int].current_pos
                != ps[i].current_pos && ps.remove(i)[purge_ropes(
                ps,
                ropes,
                ps[i].current_pos,
                i,
            )[m].end2 as int].current_pos != ps[i].current_pos,
    decreases ropes.len(),
{
    lemma_count_touching_bounds(ps, ropes, ps[i].current_pos);
    if ropes.len() > 0 {
        lemma_remove_point_integrity(ps, ropes.drop_last(), i);
        let pos = ps[i].current_pos;
        let last = ropes.last();
        let kept = purge_ropes(ps, ropes, pos, i);
        let rest = purge_ropes(ps, ropes.drop_last(), pos, i);
        if !rope_touches(ps, last, pos) {
            let sr = shift_rope(last, i);
            assert(last.wf(ps.len() as int));
            assert(last.end1 != i && last.end2 != i);
            assert(kept == rest.push(sr));
            assert(ps.remove(i)[sr.end1 as int] == ps[last.end1 as int]);
            assert(ps.remove(i)[sr.end2 as int] == ps[last.end2 as int]);
        }
    }
}

/// The mutable collection of points and ropes. Ropes hold arena indices into
/// `points`; well-formedness keeps every index in range and every coordinate
/// inside the fixed-point box.
pub struct Scene {
    pub points: Vec<RopePoint>,
    pub ropes: Vec<Rope>,
}

impl Scene {
    pub open spec fn wf(self) -> bool {
        (forall|k: int| 0 <= k < self.points@.len() ==> (#[trigger] self.points@[k]).wf())
            && (forall|k: int|
                0 <= k < self.ropes@.len() ==> (#[trigger] self.ropes@[k]).wf(
                    self.points@.len() as int,
                ))
    }

    pub fn new() -> (s: Scene)
        ensures
            s.wf(),
            s.points@.len() == 0,
            s.ropes@.len() == 0,
    {
        Scene { points: Vec::new(), ropes: Vec::new() }
    }

    /// Append a fresh resting point; no rope is implied. Returns its index.
    pub fn add_point(&mut self, pos: Vec2Fx, locked: bool) -> (idx: usize)
        requires
            old(self).wf(),
            pos.in_bounds(),
        ensures
            final(self).wf(),
            final(self).points@ == old(self).points@.push(
                RopePoint { current_pos: pos, prev_pos: pos, locked },
            ),
            final(self).ropes@ == old(self).ropes@,
            idx == old(self).points@.len(),
    {
        let idx = self.points.len();
        let p = new_point(pos, locked);
        self.points.push(p);
        idx
    }

    /// Link the points at indices `a` and `b`; the rest length is their
    /// current distance. `a == b` is allowed and yields a zero-length rope.
    pub fn add_rope(&mut self, a: usize, b: usize)
        requires
            old(self).wf(),
            a < old(self).points@.len(),
            b < old(self).points@.len(),
        ensures
            final(self).wf(),
            final(self).points@ == old(self).points@,
            final(self).ropes@ == old(self).ropes@.push(
                Rope {
                    end1: a,
                    end2: b,
                    length: dist_fx(
                        old(self).points@[a as int].current_pos,
                        old(self).points@[b as int].current_pos,
                    ) as i64,
                },
            ),
    {
        let pa = self.points[a].current_pos;
        let pb = self.points[b].current_pos;
        proof {
            lemma_dist_sq_bounds(pa, pb);
        }
        let rope = Rope::new(a, b, pa, pb);
        self.ropes.push(rope);
    }

    /// Flip the pin flag of the point at index `i`.
    pub fn toggle_lock(&mut self, i: usize)
        requires
            old(self).wf(),
            i < old(self).points@.len(),
        ensures
            final(self).wf(),
            final(self).ropes@ == old(self).ropes@,
            final(self).points@ == old(self).points@.update(
                i as int,
                RopePoint {
                    locked: !old(self).points@[i as int].locked,
                    ..old(self).points@[i as int]
                },
            ),
    {
        let p = self.points[i];
        self.points.set(i, RopePoint { current_pos: p.current_pos, prev_pos: p.prev_pos, locked: !p.locked });
    }

    /// Overwrite the current position of the point at index `i` only; the
    /// previous position is untouched, so the next step reads the move as a
    /// velocity (a drag "throws" the point).
    pub fn set_position(&mut self, i: usize, pos: Vec2Fx)
        requires
            old(self).wf(),
            i < old(self).points@.len(),
            pos.in_bounds(),
        ensures
            final(self).wf(),
            final(self).ropes@ == old(self).ropes@,
            final(self).points@ == old(self).points@.update(
                i as int,
                RopePoint { current_pos: pos, ..old(self).points@[i as int] },
            ),
    {
        let p = self.points[i];
        self.points.set(i, RopePoint { current_pos: pos, prev_pos: p.prev_pos, locked: p.locked });
    }

    /// Empty both collections.
    pub fn clear(&mut self)
        ensures
            final(self).wf(),
            final(self).points@.len() == 0,
            final(self).ropes@.len() == 0,
    {
        self.points = Vec::new();
        self.ropes = Vec::new();
    }

    /// The first point (in insertion order) within the axis-aligned box of
    /// half-side `rad` around `pos` — the first match, not the closest.
    pub fn find_point_near(&self, pos: Vec2Fx, rad: i64) -> (r: Option<usize>)
        requires
            self.wf(),
            pos.in_bounds(),
            0 <= rad,
        ensures
            r matches Some(i) ==> Some(i as int) == first_near(self.points@, pos, rad as int),
            r is None ==> first_near(self.points@, pos, rad as int) is None,
            match r {
                Some(i) => i < self.points@.len()
                    && near_spec(self.points@[i as int].current_pos, pos, rad as int)
                    && forall|j: int|
                        0 <= j < i ==> !near_spec(
                            (#[trigger] self.points@[j]).current_pos,
                            pos,
                            rad as int,
                        ),
                None => forall|j: int|
                    0 <= j < self.points@.len() ==> !near_spec(
                        (#[trigger] self.points@[j]).current_pos,
                        pos,
                        rad as int,
                    ),
            },
    {
        let n = self.points.len();
        let mut i: usize = 0;
        while i < n
            invariant
                self.wf(),
                pos.in_bounds(),
                0 <= rad,
                n == self.points@.len(),
                i <= n,
                first_near(self.points@, pos, rad as int) == first_near_from(
                    self.points@,
                    pos,
                    rad as int,
                    i as int,
                ),
                forall|j: int|
                    0 <= j < i ==> !near_spec(
                        (#[trigger] self.points@[j]).current_pos,
                        pos,
                        rad as int,
                    ),
            decreases n - i,
        {
            let p = self.points[i].current_pos;
            let dx = p.x - pos.x;
            let dy = p.y - pos.y;
            if -rad <= dx && dx <= rad && -rad <= dy && dy <= rad {
                return Some(i);
            }
            i = i + 1;
        }
        None
    }

    /// Remove the point at index `i`, and with it every rope whose either
    /// endpoint currently sits exactly where the removed point sits (position
    /// equality, not identity). Surviving ropes keep their order and are
    /// re-aimed at the shifted indices.
    pub fn remove_point(&mut self, i: usize)
        requires
            old(self).wf(),
            i < old(self).points@.len(),
        ensures
            final(self).wf(),
            final(self).points@ == old(self).points@.remove(i as int),
            final(self).ropes@ == purge_ropes(
                old(self).points@,
                old(self).ropes@,
                old(self).points@[i as int].current_pos,
                i as int,
            ),
    {
        let ghost ps0 = self.points@;
        let ghost ropes0 = self.ropes@;
        let pos = self.points[i].current_pos;
        let n = self.ropes.len();
        let mut kept: Vec<Rope> = Vec::new();
        let mut j: usize = 0;
        while j < n
            invariant
                self.wf(),
                self.points@ == ps0,
                self.ropes@ == ropes0,
                i < ps0.len(),
                pos == ps0[i as int].current_pos,
                n == ropes0.len(),
                j <= n,
                kept@ == purge_ropes(ps0, ropes0.take(j as int), pos, i as int),
                forall|k: int|
                    0 <= k < kept@.len() ==> (#[trigger] kept@[k]).wf(ps0.len() - 1),
            decreases n - j,
        {
            let r = self.ropes[j];
            let touches = self.points[r.end1].current_pos == pos
                || self.points[r.end2].current_pos == pos;
            if !touches {
                let e1 = if r.end1 > i { r.end1 - 1 } else { r.end1 };
                let e2 = if r.end2 > i { r.end2 - 1 } else { r.end2 };
                kept.push(Rope { end1: e1, end2: e2, length: r.length });
            }
            proof {
                assert(ropes0.take(j + 1).drop_last() =~= ropes0.take(j as int));
                assert(ropes0.take(j + 1).last() == ropes0[j as int]);
            }
            j = j + 1;
        }
        proof {
            assert(ropes0.take(n as int) =~= ropes0);
        }
        self.ropes = kept;
        self.points.remove(i);
    }

    /// Replace the scene by the standard 26x26 cloth grid: points row-major
    /// at `GRID_STEP` spacing offset one step from the origin, the top row
    /// locked, and two ropes per interior cell (to the vertical and the
    /// horizontal neighbour of its upper-left corner).
    pub fn generate_grid(&mut self)
        ensures
            final(self).wf(),
            final(self).points@.len() == 676,
            forall|k: int| 0 <= k < 676 ==> final(self).points@[k] == grid_point_spec(k),
            forall|k: int| 0 <= k < 26 ==> (#[trigger] final(self).points@[k]).locked,
            forall|k: int| 26 <= k < 676 ==> !(#[trigger] final(self).points@[k]).locked,
            final(self).ropes@.len() == 1250,
            forall|m: int| 0 <= m < 1250 ==> final(self).ropes@[m] == grid_rope_spec(m),
    {
        self.points = Vec::new();
        self.ropes = Vec::new();
        let mut row: usize = 0;
        while row < 26
            invariant
                self.ropes@.len() == 0,
                row <= 26,
                self.points@.len() == row * 26,
                forall|k: int| 0 <= k < row * 26 ==> self.points@[k] == grid_point_spec(k),
            decreases 26 - row,
        {
            let mut col: usize = 0;
            while col < 26
                invariant
                    self.ropes@.len() == 0,
                    row < 26,
                    col <= 26,
                    self.points@.len() == row * 26 + col,
                    forall|k: int| 0 <= k < row * 26 + col ==> self.points@[k] == grid_point_spec(k),
                decreases 26 - col,
            {
                let x = (col as i64 + 1) * GRID_STEP;
                let y = (row as i64 + 1) * GRID_STEP;
                self.points.push(new_point(Vec2Fx { x, y }, row == 0));
                proof {
                    let k = row * 26 + col;
                    lemma_fundamental_div_mod_converse(k as int, 26, row as int, col as int);
                    assert(self.points@[k as int] == grid_point_spec(k as int));
                }
                col = col + 1;
            }
            row = row + 1;
        }
        proof {
            assert forall|k: int| 0 <= k < self.points@.len() implies (
            #[trigger] self.points@[k]).wf() by {
                assert(self.points@[k] == grid_point_spec(k));
            };
        }
        let ghost ps = self.points@;
        let mut x: usize = 1;
        while x < 26
            invariant
                self.wf(),
                self.points@ == ps,
                self.points@.len() == 676,
                forall|k: int| 0 <= k < 676 ==> self.points@[k] == grid_point_spec(k),
                1 <= x <= 26,
                self.ropes@.len() == (x - 1) * 50,
                forall|m: int| 0 <= m < (x - 1) * 50 ==> self.ropes@[m] == grid_rope_spec(m),
            decreases 26 - x,
        {
            let mut y: usize = 1;
            while y < 26
                invariant
                    self.wf(),
                    self.points@ == ps,
                    self.points@.len() == 676,
                    forall|k: int| 0 <= k < 676 ==> self.points@[k] == grid_point_spec(k),
                    1 <= x < 26,
                    1 <= y <= 26,
                    self.ropes@.len() == (x - 1) * 50 + (y - 1) * 2,
                    forall|m: int|
                        0 <= m < (x - 1) * 50 + (y - 1) * 2 ==> self.ropes@[m] == grid_rope_spec(m),
                decreases 26 - y,
            {
                let first = (x - 1) + (y - 1) * 26;
                let above = (x - 1) + y * 26;
                let left = x + (y - 1) * 26;
                let ghost m0 = self.ropes@.len() as int;
                self.add_rope(first, above);
                self.add_rope(first, left);
                proof {
                    let cell = (x - 1) * 25 + (y - 1);
                    lemma_fundamental_div_mod_converse(cell as int, 25, x - 1, y - 1);
                    lemma_fundamental_div_mod_converse(2 * cell, 2, cell as int, 0);
                    lemma_fundamental_div_mod_converse(2 * cell + 1, 2, cell as int, 1);
                    lemma_grid_neighbour_dist(x - 1, y - 1);
                    assert(m0 == 2 * cell);
                    assert(self.ropes@[m0] == grid_rope_spec(m0));
                    assert(self.ropes@[m0 + 1] == grid_rope_spec(m0 + 1));
                }
                y = y + 1;
            }
            x = x + 1;
        }
        proof {
            assert forall|k: int| 0 <= k < 26 implies (#[trigger] self.points@[k]).locked by {
                assert(self.points@[k] == grid_point_spec(k));
                assert(k / 26 == 0);
            };
            assert forall|k: int| 26 <= k < 676 implies !(#[trigger] self.points@[k]).locked by {
                assert(self.points@[k] == grid_point_spec(k));
                assert(k / 26 >= 1);
            };
        }
    }
}

/// The point the grid builder puts at row-major index `k`.
pub open spec fn grid_point_spec(k: int) -> RopePoint {
    let row = k / 26;
    let col = k % 26;
    let pos = Vec2Fx {
        x: ((col + 1) * (GRID_STEP as int)) as i64,
        y: ((row + 1) * (GRID_STEP as int)) as i64,
    };
    RopePoint { current_pos: pos, prev_pos: pos, locked: row == 0 }
}

/// The rope the grid builder pushes as its `m`-th: interior cells are walked
/// column by column, and each contributes its upper-left corner's link to the
/// point below it, then to the point right of it.
pub open spec fn grid_rope_spec(m: int) -> Rope {
    let cell = m / 2;
    let x0 = cell / 25;
    let y0 = cell % 25;
    let first = (x0 + y0 * 26) as usize;
    if m % 2 == 0 {
        Rope { end1: first, end2: (x0 + (y0 + 1) * 26) as usize, length: GRID_STEP }
    } else {
        Rope { end1: first, end2: ((x0 + 1) + y0 * 26) as usize, length: GRID_STEP }
    }
}

/// Adjacent grid points sit exactly one step apart, vertically and
/// horizontally, so the grid ropes' rest length is exactly `GRID_STEP`.
proof fn lemma_grid_neighbour_dist(x0: int, y0: int)
    requires
        0 <= x0 < 25,
        0 <= y0 < 25,
    ensures
        dist_fx(
            grid_point_spec(x0 + y0 * 26).current_pos,
            grid_point_spec(x0 + (y0 + 1) * 26).current_pos,
        ) == GRID_STEP as int,
        dist_fx(
            grid_point_spec(x0 + y0 * 26).current_pos,
            grid_point_spec(x0 + 1 + y0 * 26).current_pos,
        ) == GRID_STEP as int,
{
    lemma_fundamental_div_mod_converse(x0 + y0 * 26, 26, y0, x0);
    lemma_fundamental_div_mod_converse(x0 + (y0 + 1) * 26, 26, y0 + 1, x0);
    lemma_fundamental_div_mod_converse(x0 + 1 + y0 * 26, 26, y0, x0 + 1);
    let a = grid_point_spec(x0 + y0 * 26).current_pos;
    let b = grid_point_spec(x0 + (y0 + 1) * 26).current_pos;
    let c = grid_point_spec(x0 + 1 + y0 * 26).current_pos;
    let s = GRID_STEP as int;
    assert(s == 50000);
    assert(a.x - b.x == 0 && a.y - b.y == -s);
    assert(a.x - c.x == -s && a.y - c.y == 0);
    assert(dist_sq(a, b) == s * s);
    assert(dist_sq(a, c) == s * s);
    assert(s * s < (s + 1) * (s + 1));
    lemma_sqrt_floor_unique((s * s) as nat, s as nat);
    assert(sqrt_floor((s * s) as nat) == s);
}

} // verus!
