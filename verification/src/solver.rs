//! The solver: one timestep is Verlet integration of every unlocked point
//! followed by four sweeps of rope relaxation. The whole step is specified as
//! a pure function of the previous state, so a step is deterministic and a
//! locked point is provably never moved.

use vstd::prelude::*;
use crate::models::{Vec2Fx, RopePoint, Rope, dist_sq, dist_fx};
use crate::num::{
    clamp_spec, clamp_coord, half_spec, half, mul_div_spec, mul_div, sqrt_floor, isqrt,
    lemma_sqrt_floor_bounds,
};
use crate::scene::Scene;
use crate::{COORD_LIMIT, DT_MAX, GRAVITY, RELAX_ROUNDS};

verus! {

/// One Verlet update: an unlocked point keeps its implicit velocity
/// (`current - prev`), falls by `GRAVITY * dt`, and saturates into the
/// coordinate box; a locked point is left entirely alone.
pub open spec fn integrate_point_spec(p: RopePoint, dt: int) -> RopePoint {
    if p.locked {
        p
    } else {
        let vx = p.current_pos.x - p.prev_pos.x;
        let vy = p.current_pos.y - p.prev_pos.y;
        RopePoint {
            current_pos: Vec2Fx {
                x: clamp_spec(p.current_pos.x + vx) as i64,
                y: clamp_spec(p.current_pos.y + vy + (GRAVITY as int) * dt) as i64,
            },
            prev_pos: p.current_pos,
            locked: false,
        }
    }
}

/// Verlet integration of the whole arena.
pub open spec fn integrate_spec(ps: Seq<RopePoint>, dt: int) -> Seq<RopePoint> {
    Seq::new(ps.len(), |k: int| integrate_point_spec(ps[k], dt))
}

/// One relaxation of one rope: both endpoints are pulled along the line
/// through them so that each unlocked end sits half the rest length from
/// their midpoint. Coincident endpoints have no direction, so the horizontal
/// unit vector stands in; every write saturates into the coordinate box.
pub open spec fn relax_rope_spec(ps: Seq<RopePoint>, r: Rope) -> Seq<RopePoint> {
    if r.end1 >= ps.len() || r.end2 >= ps.len() {
        ps
    } else {
        let e1 = ps[r.end1 as int];
        let e2 = ps[r.end2 as int];
        let mx = half_spec(e1.current_pos.x + e2.current_pos.x);
        let my = half_spec(e1.current_pos.y + e2.current_pos.y);
        let dx = e1.current_pos.x - e2.current_pos.x;
        let dy = e1.current_pos.y - e2.current_pos.y;
        let s = dx * dx + dy * dy;
        let h = r.length as int / 2;
        let qx = if s == 0 { h } else { mul_div_spec(dx, h, sqrt_floor(s as nat) as int) };
        let qy = if s == 0 { 0 } else { mul_div_spec(dy, h, sqrt_floor(s as nat) as int) };
        let ps1 = if e1.locked {
            ps
        } else {
            ps.update(
                r.end1 as int,
                RopePoint {
                    current_pos: Vec2Fx {
                        x: clamp_spec(mx + qx) as i64,
                        y: clamp_spec(my + qy) as i64,
                    },
                    ..e1
                },
            )
        };
        if e2.locked {
            ps1
        } else {
            ps1.update(
                r.end2 as int,
                RopePoint {
                    current_pos: Vec2Fx {
                        x: clamp_spec(mx - qx) as i64,
                        y: clamp_spec(my - qy) as i64,
                    },
                    ..e2
                },
            )
        }
    }
}

/// Relaxation of the first `n` ropes, in collection order.
pub open spec fn relax_prefix_spec(ps: Seq<RopePoint>, ropes: Seq<Rope>, n: int) -> Seq<RopePoint>
    decreases n,
{
    if n <= 0 {
        ps
    } else {
        relax_rope_spec(relax_prefix_spec(ps, ropes, n - 1), ropes[n - 1])
    }
}

/// `k` full sweeps over all ropes.
pub open spec fn relax_iters_spec(ps: Seq<RopePoint>, ropes: Seq<Rope>, k: int) -> Seq<RopePoint>
    decreases k,
{
    if k <= 0 {
        ps
    } else {
        relax_prefix_spec(relax_iters_spec(ps, ropes, k - 1), ropes, ropes.len() as int)
    }
}

/// A full solver step: integration, then `RELAX_ROUNDS` relaxation sweeps.
/// A pure function of the previous state and `dt`, so stepping is
/// deterministic.
pub open spec fn step_spec(ps: Seq<RopePoint>, ropes: Seq<Rope>, dt: int) -> Seq<RopePoint> {
    relax_iters_spec(integrate_spec(ps, dt), ropes, RELAX_ROUNDS as int)
}

/// Advance the scene by one timestep of `dt` fixed-point seconds.
pub fn step(scene: &mut Scene, dt: i64)
    requires
        old(scene).wf(),
        0 <= dt <= DT_MAX,
    ensures
        final(scene).wf(),
        final(scene).ropes@ == old(scene).ropes@,
        final(scene).points@.len() == old(scene).points@.len(),
        final(scene).points@ == step_spec(old(scene).points@, old(scene).ropes@, dt as int),
        forall|k: int|
            0 <= k < old(scene).points@.len() && (#[trigger] old(scene).points@[k]).locked
                ==> final(scene).points@[k] == old(scene).points@[k],
{
    let ghost ps0 = scene.points@;
    let ghost ropes0 = scene.ropes@;
    let n = scene.points.len();
    let mut i: usize = 0;
    while i < n
        invariant
            scene.wf(),
            scene.ropes@ == ropes0,
            n == scene.points@.len(),
            ps0.len() == n,
            i <= n,
            0 <= dt <= DT_MAX,
            forall|k: int| 0 <= k < i ==> scene.points@[k] == integrate_point_spec(ps0[k], dt as int),
            forall|k: int| i <= k < n ==> scene.points@[k] == ps0[k],
        decreases n - i,
    {
        let p = scene.points[i];
        if !p.locked {
            let vx = p.current_pos.x - p.prev_pos.x;
            let vy = p.current_pos.y - p.prev_pos.y;
            let nx = clamp_coord(p.current_pos.x + vx);
            let ny = clamp_coord(p.current_pos.y + vy + GRAVITY * dt);
            scene.points.set(
                i,
                RopePoint { current_pos: Vec2Fx { x: nx, y: ny }, prev_pos: p.current_pos, locked: false },
            );
        }
        i = i + 1;
    }
    proof {
        assert(scene.points@ =~= integrate_spec(ps0, dt as int));
    }
    let ghost base = scene.points@;
    let m = scene.ropes.len();
    let mut round: u64 = 0;
    while round < RELAX_ROUNDS
        invariant
            scene.wf(),
            scene.ropes@ == ropes0,
            m == ropes0.len(),
            scene.points@.len() == base.len(),
            round <= RELAX_ROUNDS,
            scene.points@ == relax_iters_spec(base, ropes0, round as int),
        decreases RELAX_ROUNDS - round,
    {
        let ghost pass0 = scene.points@;
        let mut j: usize = 0;
        while j < m
            invariant
                scene.wf(),
                scene.ropes@ == ropes0,
                m == ropes0.len(),
                j <= m,
                scene.points@.len() == pass0.len(),
                scene.points@ == relax_prefix_spec(pass0, ropes0, j as int),
            decreases m - j,
        {
            let r = scene.ropes[j];
            let ghost prev = scene.points@;
            let e1 = scene.points[r.end1];
            let e2 = scene.points[r.end2];
            proof {
                assert((e1.current_pos.x - e2.current_pos.x) * (e1.current_pos.x
                    - e2.current_pos.x) + (e1.current_pos.y - e2.current_pos.y) * (e1.current_pos.y
                    - e2.current_pos.y) <= 8_000_000_000_000_000_000
                    && (e1.current_pos.x - e2.current_pos.x) * (e1.current_pos.x
                    - e2.current_pos.x) >= 0
                    && (e1.current_pos.y - e2.current_pos.y) * (e1.current_pos.y
                    - e2.current_pos.y) >= 0) by (nonlinear_arith)
                    requires
                        -(COORD_LIMIT as int) <= e1.current_pos.x <= COORD_LIMIT as int,
                        -(COORD_LIMIT as int) <= e1.current_pos.y <= COORD_LIMIT as int,
                        -(COORD_LIMIT as int) <= e2.current_pos.x <= COORD_LIMIT as int,
                        -(COORD_LIMIT as int) <= e2.current_pos.y <= COORD_LIMIT as int,
                        COORD_LIMIT == 1_000_000_000i64,
                {
                }
            }
            let mx = half(e1.current_pos.x + e2.current_pos.x);
            let my = half(e1.current_pos.y + e2.current_pos.y);
            let dx = e1.current_pos.x - e2.current_pos.x;
            let dy = e1.current_pos.y - e2.current_pos.y;
            let s = dx * dx + dy * dy;
            let h = r.length / 2;
            let qx: i64;
            let qy: i64;
            if s == 0 {
                qx = h;
                qy = 0;
            } else {
                let d64 = isqrt(s as u64);
                proof {
                    lemma_sqrt_floor_bounds(s as nat);
                    if d64 == 0 {
                        assert((sqrt_floor(s as nat) + 1) * (sqrt_floor(s as nat) + 1) == 1)
                            by (nonlinear_arith)
                            requires
                                sqrt_floor(s as nat) == 0,
                        {
                        }
                    }
                    assert(d64 >= 1);
                }
                let d = d64 as i64;
                qx = mul_div(dx, h, d);
                qy = mul_div(dy, h, d);
            }
            if !e1.locked {
                scene.points.set(
                    r.end1,
                    RopePoint {
                        current_pos: Vec2Fx { x: clamp_coord(mx + qx), y: clamp_coord(my + qy) },
                        prev_pos: e1.prev_pos,
                        locked: e1.locked,
                    },
                );
            }
            if !e2.locked {
                scene.points.set(
                    r.end2,
                    RopePoint {
                        current_pos: Vec2Fx { x: clamp_coord(mx - qx), y: clamp_coord(my - qy) },
                        prev_pos: e2.prev_pos,
                        locked: e2.locked,
                    },
                );
            }
            proof {
                assert(scene.points@ =~= relax_rope_spec(prev, ropes0[j as int]));
                assert(relax_prefix_spec(pass0, ropes0, j + 1) == relax_rope_spec(
                    relax_prefix_spec(pass0, ropes0, j as int),
                    ropes0[j as int],
                ));
            }
            j = j + 1;
        }
        proof {
            assert(relax_iters_spec(base, ropes0, round + 1) == relax_prefix_spec(
                relax_iters_spec(base, ropes0, round as int),
                ropes0,
                ropes0.len() as int,
            ));
        }
        round = round + 1;
    }
    proof {
        lemma_step_locked_all(ps0, ropes0, dt as int);
    }
}

/// Relaxing one rope never changes the arena's length, and never moves a
/// locked point.
pub proof fn lemma_relax_rope_frame(ps: Seq<RopePoint>, r: Rope, i: int)
    requires
        0 <= i < ps.len(),
        ps[i].locked,
    ensures
        relax_rope_spec(ps, r).len() == ps.len(),
        relax_rope_spec(ps, r)[i] == ps[i],
{
}

/// A locked point survives any number of relaxation sweeps untouched.
pub proof fn lemma_relax_iters_frame(ps: Seq<RopePoint>, ropes: Seq<Rope>, k: int, i: int)
    requires
        0 <= i < ps.len(),
        ps[i].locked,
        k >= 0,
    ensures
        relax_iters_spec(ps, ropes, k).len() == ps.len(),
        relax_iters_spec(ps, ropes, k)[i] == ps[i],
    decreases k,
{
    if k > 0 {
        lemma_relax_iters_frame(ps, ropes, k - 1, i);
        lemma_relax_prefix_frame(relax_iters_spec(ps, ropes, k - 1), ropes, ropes.len() as int, i);
    }
}

/// A locked point survives relaxing any prefix of the ropes untouched.
pub proof fn lemma_relax_prefix_frame(ps: Seq<RopePoint>, ropes: Seq<Rope>, n: int, i: int)
    requires
        0 <= i < ps.len(),
        ps[i].locked,
    ensures
        relax_prefix_spec(ps, ropes, n).len() == ps.len(),
        relax_prefix_spec(ps, ropes, n)[i] == ps[i],
    decreases n,
{
    if n > 0 {
        lemma_relax_prefix_frame(ps, ropes, n - 1, i);
        lemma_relax_rope_frame(relax_prefix_spec(ps, ropes, n - 1), ropes[n - 1], i);
    }
}

/// The locked invariant: a solver step never changes a locked point, neither
/// its current nor its previous position.
pub proof fn lemma_step_preserves_locked(ps: Seq<RopePoint>, ropes: Seq<Rope>, dt: int, i: int)
    requires
        0 <= i < ps.len(),
        ps[i].locked,
    ensures
        step_spec(ps, ropes, dt).len() == ps.len(),
        step_spec(ps, ropes, dt)[i] == ps[i],
{
    assert(integrate_spec(ps, dt)[i] == ps[i]);
    lemma_relax_iters_frame(integrate_spec(ps, dt), ropes, RELAX_ROUNDS as int, i);
}

/// The locked invariant over the whole arena at once.
pub proof fn lemma_step_locked_all(ps: Seq<RopePoint>, ropes: Seq<Rope>, dt: int)
    ensures
        forall|k: int|
            0 <= k < ps.len() && (#[trigger] ps[k]).locked ==> step_spec(ps, ropes, dt)[k] == ps[k],
{
    assert forall|k: int|
        0 <= k < ps.len() && (#[trigger] ps[k]).locked implies step_spec(ps, ropes, dt)[k]
        == ps[k] by {
        lemma_step_preserves_locked(ps, ropes, dt, k);
    };
}

/// Truncated scaling by `h / d` keeps magnitudes within `h`, and its square
/// scales by at most `(h / d)` squared.
proof fn lemma_mul_div_scale(num: int, h: int, d: int)
    requires
        -d <= num <= d,
        0 <= h,
        0 < d,
    ensures
        -h <= mul_div_spec(num, h, d) <= h,
        mul_div_spec(num, h, d) * mul_div_spec(num, h, d) * (d * d) <= num * num * (h * h),
{
    let a = if num >= 0 { num } else { -num };
    let q = (a * h) / d;
    assert(0 <= a * h <= d * h) by (nonlinear_arith)
        requires
            0 <= a <= d,
            0 <= h,
    {
    }
    vstd::arithmetic::div_mod::lemma_div_pos_is_pos(a * h, d);
    vstd::arithmetic::div_mod::lemma_div_is_ordered(a * h, d * h, d);
    vstd::arithmetic::div_mod::lemma_div_multiples_vanish(h, d);
    assert(q <= h);
    vstd::arithmetic::div_mod::lemma_fundamental_div_mod(a * h, d);
    assert(a * h == d * ((a * h) / d) + (a * h) % d);
    assert(0 <= (a * h) % d) by {
        vstd::arithmetic::div_mod::lemma_mod_bound(a * h, d);
    }
    assert(q * d <= a * h);
    assert(q * q * (d * d) <= (a * h) * (a * h)) by (nonlinear_arith)
        requires
            0 <= q * d <= a * h,
    {
    }
    assert((a * h) * (a * h) == a * a * (h * h)) by (nonlinear_arith);
    if num >= 0 {
        assert(mul_div_spec(num, h, d) == q);
        assert(a * a == num * num);
    } else {
        assert(mul_div_spec(num, h, d) == -q);
        assert(a * a == num * num) by (nonlinear_arith)
            requires
                a == -num,
        {
        }
        assert((-q) * (-q) == q * q) by (nonlinear_arith);
    }
}

/// Constraint convergence: one relaxation of a rope between two unlocked
/// points that is stretched beyond its rest length (by more than the
/// two-unit integer rounding band) pulls the endpoints strictly closer, and
/// leaves their distance within that band of the rest length. The endpoints
/// must sit away from the saturation wall of the coordinate box and the rope
/// must be shorter than the wall margin, so that no write saturates.
pub proof fn lemma_relax_rope_converges(ps: Seq<RopePoint>, r: Rope)
    requires
        r.end1 < ps.len(),
        r.end2 < ps.len(),
        r.end1 != r.end2,
        !ps[r.end1 as int].locked,
        !ps[r.end2 as int].locked,
        -500_000_000 <= ps[r.end1 as int].current_pos.x <= 500_000_000,
        -500_000_000 <= ps[r.end1 as int].current_pos.y <= 500_000_000,
        -500_000_000 <= ps[r.end2 as int].current_pos.x <= 500_000_000,
        -500_000_000 <= ps[r.end2 as int].current_pos.y <= 500_000_000,
        0 <= r.length <= 900_000_000,
        dist_fx(ps[r.end1 as int].current_pos, ps[r.end2 as int].current_pos) >= r.length + 2,
    ensures
        dist_sq(
            relax_rope_spec(ps, r)[r.end1 as int].current_pos,
            relax_rope_spec(ps, r)[r.end2 as int].current_pos,
        ) < dist_sq(ps[r.end1 as int].current_pos, ps[r.end2 as int].current_pos),
        dist_sq(
            relax_rope_spec(ps, r)[r.end1 as int].current_pos,
            relax_rope_spec(ps, r)[r.end2 as int].current_pos,
        ) <= (r.length + 2) * (r.length + 2),
{
    let e1 = ps[r.end1 as int];
    let e2 = ps[r.end2 as int];
    let dx = e1.current_pos.x - e2.current_pos.x;
    let dy = e1.current_pos.y - e2.current_pos.y;
    let s = dx * dx + dy * dy;
    let h = r.length as int / 2;
    let d = sqrt_floor(s as nat) as int;
    assert(0 <= s && dx * dx <= s && dy * dy <= s) by (nonlinear_arith)
        requires
            s == dx * dx + dy * dy,
    {
    }
    lemma_sqrt_floor_bounds(s as nat);
    assert(d >= r.length + 2);
    assert(2 <= d);
    assert(d * d <= s);
    assert(s < (d + 1) * (d + 1));
    assert(s > 0) by (nonlinear_arith)
        requires
            2 <= d,
            d * d <= s,
    {
    }
    assert(0 <= h && 2 * h <= r.length && r.length <= 2 * h + 1);
    assert(d >= 2 * h + 2);
    // The difference components cannot exceed the rounded-down distance.
    assert(-d <= dx <= d && -d <= dy <= d) by (nonlinear_arith)
        requires
            dx * dx <= s,
            dy * dy <= s,
            s < (d + 1) * (d + 1),
            0 <= d,
    {
    }
    let qx = mul_div_spec(dx, h, d);
    let qy = mul_div_spec(dy, h, d);
    lemma_mul_div_scale(dx, h, d);
    lemma_mul_div_scale(dy, h, d);
    // No write saturates: midpoint within half the box, offsets within h.
    let mx = half_spec(e1.current_pos.x + e2.current_pos.x);
    let my = half_spec(e1.current_pos.y + e2.current_pos.y);
    assert(-500_000_000 <= mx <= 500_000_000 && -500_000_000 <= my <= 500_000_000);
    assert(clamp_spec(mx + qx) == mx + qx && clamp_spec(my + qy) == my + qy);
    assert(clamp_spec(mx - qx) == mx - qx && clamp_spec(my - qy) == my - qy);
    let ps2 = relax_rope_spec(ps, r);
    assert(ps2[r.end1 as int].current_pos == Vec2Fx { x: (mx + qx) as i64, y: (my + qy) as i64 });
    assert(ps2[r.end2 as int].current_pos == Vec2Fx { x: (mx - qx) as i64, y: (my - qy) as i64 });
    let ns = dist_sq(ps2[r.end1 as int].current_pos, ps2[r.end2 as int].current_pos);
    assert(ns == (2 * qx) * (2 * qx) + (2 * qy) * (2 * qy));
    assert(ns >= 0) by (nonlinear_arith)
        requires
            ns == (2 * qx) * (2 * qx) + (2 * qy) * (2 * qy),
    {
    }
    // Squared scaling, summed over both components.
    assert(qx * qx * (d * d) <= dx * dx * (h * h));
    assert(qy * qy * (d * d) <= dy * dy * (h * h));
    assert(ns * (d * d) <= 4 * s * (h * h)) by (nonlinear_arith)
        requires
            ns == (2 * qx) * (2 * qx) + (2 * qy) * (2 * qy),
            qx * qx * (d * d) <= dx * dx * (h * h),
            qy * qy * (d * d) <= dy * dy * (h * h),
            s == dx * dx + dy * dy,
    {
    }
    // Strict decrease: the scale factor is below one while stretched.
    assert(ns < s) by (nonlinear_arith)
        requires
            ns * (d * d) <= 4 * s * (h * h),
            d >= 2 * h + 2,
            0 <= h,
            s > 0,
            ns >= 0,
    {
    }
    // Band entry: the new squared distance is within the rounding band.
    assert(ns <= (2 * h + 2) * (2 * h + 2)) by (nonlinear_arith)
        requires
            ns * (d * d) <= 4 * s * (h * h),
            s < (d + 1) * (d + 1),
            d >= 2 * h + 2,
            0 <= h,
            ns >= 0,
    {
    }
    assert((2 * h + 2) * (2 * h + 2) <= (r.length + 2) * (r.length + 2)) by (nonlinear_arith)
        requires
            0 <= 2 * h <= r.length,
    {
    }
}

/// Stepping is deterministic: equal states and equal timesteps give equal
/// next states — the step is a pure function of its inputs.
pub proof fn lemma_step_deterministic(
    ps1: Seq<RopePoint>,
    ropes1: Seq<Rope>,
    dt1: int,
    ps2: Seq<RopePoint>,
    ropes2: Seq<Rope>,
    dt2: int,
)
    requires
        ps1 == ps2,
        ropes1 == ropes2,
        dt1 == dt2,
    ensures
        step_spec(ps1, ropes1, dt1) == step_spec(ps2, ropes2, dt2),
{
}

} // verus!
