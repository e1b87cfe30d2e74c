//! Integer helpers for the fixed-point physics: saturation to the coordinate
//! box, division that truncates toward zero (as the hardware does), and a
//! floor square root with its full specification.

use vstd::prelude::*;
use crate::COORD_LIMIT;

verus! {

/// Saturate a coordinate into `[-COORD_LIMIT, COORD_LIMIT]`.
pub open spec fn clamp_spec(v: int) -> int {
    if v < -(COORD_LIMIT as int) { -(COORD_LIMIT as int) }
    else if v > COORD_LIMIT as int { COORD_LIMIT as int }
    else { v }
}

pub fn clamp_coord(v: i64) -> (r: i64)
    ensures
        r == clamp_spec(v as int),
        -COORD_LIMIT <= r <= COORD_LIMIT,
{
    if v < -COORD_LIMIT {
        -COORD_LIMIT
    } else if v > COORD_LIMIT {
        COORD_LIMIT
    } else {
        v
    }
}

/// Halve, rounding toward zero (the behaviour of `v / 2` on machine integers).
pub open spec fn half_spec(v: int) -> int {
    if v >= 0 { v / 2 } else { -((-v) / 2) }
}

pub fn half(v: i64) -> (r: i64)
    requires
        i64::MIN < v,
    ensures
        r == half_spec(v as int),
{
    if v >= 0 { v / 2 } else { -((-v) / 2) }
}

/// `(num * scale) / den`, rounding toward zero; `scale` and `den` positive.
pub open spec fn mul_div_spec(num: int, scale: int, den: int) -> int {
    if num >= 0 { (num * scale) / den } else { -(((-num) * scale) / den) }
}

pub fn mul_div(num: i64, scale: i64, den: i64) -> (r: i64)
    requires
        -3_000_000_000 <= num <= 3_000_000_000,
        0 <= scale <= 1_500_000_000,
        0 < den,
    ensures
        r == mul_div_spec(num as int, scale as int, den as int),
        -4_500_000_000_000_000_000 <= r <= 4_500_000_000_000_000_000,
{
    proof {
        let a = (if num >= 0 { num as int } else { -(num as int) }) * (scale as int);
        assert(0 <= a <= 4_500_000_000_000_000_000) by (nonlinear_arith)
            requires
                -3_000_000_000 <= num <= 3_000_000_000,
                0 <= scale <= 1_500_000_000,
                a == (if num >= 0 { num as int } else { -(num as int) }) * (scale as int),
        {
        }
        vstd::arithmetic::div_mod::lemma_div_pos_is_pos(a, den as int);
        vstd::arithmetic::div_mod::lemma_div_basics_5(a, den as int);
    }
    if num >= 0 {
        (num * scale) / den
    } else {
        -(((-num) * scale) / den)
    }
}

/// The floor of the square root of `n`.
pub open spec fn sqrt_floor(n: nat) -> nat
    decreases n,
{
    if n == 0 {
        0
    } else {
        let r = sqrt_floor((n - 1) as nat);
        if (r + 1) * (r + 1) <= n { r + 1 } else { r }
    }
}

/// `sqrt_floor(n)` squares to at most `n`, and is the last number that does.
pub proof fn lemma_sqrt_floor_bounds(n: nat)
    ensures
        sqrt_floor(n) * sqrt_floor(n) <= n,
        n < (sqrt_floor(n) + 1) * (sqrt_floor(n) + 1),
    decreases n,
{
    if n == 0 {
        assert(sqrt_floor(0) == 0);
        assert((sqrt_floor(n) + 1) * (sqrt_floor(n) + 1) == 1) by (nonlinear_arith)
            requires
                sqrt_floor(n) == 0,
        {
        }
    } else {
        lemma_sqrt_floor_bounds((n - 1) as nat);
        let r = sqrt_floor((n - 1) as nat);
        assert(sqrt_floor(n) == if (r + 1) * (r + 1) <= n { r + 1 } else { r });
        if (r + 1) * (r + 1) <= n {
            assert(sqrt_floor(n) == r + 1);
            assert(n <= (r + 1) * (r + 1));
            assert((r + 1) * (r + 1) < (r + 2) * (r + 2)) by (nonlinear_arith);
            assert(sqrt_floor(n) * sqrt_floor(n) <= n);
            assert(n < (sqrt_floor(n) + 1) * (sqrt_floor(n) + 1));
        } else {
            assert(sqrt_floor(n) == r);
            assert(sqrt_floor(n) * sqrt_floor(n) <= n);
            assert(n < (sqrt_floor(n) + 1) * (sqrt_floor(n) + 1));
        }
    }
}

/// No other number satisfies the floor-square-root bounds.
pub proof fn lemma_sqrt_floor_unique(n: nat, r: nat)
    requires
        r * r <= n,
        n < (r + 1) * (r + 1),
    ensures
        r == sqrt_floor(n),
{
    lemma_sqrt_floor_bounds(n);
    let s = sqrt_floor(n);
    if r < s {
        assert(false) by (nonlinear_arith)
            requires
                r < s,
                s * s <= n,
                n < (r + 1) * (r + 1),
        {
        }
    }
    if s < r {
        assert(false) by (nonlinear_arith)
            requires
                s < r,
                r * r <= n,
                n < (s + 1) * (s + 1),
        {
        }
    }
}

/// Binary search for the floor square root of a machine integer.
pub fn isqrt(n: u64) -> (r: u64)
    ensures
        r == sqrt_floor(n as nat),
        r <= 0x1_0000_0000u64,
{
    let mut lo: u64 = 0;
    let mut hi: u64 = 0x1_0000_0000;
    proof {
        assert((hi as int) * (hi as int) > n as int) by (nonlinear_arith)
            requires
                hi == 0x1_0000_0000u64,
                n <= u64::MAX,
        {
        }
    }
    while lo + 1 < hi
        invariant
            lo < hi <= 0x1_0000_0000u64,
            (lo as int) * (lo as int) <= n as int,
            (n as int) < (hi as int) * (hi as int),
        decreases hi - lo,
    {
        let mid = lo + (hi - lo) / 2;
        proof {
            assert((mid as int) * (mid as int) < 0x1_0000_0000_0000_0000) by (nonlinear_arith)
                requires
                    mid < 0x1_0000_0000u64,
            {
            }
        }
        let sq = mid * mid;
        if sq <= n {
            lo = mid;
        } else {
            hi = mid;
        }
    }
    proof {
        lemma_sqrt_floor_unique(n as nat, lo as nat);
    }
    lo
}

} // verus!
