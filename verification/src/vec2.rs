//! Fixed-point plane vectors and the scaling arithmetic the steering
//! rules share: squared distance, integer square root, and "normalize
//! then stretch to a given length" as one exact integer operation.

use vstd::prelude::*;

verus! {

/// A plane vector. Each component counts thousandths of a world unit,
/// so `Vec2 { x: 1000, y: 0 }` is one unit along the x axis.
#[derive(Clone, Copy, PartialEq, Eq, Structural, Debug)]
pub struct Vec2 {
    pub x: i64,
    pub y: i64,
}

/// One world unit, in fixed-point thousandths.
pub const SCALE: i64 = 1000;
/// Agents perceive each other within this distance (300 units).
pub const PERCEPTION_RADIUS: i64 = 300_000;
/// An agent at most this far from its target has arrived (25 units).
pub const ARRIVAL_RADIUS: i64 = 25_000;
/// New targets are drawn from a square of this half-width (300 units).
pub const RETARGET_SPREAD: i64 = 300_000;
/// Spawn positions are drawn from a square of this half-width (500 units).
pub const SPAWN_SPREAD: i64 = 500_000;
/// Length of one translation step while moving (2 units).
pub const MOVE_SPEED: i64 = 2_000;
/// Velocity components at most this large snap to rest (0.1 units).
pub const DAMP_THRESHOLD: i64 = 100;
/// Magnitude of the pairwise avoidance push (25 units).
pub const PUSH_MAG: i64 = 25_000;
/// Magnitude of the seek pull toward a target (25 units).
pub const SEEK_PULL: i64 = 25_000;
/// Positions the integrator accepts; generous headroom over the arena.
pub const POS_LIMIT: i64 = 1_000_000_000;
/// `POS_LIMIT` plus one translation step: the loosest position bound
/// the steering stages accept.
pub const POS_HEADROOM: i64 = 1_000_002_000;
/// Velocities stay within this bound from one tick to the next.
pub const VEL_LIMIT: i64 = 1_000_000_000;
/// Largest component magnitude the scaling arithmetic accepts.
pub const COMP_LIMIT: i64 = 2_100_000_000;

/// Mathematical (unbounded) counterpart of `Vec2`, used in contracts.
pub ghost struct GVec {
    pub x: int,
    pub y: int,
}

pub open spec fn abs_i(a: int) -> int {
    if a < 0 { -a } else { a }
}

/// Reattach the sign of `a` to the magnitude `m`.
pub open spec fn sgn_apply(a: int, m: int) -> int {
    if a < 0 { -m } else { m }
}

/// Division rounding toward zero (numerator may be negative, `n > 0`).
pub open spec fn div_toward_zero(a: int, n: int) -> int {
    sgn_apply(a, abs_i(a) / n)
}

pub open spec fn mag_sq_g(x: int, y: int) -> int {
    x * x + y * y
}

pub open spec fn is_sqrt(n: int, q: int) -> bool {
    0 <= q && q * q <= n && n < (q + 1) * (q + 1)
}

/// Floor of the square root of `n` (meaningful for `n >= 0`).
pub open spec fn sqrt_floor(n: int) -> int {
    choose|q: int| is_sqrt(n, q)
}

/// One component of "normalize `(x, y)` and stretch to length `k`":
/// the component times `k`, divided (toward zero) by the floored
/// magnitude `m` of the whole vector.
pub open spec fn scale_div(a: int, k: int, m: int) -> int {
    sgn_apply(a, (abs_i(a) * k) / m)
}

/// `(x, y)` normalized and stretched to length `k`, rounded toward
/// zero per component (meaningful for `(x, y) != (0, 0)`).
pub open spec fn gscale(x: int, y: int, k: int) -> GVec {
    let m = sqrt_floor(mag_sq_g(x, y));
    (GVec { x: scale_div(x, k, m), y: scale_div(y, k, m) })
}

pub open spec fn eqg(v: Vec2, g: GVec) -> bool {
    v.x == g.x && v.y == g.y
}

pub open spec fn gv(v: Vec2) -> GVec {
    (GVec { x: v.x as int, y: v.y as int })
}

pub open spec fn dist_sq(a: Vec2, b: Vec2) -> int {
    mag_sq_g(a.x - b.x, a.y - b.y)
}

pub open spec fn vec_within(v: Vec2, b: int) -> bool {
    -b <= v.x <= b && -b <= v.y <= b
}

pub open spec fn is_zero(v: Vec2) -> bool {
    v.x == 0 && v.y == 0
}

proof fn lemma_square_monotonic(a: int, b: int)
    by (nonlinear_arith)
    requires
        0 <= a <= b,
    ensures
        a * a <= b * b,
{
}

/// The square-root floor is unique, so any witness pins `sqrt_floor` down.
pub proof fn lemma_sqrt_floor_eq(n: int, r: int)
    requires
        is_sqrt(n, r),
    ensures
        sqrt_floor(n) == r,
{
    assert(exists|q: int| is_sqrt(n, q));
    let c = choose|q: int| is_sqrt(n, q);
    if c < r {
        lemma_square_monotonic(c + 1, r);
        assert(false);
    }
    if r < c {
        lemma_square_monotonic(r + 1, c);
        assert(false);
    }
}

/// The floored magnitude of a vector is at least each component's magnitude.
pub proof fn lemma_sqrt_floor_ge_component(x: int, y: int, a: int)
    requires
        0 <= a,
        a * a <= mag_sq_g(x, y),
        is_sqrt(mag_sq_g(x, y), sqrt_floor(mag_sq_g(x, y))),
    ensures
        a <= sqrt_floor(mag_sq_g(x, y)),
{
    let m = sqrt_floor(mag_sq_g(x, y));
    if m < a {
        lemma_square_monotonic(m + 1, a);
        assert(false);
    }
}

/// Floor square root by binary search over `[0, 3_037_000_500)`.
fn isqrt64(n: u64) -> (r: u64)
    requires
        n <= 0x7fff_ffff_ffff_ffff,
    ensures
        is_sqrt(n as int, r as int),
        r <= 3_037_000_499,
{
    let mut lo: u64 = 0;
    let mut hi: u64 = 3_037_000_500;
    proof {
        assert((3_037_000_500u64 as int) * (3_037_000_500u64 as int) > 0x7fff_ffff_ffff_ffffint)
            by (nonlinear_arith);
    }
    while lo + 1 < hi
        invariant
            lo < hi <= 3_037_000_500,
            lo * lo <= n,
            (n as int) < (hi as int) * (hi as int),
        decreases hi - lo,
    {
        let mid: u64 = lo + (hi - lo) / 2;
        assert(lo < mid < hi);
        assert((mid as int) * (mid as int) <= 3_037_000_499int * 3_037_000_499int)
            by (nonlinear_arith)
            requires 0 <= mid as int <= 3_037_000_499int;
        if mid * mid <= n {
            lo = mid;
        } else {
            hi = mid;
        }
    }
    lo
}

/// Normalize `v` and stretch it to length `k`, all in fixed point:
/// each component becomes `v_i * k / |v|` with the division rounded
/// toward zero and `|v|` the floored Euclidean magnitude. Each result
/// component is bounded by `k`, and a vector on an axis lands exactly
/// on `k` times the unit vector of that axis.
pub fn scale_to_length(v: Vec2, k: i64) -> (r: Vec2)
    requires
        !is_zero(v),
        vec_within(v, COMP_LIMIT as int),
        0 <= k <= 1_000_000,
    ensures
        eqg(r, gscale(v.x as int, v.y as int, k as int)),
        vec_within(r, k as int),
        v.y == 0 ==> r == (Vec2 { x: sgn_apply(v.x as int, k as int) as i64, y: 0 }),
        v.x == 0 ==> r == (Vec2 { x: 0, y: sgn_apply(v.y as int, k as int) as i64 }),
{
    let ax: u64 = if v.x < 0 { (-v.x) as u64 } else { v.x as u64 };
    let ay: u64 = if v.y < 0 { (-v.y) as u64 } else { v.y as u64 };
    proof {
        assert(ax as int == abs_i(v.x as int));
        assert(ay as int == abs_i(v.y as int));
        assert((ax as int) * (ax as int) == (v.x as int) * (v.x as int)) by (nonlinear_arith)
            requires ax as int == abs_i(v.x as int);
        assert((ay as int) * (ay as int) == (v.y as int) * (v.y as int)) by (nonlinear_arith)
            requires ay as int == abs_i(v.y as int);
        assert((ax as int) * (ax as int) <= 2_100_000_000int * 2_100_000_000int)
            by (nonlinear_arith)
            requires 0 <= ax as int <= 2_100_000_000int;
        assert((ay as int) * (ay as int) <= 2_100_000_000int * 2_100_000_000int)
            by (nonlinear_arith)
            requires 0 <= ay as int <= 2_100_000_000int;
    }
    let msq: u64 = ax * ax + ay * ay;
    assert(msq as int == mag_sq_g(v.x as int, v.y as int));
    assert(msq >= 1) by {
        assert((ax as int) * (ax as int) >= 0) by (nonlinear_arith)
            requires ax as int >= 0;
        assert((ay as int) * (ay as int) >= 0) by (nonlinear_arith)
            requires ay as int >= 0;
        if ax >= 1 {
            assert((ax as int) * (ax as int) >= 1) by (nonlinear_arith)
                requires ax as int >= 1;
        } else {
            assert(ay >= 1);
            assert((ay as int) * (ay as int) >= 1) by (nonlinear_arith)
                requires ay as int >= 1;
        }
    };
    let m: u64 = isqrt64(msq);
    assert(m >= 1) by {
        if m == 0 {
            assert((m as int + 1) * (m as int + 1) == 1) by (nonlinear_arith)
                requires m as int == 0;
            assert(false);
        }
    };
    proof {
        lemma_sqrt_floor_eq(msq as int, m as int);
        lemma_sqrt_floor_ge_component(v.x as int, v.y as int, ax as int);
        lemma_sqrt_floor_ge_component(v.x as int, v.y as int, ay as int);
    }
    proof {
        assert((ax as int) * (k as int) <= 2_100_000_000int * 1_000_000int) by (nonlinear_arith)
            requires 0 <= ax as int <= 2_100_000_000int, 0 <= k as int <= 1_000_000int;
        assert((ay as int) * (k as int) <= 2_100_000_000int * 1_000_000int) by (nonlinear_arith)
            requires 0 <= ay as int <= 2_100_000_000int, 0 <= k as int <= 1_000_000int;
    }
    let qx: u64 = ax * (k as u64) / m;
    let qy: u64 = ay * (k as u64) / m;
    proof {
        lemma_scaled_component_bounded(ax as int, k as int, m as int);
        lemma_scaled_component_bounded(ay as int, k as int, m as int);
        if v.y == 0 {
            assert(m as int == ax as int) by {
                assert((ay as int) * (ay as int) == 0) by (nonlinear_arith)
                    requires ay as int == 0;
                assert((ax as int) * (ax as int) <= msq as int
                    && (msq as int) < (ax as int + 1) * (ax as int + 1)) by (nonlinear_arith)
                    requires msq as int == (ax as int) * (ax as int);
                assert(is_sqrt(msq as int, ax as int));
                lemma_sqrt_floor_eq(msq as int, ax as int);
            };
            vstd::arithmetic::div_mod::lemma_div_multiples_vanish(k as int, m as int);
        }
        if v.x == 0 {
            assert(m as int == ay as int) by {
                assert((ax as int) * (ax as int) == 0) by (nonlinear_arith)
                    requires ax as int == 0;
                assert((ay as int) * (ay as int) <= msq as int
                    && (msq as int) < (ay as int + 1) * (ay as int + 1)) by (nonlinear_arith)
                    requires msq as int == (ay as int) * (ay as int);
                assert(is_sqrt(msq as int, ay as int));
                lemma_sqrt_floor_eq(msq as int, ay as int);
            };
            vstd::arithmetic::div_mod::lemma_div_multiples_vanish(k as int, m as int);
        }
    }
    let rx: i64 = if v.x < 0 { -(qx as i64) } else { qx as i64 };
    let ry: i64 = if v.y < 0 { -(qy as i64) } else { qy as i64 };
    Vec2 { x: rx, y: ry }
}

/// A component scaled by `k` and divided by a magnitude at least as
/// large stays within `k`.
proof fn lemma_scaled_component_bounded(a: int, k: int, m: int)
    requires
        0 <= a <= m,
        1 <= m,
        0 <= k,
    ensures
        0 <= (a * k) / m <= k,
{
    assert(a * k <= m * k) by (nonlinear_arith)
        requires 0 <= a <= m, 0 <= k;
    assert(0 <= a * k) by (nonlinear_arith)
        requires 0 <= a, 0 <= k;
    vstd::arithmetic::div_mod::lemma_div_is_ordered(a * k, m * k, m);
    vstd::arithmetic::div_mod::lemma_div_multiples_vanish(k, m);
    vstd::arithmetic::div_mod::lemma_div_pos_is_pos(a * k, m);
}

/// A signed component scaled by `k` and divided by a magnitude at
/// least as large stays within `k`.
pub proof fn lemma_scale_div_bounded(a: int, k: int, m: int)
    requires
        1 <= m,
        abs_i(a) <= m,
        0 <= k,
    ensures
        -k <= scale_div(a, k, m) <= k,
{
    lemma_scaled_component_bounded(abs_i(a), k, m);
}

/// Division of `a` by `n`, rounded toward zero.
pub fn div_trunc(a: i64, n: usize) -> (r: i64)
    requires
        1 <= n,
        -5_000_000_000_000 <= a <= 5_000_000_000_000,
    ensures
        r as int == div_toward_zero(a as int, n as int),
        abs_i(r as int) == abs_i(a as int) / (n as int),
{
    let aa: u64 = if a < 0 { (-a) as u64 } else { a as u64 };
    proof {
        vstd::arithmetic::div_mod::lemma_div_nonincreasing(aa as int, n as int);
        vstd::arithmetic::div_mod::lemma_div_pos_is_pos(aa as int, n as int);
    }
    let q: u64 = aa / (n as u64);
    if a < 0 { -(q as i64) } else { q as i64 }
}

/// Squared distance between two positions, exact in `i64` for
/// positions within the integrator's bounds.
pub fn distance_sq(a: Vec2, b: Vec2) -> (d: i64)
    requires
        vec_within(a, POS_LIMIT as int + MOVE_SPEED as int),
        vec_within(b, POS_LIMIT as int + MOVE_SPEED as int),
    ensures
        d as int == dist_sq(a, b),
        d >= 0,
{
    let dx: i64 = a.x - b.x;
    let dy: i64 = a.y - b.y;
    let axd: u64 = if dx < 0 { (-dx) as u64 } else { dx as u64 };
    let ayd: u64 = if dy < 0 { (-dy) as u64 } else { dy as u64 };
    proof {
        assert((axd as int) * (axd as int) == (dx as int) * (dx as int)) by (nonlinear_arith)
            requires axd as int == abs_i(dx as int);
        assert((ayd as int) * (ayd as int) == (dy as int) * (dy as int)) by (nonlinear_arith)
            requires ayd as int == abs_i(dy as int);
        assert((axd as int) * (axd as int) <= 2_100_000_000int * 2_100_000_000int)
            by (nonlinear_arith)
            requires 0 <= axd as int <= 2_100_000_000int;
        assert((ayd as int) * (ayd as int) <= 2_100_000_000int * 2_100_000_000int)
            by (nonlinear_arith)
            requires 0 <= ayd as int <= 2_100_000_000int;
    }
    let sq: u64 = axd * axd + ayd * ayd;
    sq as i64
}

} // verus!
