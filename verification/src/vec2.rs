//! Integer 2D vectors on the sub-unit grid, with the exact square root and
//! direction-scaling arithmetic the simulation is built on.

use vstd::prelude::*;

verus! {

use vstd::math::abs;

/// A point or direction on the sub-unit coordinate grid.
#[derive(Clone, Copy, Debug, PartialEq, Eq, Structural)]
pub struct Vec2I {
    pub x: i64,
    pub y: i64,
}

/// The square of an integer.
pub open spec fn sq(v: int) -> int {
    v * v
}

/// The floor of the square root of `n` (0 for negative `n`).
pub open spec fn sqrt_floor(n: int) -> int
    decreases n,
{
    if n <= 0 {
        0
    } else {
        let r = sqrt_floor(n - 1);
        if sq(r + 1) <= n {
            r + 1
        } else {
            r
        }
    }
}

/// `sqrt_floor(n)` is the unique integer whose square is at most `n` while
/// the next square is above `n`.
pub proof fn lemma_sqrt_floor_bounds(n: int)
    requires
        n >= 0,
    ensures
        sqrt_floor(n) >= 0,
        sq(sqrt_floor(n)) <= n,
        n < sq(sqrt_floor(n) + 1),
    decreases n,
{
    if n > 0 {
        lemma_sqrt_floor_bounds(n - 1);
        let r = sqrt_floor(n - 1);
        if sq(r + 1) <= n {
            assert(sq(r + 1) < sq(r + 2)) by (nonlinear_arith)
                requires r >= 0;
        }
    }
}

/// Any integer meeting the two square bounds for `n` is `sqrt_floor(n)`.
pub proof fn lemma_sqrt_floor_unique(n: int, r: int)
    requires
        n >= 0,
        r >= 0,
        sq(r) <= n,
        n < sq(r + 1),
    ensures
        r == sqrt_floor(n),
{
    lemma_sqrt_floor_bounds(n);
    let f = sqrt_floor(n);
    if r < f {
        assert(sq(r + 1) <= sq(f)) by (nonlinear_arith)
            requires 0 <= r + 1 <= f;
    }
    if f < r {
        assert(sq(f + 1) <= sq(r)) by (nonlinear_arith)
            requires 0 <= f + 1 <= r;
    }
}

/// Floor of the square root of `s`, by binary search.
pub fn isqrt(s: u64) -> (r: u64)
    ensures
        r == sqrt_floor(s as int),
        sq(r as int) <= s < sq(r as int + 1),
{
    let mut lo: u64 = 0;
    let mut hi: u64 = 4_294_967_296;
    assert(s < hi * hi);
    while lo + 1 < hi
        invariant
            lo < hi <= 4_294_967_296,
            sq(lo as int) <= s,
            s < sq(hi as int),
        decreases hi - lo,
    {
        let mid = lo + (hi - lo) / 2;
        assert(mid * mid < 18_446_744_073_709_551_615u64) by (nonlinear_arith)
            requires mid < 4_294_967_296u64;
        if mid * mid <= s {
            lo = mid;
        } else {
            hi = mid;
        }
    }
    proof {
        lemma_sqrt_floor_unique(s as int, lo as int);
    }
    lo
}

/// Squared Euclidean length of a direction vector.
pub open spec fn norm_sq(d: Vec2I) -> int {
    sq(d.x as int) + sq(d.y as int)
}

/// A usable direction: non-zero, with components small enough that every
/// product the scaling arithmetic forms stays inside the machine integers.
pub open spec fn dir_ok(d: Vec2I) -> bool {
    &&& !(d.x == 0 && d.y == 0)
    &&& abs(d.x as int) <= crate::configs::DIR_LIMIT
    &&& abs(d.y as int) <= crate::configs::DIR_LIMIT
}

/// One component of a direction scaled to magnitude `m`: the component of
/// `m * d / |d|`, rounded toward zero.  `len` is `sqrt_floor(norm_sq(d))`.
pub open spec fn scaled_comp(c: int, len: int, m: int) -> int {
    if c >= 0 {
        (c * m) / len
    } else {
        -(((-c) * m) / len)
    }
}

/// The x component of `d` rescaled to length `m`.
pub open spec fn scaled_x(d: Vec2I, m: int) -> int {
    scaled_comp(d.x as int, sqrt_floor(norm_sq(d)), m)
}

/// The y component of `d` rescaled to length `m`.
pub open spec fn scaled_y(d: Vec2I, m: int) -> int {
    scaled_comp(d.y as int, sqrt_floor(norm_sq(d)), m)
}

/// A rescaled component never exceeds the requested magnitude.
pub proof fn lemma_scaled_bounds(d: Vec2I, m: int)
    requires
        dir_ok(d),
        1 <= m <= 100_000,
    ensures
        abs(scaled_x(d, m)) <= m,
        abs(scaled_y(d, m)) <= m,
        sqrt_floor(norm_sq(d)) >= 1,
        abs(d.x as int) <= sqrt_floor(norm_sq(d)),
        abs(d.y as int) <= sqrt_floor(norm_sq(d)),
{
    let dx = d.x as int;
    let dy = d.y as int;
    let s = norm_sq(d);
    let ax = abs(dx) as int;
    let ay = abs(dy) as int;
    assert(ax == dx || ax == -dx);
    assert(ay == dy || ay == -dy);
    assert(ax >= 0 && ay >= 0 && (ax >= 1 || ay >= 1));
    assert(ax * ax + ay * ay == s) by (nonlinear_arith)
        requires s == dx * dx + dy * dy, ax == dx || ax == -dx, ay == dy || ay == -dy;
    assert(s >= 1 && ax * ax <= s && ay * ay <= s) by (nonlinear_arith)
        requires s == ax * ax + ay * ay, ax >= 0, ay >= 0, ax >= 1 || ay >= 1;
    lemma_sqrt_floor_bounds(s);
    let l = sqrt_floor(s);
    assert(l >= 1) by (nonlinear_arith)
        requires s >= 1, l >= 0, s < (l + 1) * (l + 1);
    assert(ax <= l) by (nonlinear_arith)
        requires ax * ax <= s, s < (l + 1) * (l + 1), ax >= 0, l >= 0;
    assert(ay <= l) by (nonlinear_arith)
        requires ay * ay <= s, s < (l + 1) * (l + 1), ay >= 0, l >= 0;
    assert(ax * m <= l * m && ax * m >= 0) by (nonlinear_arith)
        requires 0 <= ax <= l, m >= 1;
    assert(ay * m <= l * m && ay * m >= 0) by (nonlinear_arith)
        requires 0 <= ay <= l, m >= 1;
    vstd::arithmetic::div_mod::lemma_div_is_ordered(ax * m, l * m, l);
    vstd::arithmetic::div_mod::lemma_div_is_ordered(ay * m, l * m, l);
    vstd::arithmetic::div_mod::lemma_div_multiples_vanish(m, l);
    vstd::arithmetic::div_mod::lemma_div_pos_is_pos(ax * m, l);
    vstd::arithmetic::div_mod::lemma_div_pos_is_pos(ay * m, l);
    assert(0 <= (ax * m) / l <= m);
    assert(0 <= (ay * m) / l <= m);
}

/// `d` rescaled so that its Euclidean length is (up to sub-unit rounding)
/// `m`, keeping its orientation.
pub fn scaled_dir(d: &Vec2I, m: i64) -> (r: Vec2I)
    requires
        dir_ok(*d),
        1 <= m <= 100_000,
    ensures
        r.x == scaled_x(*d, m as int),
        r.y == scaled_y(*d, m as int),
        abs(r.x as int) <= m,
        abs(r.y as int) <= m,
{
    proof {
        lemma_scaled_bounds(*d, m as int);
    }
    let ghost dx = d.x as int;
    let ghost dy = d.y as int;
    let adx: i64 = if d.x < 0 { -d.x } else { d.x };
    let ady: i64 = if d.y < 0 { -d.y } else { d.y };
    assert(adx == abs(dx) && ady == abs(dy));
    let axu = adx as u64;
    let ayu = ady as u64;
    assert(axu == adx && ayu == ady);
    assert(axu <= 1_360_000_000u64 && ayu <= 1_360_000_000u64);
    assert(axu * axu + ayu * ayu <= 18_000_000_000_000_000_000u64) by (nonlinear_arith)
        requires axu <= 1_360_000_000u64, ayu <= 1_360_000_000u64;
    let s: u64 = axu * axu + ayu * ayu;
    assert(s == norm_sq(*d)) by (nonlinear_arith)
        requires
            s == axu * axu + ayu * ayu,
            axu == dx || axu == -dx,
            ayu == dy || ayu == -dy,
            norm_sq(*d) == dx * dx + dy * dy;
    let l: u64 = isqrt(s);
    assert(l == sqrt_floor(norm_sq(*d)) && l >= 1);
    assert(axu * (m as u64) <= 200_000_000_000_000u64) by (nonlinear_arith)
        requires axu <= 1_360_000_000u64, m as u64 <= 100_000u64;
    assert(ayu * (m as u64) <= 200_000_000_000_000u64) by (nonlinear_arith)
        requires ayu <= 1_360_000_000u64, m as u64 <= 100_000u64;
    let mx: u64 = (axu * (m as u64)) / l;
    let my: u64 = (ayu * (m as u64)) / l;
    assert(mx == (abs(dx) * m) / (l as int));
    assert(my == (abs(dy) * m) / (l as int));
    assert(mx == abs(scaled_x(*d, m as int)));
    assert(my == abs(scaled_y(*d, m as int)));
    assert(mx <= m as u64 && my <= m as u64);
    let rx: i64 = if d.x < 0 { -(mx as i64) } else { mx as i64 };
    let ry: i64 = if d.y < 0 { -(my as i64) } else { my as i64 };
    Vec2I { x: rx, y: ry }
}

/// Squared distance between two points.
pub open spec fn dist_sq(a: Vec2I, b: Vec2I) -> int {
    sq(a.x as int - b.x as int) + sq(a.y as int - b.y as int)
}

/// `v` forced into the closed interval [`lo`, `hi`].
pub open spec fn clamp_i(v: int, lo: int, hi: int) -> int {
    if v < lo {
        lo
    } else if v > hi {
        hi
    } else {
        v
    }
}

/// Clamp a machine integer into [`lo`, `hi`].
pub fn clamp64(v: i64, lo: i64, hi: i64) -> (r: i64)
    requires
        lo <= hi,
    ensures
        r == clamp_i(v as int, lo as int, hi as int),
        lo <= r <= hi,
{
    if v < lo {
        lo
    } else if v > hi {
        hi
    } else {
        v
    }
}

} // verus!
