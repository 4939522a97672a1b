//! System-wide guarantees of the simulation, stated over the same spec
//! functions the per-pass contracts use.

use vstd::prelude::*;

verus! {

use vstd::arithmetic::div_mod::{
    lemma_div_pos_is_pos, lemma_fundamental_div_mod, lemma_fundamental_div_mod_converse,
    lemma_mod_bound, lemma_small_mod,
};
use vstd::math::abs;
use crate::configs::{
    BULLET_RANGE_CUTOFF, BULLET_SPAWN_INTERVAL_MS, BULLET_SPEED, HALF_BOUNDS_X, HALF_BOUNDS_Y,
    MAX_FLIGHT_TICKS, MIN_STEP_SQ,
};
use crate::player::{
    advanced_bullet, bullet_expired, bullet_ok, fire_spawns, fired_player, moved_player,
    player_ok, rotated_player, rotation_target, Bullet, CursorPosition, InputState, Player,
};
use crate::vec2::{
    dir_ok, dist_sq, lemma_scaled_bounds, lemma_sqrt_floor_bounds, norm_sq, scaled_x, scaled_y,
    sq, sqrt_floor, Vec2I,
};

/// The player after any finite sequence of movement passes, one held key
/// state per tick.
pub open spec fn moved_many(p: Player, ks: Seq<InputState>) -> Player
    decreases ks.len(),
{
    if ks.len() == 0 {
        p
    } else {
        moved_many(moved_player(p, ks[0]), ks.skip(1))
    }
}

/// Bounds clamp: whatever movement keys are held, for any number of ticks,
/// a well-formed player stays inside the play field, and stays well formed.
pub proof fn lemma_bounds_clamp(p: Player, ks: Seq<InputState>)
    requires
        player_ok(p),
    ensures
        player_ok(moved_many(p, ks)),
        abs(moved_many(p, ks).pos.x as int) <= HALF_BOUNDS_X,
        abs(moved_many(p, ks).pos.y as int) <= HALF_BOUNDS_Y,
    decreases ks.len(),
{
    if ks.len() > 0 {
        let p1 = moved_player(p, ks[0]);
        assert(player_ok(p1));
        lemma_bounds_clamp(p1, ks.skip(1));
    }
}

/// Cooldown monotonicity: the accumulator is never negative, resets to
/// exactly zero on the tick that spawns a bullet, and otherwise grows by
/// exactly the tick's elapsed time.
pub proof fn lemma_cooldown_monotonic(p: Player, delta_ms: u64, held: bool)
    requires
        p.cooldown_ms + delta_ms <= u64::MAX,
    ensures
        fired_player(p, delta_ms, held).cooldown_ms >= 0,
        fire_spawns(p, delta_ms, held) ==> fired_player(p, delta_ms, held).cooldown_ms == 0,
        !fire_spawns(p, delta_ms, held) ==> fired_player(p, delta_ms, held).cooldown_ms
            == p.cooldown_ms + delta_ms,
{
}

/// Rotation stability at self-target: when the aim target is exactly the
/// player's own position, the rotation pass changes nothing.
pub proof fn lemma_rotation_stable_at_self_target(p: Player, c: CursorPosition)
    requires
        rotation_target(p, c) == p.pos,
    ensures
        rotated_player(p, c) == p,
{
}

/// The movement and rotation passes never touch the cooldown accumulator,
/// so the fire-control behaviour of a full tick is that of the fire pass
/// alone.
pub proof fn lemma_aim_preserves_cooldown(p: Player, k: InputState, c: CursorPosition)
    ensures
        rotated_player(moved_player(p, k), c).cooldown_ms == p.cooldown_ms,
{
}

/// The player after `n` fire passes with the same elapsed time and fire
/// button state per tick.
pub open spec fn fire_ticks(p: Player, delta_ms: u64, held: bool, n: nat) -> Player
    decreases n,
{
    if n == 0 {
        p
    } else {
        fired_player(fire_ticks(p, delta_ms, held, (n - 1) as nat), delta_ms, held)
    }
}

/// How many bullets `n` such fire passes spawn.
pub open spec fn shots_fired(p: Player, delta_ms: u64, held: bool, n: nat) -> nat
    decreases n,
{
    if n == 0 {
        0nat
    } else {
        shots_fired(p, delta_ms, held, (n - 1) as nat) + if fire_spawns(
            fire_ticks(p, delta_ms, held, (n - 1) as nat),
            delta_ms,
            held,
        ) {
            1nat
        } else {
            0nat
        }
    }
}

/// Fire gating: starting from a cold gun and holding the fire button over
/// `n` ticks of fixed elapsed time `delta_ms`, exactly
/// floor(n * delta_ms / interval) bullets are spawned, and the accumulator
/// carries the remainder.  Stated for tick times that divide the interval,
/// where no accumulated time is discarded by the reset to zero.
pub proof fn lemma_fire_gating(p: Player, delta_ms: u64, n: nat)
    requires
        p.cooldown_ms == 0,
        1 <= delta_ms <= BULLET_SPAWN_INTERVAL_MS,
        BULLET_SPAWN_INTERVAL_MS as int % delta_ms as int == 0,
    ensures
        shots_fired(p, delta_ms, true, n) == (n * delta_ms) / (BULLET_SPAWN_INTERVAL_MS as int),
        fire_ticks(p, delta_ms, true, n).cooldown_ms == (n * delta_ms) % (
        BULLET_SPAWN_INTERVAL_MS as int),
    decreases n,
{
    let iv = BULLET_SPAWN_INTERVAL_MS as int;
    let d = delta_ms as int;
    if n == 0 {
        lemma_small_mod(0nat, BULLET_SPAWN_INTERVAL_MS as nat);
        lemma_div_pos_is_pos(0, iv);
        vstd::arithmetic::div_mod::lemma_basic_div(0, iv);
    } else {
        let m = (n - 1) as nat;
        lemma_fire_gating(p, delta_ms, m);
        let q = fire_ticks(p, delta_ms, true, m);
        let r = q.cooldown_ms as int;
        let qd = (m * d) / iv;
        lemma_mod_bound(m as int * d, iv);
        lemma_fundamental_div_mod(m as int * d, iv);
        lemma_fundamental_div_mod(iv, d);
        let k = iv / d;
        assert(iv == d * k);
        let t = m as int - k * qd;
        assert(r == d * t) by (nonlinear_arith)
            requires
                r == m as int * d - iv * qd,
                iv == d * k,
                t == m as int - k * qd,
        ;
        assert(t >= 0 && t < k) by (nonlinear_arith)
            requires
                r == d * t,
                0 <= r < iv,
                iv == d * k,
                d >= 1,
        ;
        assert(r <= iv - d) by (nonlinear_arith)
            requires
                r == d * t,
                t <= k - 1,
                iv == d * k,
                d >= 1,
        ;
        let c = r + d;
        assert(fire_ticks(p, delta_ms, true, n) == fired_player(q, delta_ms, true));
        assert(n as int * d == m as int * d + d) by (nonlinear_arith)
            requires n as int == m as int + 1;
        if c == iv {
            assert(fire_spawns(q, delta_ms, true));
            assert(n as int * d == (qd + 1) * iv) by (nonlinear_arith)
                requires
                    n as int * d == m as int * d + d,
                    m as int * d == iv * qd + r,
                    r == iv - d,
            ;
            lemma_fundamental_div_mod_converse(n as int * d, iv, qd + 1, 0);
        } else {
            assert(!fire_spawns(q, delta_ms, true));
            assert(n as int * d == qd * iv + (r + d)) by (nonlinear_arith)
                requires
                    n as int * d == m as int * d + d,
                    m as int * d == iv * qd + r,
            ;
            lemma_fundamental_div_mod_converse(n as int * d, iv, qd, r + d);
        }
    }
}

/// A direction rescaled to bullet speed keeps a squared length of at least
/// MIN_STEP_SQ, whatever its orientation: the sub-unit rounding loses less
/// than three sub-units of the speed.
pub proof fn lemma_step_sq_lower(d: Vec2I)
    requires
        dir_ok(d),
    ensures
        sq(scaled_x(d, BULLET_SPEED as int)) + sq(scaled_y(d, BULLET_SPEED as int))
            >= MIN_STEP_SQ,
{
    let m = BULLET_SPEED as int;
    let dx = d.x as int;
    let dy = d.y as int;
    let s = norm_sq(d);
    let a = abs(dx) as int;
    let b = abs(dy) as int;
    lemma_scaled_bounds(d, m);
    lemma_sqrt_floor_bounds(s);
    let l = sqrt_floor(s);
    assert(a * a + b * b == s) by (nonlinear_arith)
        requires
            s == dx * dx + dy * dy,
            a == dx || a == -dx,
            b == dy || b == -dy,
    ;
    let ax = (a * m) / l;
    let ay = (b * m) / l;
    assert(sq(scaled_x(d, m)) == ax * ax && sq(scaled_y(d, m)) == ay * ay) by (nonlinear_arith)
        requires
            scaled_x(d, m) == ax || scaled_x(d, m) == -ax,
            scaled_y(d, m) == ay || scaled_y(d, m) == -ay,
            sq(scaled_x(d, m)) == scaled_x(d, m) * scaled_x(d, m),
            sq(scaled_y(d, m)) == scaled_y(d, m) * scaled_y(d, m),
    ;
    lemma_div_pos_is_pos(a * m, l);
    lemma_div_pos_is_pos(b * m, l);
    lemma_fundamental_div_mod(a * m, l);
    lemma_fundamental_div_mod(b * m, l);
    lemma_mod_bound(a * m, l);
    lemma_mod_bound(b * m, l);
    assert(ax * l >= a * m - l + 1 && ay * l >= b * m - l + 1) by (nonlinear_arith)
        requires
            a * m == l * ax + (a * m) % l,
            b * m == l * ay + (b * m) % l,
            (a * m) % l < l,
            (b * m) % l < l,
    ;
    if b * m < l {
        assert((a * m) * (a * m) > (9_999 * l) * (9_999 * l)) by (nonlinear_arith)
            requires
                s == a * a + b * b,
                s >= l * l,
                0 <= b * m < l,
                m == 10_000int,
                l >= 1,
        ;
        assert(a * m >= 9_999 * l + 1) by (nonlinear_arith)
            requires
                (a * m) * (a * m) > (9_999 * l) * (9_999 * l),
                a * m >= 0,
                l >= 1,
        ;
        assert(ax >= 9_999) by (nonlinear_arith)
            requires
                ax * l >= a * m - l + 1,
                a * m >= 9_999 * l + 1,
                l >= 1,
        ;
        assert(ax * ax + ay * ay >= 99_940_009) by (nonlinear_arith)
            requires
                ax >= 9_999,
                ay >= 0,
        ;
    } else if a * m < l {
        assert((b * m) * (b * m) > (9_999 * l) * (9_999 * l)) by (nonlinear_arith)
            requires
                s == a * a + b * b,
                s >= l * l,
                0 <= a * m < l,
                m == 10_000int,
                l >= 1,
        ;
        assert(b * m >= 9_999 * l + 1) by (nonlinear_arith)
            requires
                (b * m) * (b * m) > (9_999 * l) * (9_999 * l),
                b * m >= 0,
                l >= 1,
        ;
        assert(ay >= 9_999) by (nonlinear_arith)
            requires
                ay * l >= b * m - l + 1,
                b * m >= 9_999 * l + 1,
                l >= 1,
        ;
        assert(ax * ax + ay * ay >= 99_940_009) by (nonlinear_arith)
            requires
                ay >= 9_999,
                ax >= 0,
        ;
    } else {
        assert((ax * l) * (ax * l) >= (a * m - l) * (a * m - l)) by (nonlinear_arith)
            requires
                ax * l >= a * m - l + 1,
                a * m - l >= 0,
        ;
        assert((ay * l) * (ay * l) >= (b * m - l) * (b * m - l)) by (nonlinear_arith)
            requires
                ay * l >= b * m - l + 1,
                b * m - l >= 0,
        ;
        assert((a + b) * (a + b) <= 8 * (l * l)) by (nonlinear_arith)
            requires
                s == a * a + b * b,
                s < (l + 1) * (l + 1),
                l >= 1,
        ;
        assert(2 * m * (a + b) * l <= 56_569 * (l * l)) by (nonlinear_arith)
            requires
                (a + b) * (a + b) <= 8 * (l * l),
                a + b >= 0,
                l >= 1,
                m == 10_000int,
        ;
        assert((a * m - l) * (a * m - l) + (b * m - l) * (b * m - l) >= 99_943_433 * (l * l))
            by (nonlinear_arith)
            requires
                s == a * a + b * b,
                s >= l * l,
                2 * m * (a + b) * l <= 56_569 * (l * l),
                m == 10_000int,
                l >= 1,
        ;
        assert((ax * l) * (ax * l) + (ay * l) * (ay * l) == (ax * ax + ay * ay) * (l * l))
            by (nonlinear_arith);
        assert((ax * ax + ay * ay) * (l * l) >= 99_943_433 * (l * l));
        assert(ax * ax + ay * ay >= 99_940_009) by (nonlinear_arith)
            requires
                (ax * ax + ay * ay) * (l * l) >= 99_943_433 * (l * l),
                l >= 1,
        ;
    }
}

/// One advance pass keeps a bullet's flight linear: a well-formed bullet
/// standing `k` steps from its spawn point along its direction stands
/// `k + 1` steps along the same direction afterwards, with direction and
/// spawn point untouched.
pub proof fn lemma_advance_extends_flight(b: Bullet, k: nat)
    requires
        bullet_ok(b),
        b.pos.x == b.origin.x + k * scaled_x(b.dir, BULLET_SPEED as int),
        b.pos.y == b.origin.y + k * scaled_y(b.dir, BULLET_SPEED as int),
    ensures
        advanced_bullet(b).dir == b.dir,
        advanced_bullet(b).origin == b.origin,
        advanced_bullet(b).pos.x == b.origin.x + (k + 1) * scaled_x(b.dir, BULLET_SPEED as int),
        advanced_bullet(b).pos.y == b.origin.y + (k + 1) * scaled_y(b.dir, BULLET_SPEED as int),
{
    let sx = scaled_x(b.dir, BULLET_SPEED as int);
    let sy = scaled_y(b.dir, BULLET_SPEED as int);
    lemma_scaled_bounds(b.dir, BULLET_SPEED as int);
    assert((k + 1) * sx == k * sx + sx && (k + 1) * sy == k * sy + sy) by (nonlinear_arith);
}

/// A bullet standing exactly at its spawn point is not expired: it is never
/// removed before its flight meets the range threshold.
pub proof fn lemma_bullet_fresh_not_expired(b: Bullet)
    requires
        b.pos == b.origin,
    ensures
        !bullet_expired(b),
{
    assert(sq(BULLET_RANGE_CUTOFF as int) == 22_201_000_000int) by (nonlinear_arith)
        requires BULLET_RANGE_CUTOFF == 149_000int;
}

/// Lifetime termination: a bullet that has advanced MAX_FLIGHT_TICKS times
/// or more along its fixed direction is expired, so the despawn pass
/// removes it; no bullet flies forever.
pub proof fn lemma_bullet_lifetime(b: Bullet, k: nat)
    requires
        dir_ok(b.dir),
        k >= MAX_FLIGHT_TICKS,
        b.pos.x == b.origin.x + k * scaled_x(b.dir, BULLET_SPEED as int),
        b.pos.y == b.origin.y + k * scaled_y(b.dir, BULLET_SPEED as int),
    ensures
        bullet_expired(b),
{
    let sx = scaled_x(b.dir, BULLET_SPEED as int);
    let sy = scaled_y(b.dir, BULLET_SPEED as int);
    lemma_step_sq_lower(b.dir);
    assert(dist_sq(b.pos, b.origin) == (k * k) * (sx * sx + sy * sy)) by (nonlinear_arith)
        requires
            b.pos.x as int - b.origin.x as int == k * sx,
            b.pos.y as int - b.origin.y as int == k * sy,
            dist_sq(b.pos, b.origin) == (b.pos.x as int - b.origin.x as int) * (b.pos.x as int
                - b.origin.x as int) + (b.pos.y as int - b.origin.y as int) * (b.pos.y as int
                - b.origin.y as int),
    ;
    assert((k * k) * (sx * sx + sy * sy) > 22_201_000_000int) by (nonlinear_arith)
        requires
            k >= 15,
            sx * sx + sy * sy >= 99_940_009int,
    ;
    assert(sq(BULLET_RANGE_CUTOFF as int) == 22_201_000_000int) by (nonlinear_arith)
        requires BULLET_RANGE_CUTOFF == 149_000int;
}

} // verus!
