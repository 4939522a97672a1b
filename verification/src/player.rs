//! The player ship, its bullets, and the per-tick simulation passes.
//!
//! One tick runs five passes in a fixed order: movement, rotation, fire
//! control, bullet despawn, bullet advance.  Despawn runs before the advance
//! so that a bullet's lifetime is judged on the distance it had actually
//! flown at the tick boundary.

use vstd::prelude::*;

verus! {

use vstd::math::abs;
use crate::configs::{
    BULLET_RANGE_CUTOFF, BULLET_SPAWN_INTERVAL_MS, BULLET_SPEED, BULLET_STANDOFF,
    BULLET_TRAVEL_LIMIT, CURSOR_LIMIT, HALF_BOUNDS_X, HALF_BOUNDS_Y, ORIGIN_LIMIT, SCALE,
    SPEED_PLAYER,
};
use crate::vec2::{
    clamp64, clamp_i, dir_ok, dist_sq, scaled_dir, scaled_x, scaled_y, sq, Vec2I,
};

/// Pressed state of the keys the simulation reads: four directions, each
/// with an arrow and a letter alias, and the fire button.
#[derive(Clone, Copy, Debug, Default, PartialEq, Eq, Structural)]
pub struct InputState {
    pub arrow_up: bool,
    pub key_w: bool,
    pub arrow_down: bool,
    pub key_s: bool,
    pub arrow_left: bool,
    pub key_a: bool,
    pub arrow_right: bool,
    pub key_d: bool,
    pub fire: bool,
}

/// The pointer's world position, when the window reports one.
#[derive(Clone, Copy, Debug)]
pub struct CursorPosition(pub Option<Vec2I>);

/// The player ship: a position inside the play field, a facing direction
/// (never the zero vector), and the time since the last shot.
#[derive(Clone, Copy, Debug, PartialEq, Eq, Structural)]
pub struct Player {
    pub pos: Vec2I,
    pub facing: Vec2I,
    pub cooldown_ms: u64,
}

/// A bullet in flight: its travel direction and spawn position are fixed at
/// creation and never change afterwards.
#[derive(Clone, Copy, Debug, PartialEq, Eq, Structural)]
pub struct Bullet {
    pub pos: Vec2I,
    pub dir: Vec2I,
    pub origin: Vec2I,
}

/// The whole simulation state: at most one player, and the live bullets.
#[derive(Debug)]
pub struct World {
    pub player: Option<Player>,
    pub bullets: Vec<Bullet>,
}

/// Net horizontal movement intent: opposing keys cancel, diagonals combine
/// without speed correction.
pub open spec fn intent_x(k: InputState) -> int {
    (if k.arrow_right || k.key_d { 1int } else { 0int })
        - (if k.arrow_left || k.key_a { 1int } else { 0int })
}

/// Net vertical movement intent.
pub open spec fn intent_y(k: InputState) -> int {
    (if k.arrow_up || k.key_w { 1int } else { 0int })
        - (if k.arrow_down || k.key_s { 1int } else { 0int })
}

/// The player after one movement pass: intent times speed, then each axis
/// clamped independently to the play field.
pub open spec fn moved_player(p: Player, k: InputState) -> Player {
    Player {
        pos: Vec2I {
            x: clamp_i(
                p.pos.x + intent_x(k) * SPEED_PLAYER,
                -(HALF_BOUNDS_X as int),
                HALF_BOUNDS_X as int,
            ) as i64,
            y: clamp_i(
                p.pos.y + intent_y(k) * SPEED_PLAYER,
                -(HALF_BOUNDS_Y as int),
                HALF_BOUNDS_Y as int,
            ) as i64,
        },
        ..p
    }
}

/// What the rotation pass aims at: the pointer if it is available, else the
/// player's own position (which makes the pass a no-op).
pub open spec fn rotation_target(p: Player, c: CursorPosition) -> Vec2I {
    match c.0 {
        Some(v) => v,
        None => p.pos,
    }
}

/// The player after one rotation pass: it faces the target, unless the
/// target is exactly its own position, which leaves the facing unchanged.
pub open spec fn rotated_player(p: Player, c: CursorPosition) -> Player {
    let t = rotation_target(p, c);
    if t.x == p.pos.x && t.y == p.pos.y {
        p
    } else {
        Player {
            facing: Vec2I {
                x: (t.x - p.pos.x) as i64,
                y: (t.y - p.pos.y) as i64,
            },
            ..p
        }
    }
}

/// The cooldown accumulator advanced by one tick's elapsed time
/// (saturating at the top of the counter's range).
pub open spec fn cooled(cd: u64, delta_ms: u64) -> u64 {
    if cd + delta_ms <= u64::MAX {
        (cd + delta_ms) as u64
    } else {
        u64::MAX
    }
}

/// Whether an advanced cooldown and the fire button allow a shot.
pub open spec fn fires(cd: u64, held: bool) -> bool {
    held && cd >= BULLET_SPAWN_INTERVAL_MS
}

/// Whether the fire pass spawns a bullet this tick.
pub open spec fn fire_spawns(p: Player, delta_ms: u64, held: bool) -> bool {
    fires(cooled(p.cooldown_ms, delta_ms), held)
}

/// The player after one fire pass: the cooldown advances every tick and
/// resets to exactly zero when a shot is taken.
pub open spec fn fired_player(p: Player, delta_ms: u64, held: bool) -> Player {
    Player {
        cooldown_ms: if fire_spawns(p, delta_ms, held) {
            0u64
        } else {
            cooled(p.cooldown_ms, delta_ms)
        },
        ..p
    }
}

/// The bullet a shot creates: it starts at the standoff offset ahead of the
/// player along its facing, and travels along that facing.
pub open spec fn spawned_bullet(p: Player) -> Bullet {
    let bpos = Vec2I {
        x: (p.pos.x + scaled_x(p.facing, BULLET_STANDOFF as int)) as i64,
        y: (p.pos.y + scaled_y(p.facing, BULLET_STANDOFF as int)) as i64,
    };
    Bullet { pos: bpos, dir: p.facing, origin: bpos }
}

/// A bullet is expired once the ceiling of its distance from its spawn
/// point reaches the range threshold; on the sub-unit grid that is exactly
/// a squared distance above the square of the strict cutoff.
pub open spec fn bullet_expired(b: Bullet) -> bool {
    dist_sq(b.pos, b.origin) > sq(BULLET_RANGE_CUTOFF as int)
}

/// The bullets that survive a despawn pass, in order.
pub open spec fn live(s: Seq<Bullet>) -> Seq<Bullet> {
    s.filter(|b: Bullet| !bullet_expired(b))
}

/// Every bullet of `s` advanced by one pass.
pub open spec fn advance_all(s: Seq<Bullet>) -> Seq<Bullet> {
    s.map_values(|b: Bullet| advanced_bullet(b))
}

/// A bullet after one advance pass: one speed-length step along its fixed
/// travel direction; direction and spawn point are untouched.
pub open spec fn advanced_bullet(b: Bullet) -> Bullet {
    Bullet {
        pos: Vec2I {
            x: (b.pos.x + scaled_x(b.dir, BULLET_SPEED as int)) as i64,
            y: (b.pos.y + scaled_y(b.dir, BULLET_SPEED as int)) as i64,
        },
        ..b
    }
}

/// Well-formed player: inside the play field, with a usable facing.
pub open spec fn player_ok(p: Player) -> bool {
    &&& abs(p.pos.x as int) <= HALF_BOUNDS_X
    &&& abs(p.pos.y as int) <= HALF_BOUNDS_Y
    &&& dir_ok(p.facing)
}

/// Well-formed bullet: a usable direction, a spawn point a player can have
/// produced, and a flight distance a despawn-then-advance tick can reach.
pub open spec fn bullet_ok(b: Bullet) -> bool {
    &&& dir_ok(b.dir)
    &&& abs(b.origin.x as int) <= ORIGIN_LIMIT
    &&& abs(b.origin.y as int) <= ORIGIN_LIMIT
    &&& abs(b.pos.x as int - b.origin.x as int) <= BULLET_TRAVEL_LIMIT
    &&& abs(b.pos.y as int - b.origin.y as int) <= BULLET_TRAVEL_LIMIT
}

/// Invariant of the whole simulation state, established at creation and
/// preserved by every pass.
pub open spec fn world_ok(w: World) -> bool {
    &&& (w.player matches Some(p) ==> player_ok(p))
    &&& forall|i: int| 0 <= i < w.bullets@.len() ==> bullet_ok(#[trigger] w.bullets@[i])
}

/// Pointer positions the simulation accepts.
pub open spec fn cursor_ok(c: CursorPosition) -> bool {
    c.0 matches Some(v) ==> abs(v.x as int) <= CURSOR_LIMIT && abs(v.y as int) <= CURSOR_LIMIT
}

impl World {
    /// A fresh session: the player at the origin facing straight up with a
    /// cold gun, and no bullets.
    pub fn new() -> (w: World)
        ensures
            world_ok(w),
            w.player == Some(
                Player {
                    pos: Vec2I { x: 0, y: 0 },
                    facing: Vec2I { x: 0, y: SCALE },
                    cooldown_ms: 0,
                },
            ),
            w.bullets@.len() == 0,
    {
        World {
            player: Some(
                Player { pos: Vec2I { x: 0, y: 0 }, facing: Vec2I { x: 0, y: SCALE }, cooldown_ms: 0 },
            ),
            bullets: Vec::new(),
        }
    }
}

/// Movement pass: build the intent vector from the held keys, scale it by
/// the player speed, add it to the position, and clamp each axis to the
/// play field.  A missing player makes the pass a no-op.
pub fn update_player_movement(w: &mut World, input: &InputState)
    requires
        world_ok(*old(w)),
    ensures
        world_ok(*final(w)),
        final(w).bullets@ == old(w).bullets@,
        old(w).player is None ==> final(w).player is None,
        old(w).player matches Some(p0) ==> final(w).player == Some(moved_player(p0, *input)),
{
    match &mut w.player {
        None => {}
        Some(p) => {
            let mut dx: i64 = 0;
            let mut dy: i64 = 0;
            if input.arrow_up || input.key_w {
                dy = dy + SPEED_PLAYER;
            }
            if input.arrow_down || input.key_s {
                dy = dy - SPEED_PLAYER;
            }
            if input.arrow_right || input.key_d {
                dx = dx + SPEED_PLAYER;
            }
            if input.arrow_left || input.key_a {
                dx = dx - SPEED_PLAYER;
            }
            assert(dx == intent_x(*input) * SPEED_PLAYER);
            assert(dy == intent_y(*input) * SPEED_PLAYER);
            p.pos.x = clamp64(p.pos.x + dx, -HALF_BOUNDS_X, HALF_BOUNDS_X);
            p.pos.y = clamp64(p.pos.y + dy, -HALF_BOUNDS_Y, HALF_BOUNDS_Y);
        }
    }
}

/// Rotation pass: face the pointer.  Without a pointer position the player
/// aims at itself, and an exact self-target leaves the orientation alone,
/// so no undefined angle is ever formed.  A missing player is a no-op.
pub fn update_player_rotation(w: &mut World, cursor: &CursorPosition)
    requires
        world_ok(*old(w)),
        cursor_ok(*cursor),
    ensures
        world_ok(*final(w)),
        final(w).bullets@ == old(w).bullets@,
        old(w).player is None ==> final(w).player is None,
        old(w).player matches Some(p0) ==> final(w).player == Some(rotated_player(p0, *cursor)),
{
    match &mut w.player {
        None => {}
        Some(p) => {
            let target: Vec2I = match cursor.0 {
                Some(v) => v,
                None => p.pos,
            };
            if target.x != p.pos.x || target.y != p.pos.y {
                p.facing = Vec2I { x: target.x - p.pos.x, y: target.y - p.pos.y };
            }
        }
    }
}

/// Fire pass: the cooldown accumulator advances by the tick's elapsed time
/// every tick; once it has reached the fire interval and the fire button is
/// held, it resets to exactly zero and a bullet spawns at the standoff
/// offset ahead of the player, travelling along the player's facing at that
/// instant.  A missing player is a no-op.
pub fn update_player_fire(w: &mut World, delta_ms: u64, fire_held: bool)
    requires
        world_ok(*old(w)),
    ensures
        world_ok(*final(w)),
        old(w).player is None ==> final(w).player is None && final(w).bullets@
            == old(w).bullets@,
        old(w).player matches Some(p0) ==> {
            &&& final(w).player == Some(fired_player(p0, delta_ms, fire_held))
            &&& fire_spawns(p0, delta_ms, fire_held) ==> final(w).bullets@ == old(
                w,
            ).bullets@.push(spawned_bullet(p0))
            &&& !fire_spawns(p0, delta_ms, fire_held) ==> final(w).bullets@ == old(w).bullets@
        },
{
    let p0: Player = match &w.player {
        None => {
            return ;
        },
        Some(p) => *p,
    };
    let cd: u64 = if delta_ms <= u64::MAX - p0.cooldown_ms {
        p0.cooldown_ms + delta_ms
    } else {
        u64::MAX
    };
    assert(cd == cooled(p0.cooldown_ms, delta_ms));
    if fire_held && cd >= BULLET_SPAWN_INTERVAL_MS {
        let off = scaled_dir(&p0.facing, BULLET_STANDOFF);
        let bpos = Vec2I { x: p0.pos.x + off.x, y: p0.pos.y + off.y };
        let b = Bullet { pos: bpos, dir: p0.facing, origin: bpos };
        assert(b == spawned_bullet(p0));
        assert(bullet_ok(b));
        w.player = Some(Player { cooldown_ms: 0, ..p0 });
        w.bullets.push(b);
    } else {
        w.player = Some(Player { cooldown_ms: cd, ..p0 });
    }
}

/// Despawn pass: remove every bullet whose flight distance has met the
/// range threshold, keeping the others in order.  This runs before the
/// advance pass of the same tick, so a bullet is judged on the distance it
/// had reached at the tick boundary and survivors are within the cutoff.
pub fn despawn_old_bullets(w: &mut World)
    requires
        world_ok(*old(w)),
    ensures
        world_ok(*final(w)),
        final(w).player == old(w).player,
        final(w).bullets@ == live(old(w).bullets@),
        forall|i: int|
            0 <= i < final(w).bullets@.len() ==> !bullet_expired(#[trigger] final(w).bullets@[i]),
{
    let n = w.bullets.len();
    let mut kept: Vec<Bullet> = Vec::new();
    let mut i: usize = 0;
    proof {
        reveal_with_fuel(Seq::<_>::filter, 2);
        assert(kept@ == live(w.bullets@.take(0)));
    }
    while i < n
        invariant
            *w == *old(w),
            world_ok(*w),
            n == w.bullets@.len(),
            i <= n,
            kept@ == live(w.bullets@.take(i as int)),
            forall|j: int| 0 <= j < kept@.len() ==> !bullet_expired(#[trigger] kept@[j]),
            forall|j: int| 0 <= j < kept@.len() ==> bullet_ok(#[trigger] kept@[j]),
        decreases n - i,
    {
        let b = w.bullets[i];
        let ex = b.pos.x - b.origin.x;
        let ey = b.pos.y - b.origin.y;
        assert(0 <= ex * ex <= 25_281_000_000 && 0 <= ey * ey <= 25_281_000_000 && ex * ex + ey
            * ey == dist_sq(b.pos, b.origin)) by (nonlinear_arith)
            requires
                -BULLET_TRAVEL_LIMIT <= ex <= BULLET_TRAVEL_LIMIT,
                -BULLET_TRAVEL_LIMIT <= ey <= BULLET_TRAVEL_LIMIT,
                BULLET_TRAVEL_LIMIT == 159_000int,
                ex == b.pos.x - b.origin.x,
                ey == b.pos.y - b.origin.y,
                dist_sq(b.pos, b.origin) == (b.pos.x - b.origin.x) * (b.pos.x - b.origin.x) + (
                b.pos.y - b.origin.y) * (b.pos.y - b.origin.y),
        ;
        let d2 = ex * ex + ey * ey;
        assert(BULLET_RANGE_CUTOFF as int * BULLET_RANGE_CUTOFF as int == 22_201_000_000int)
            by (nonlinear_arith)
            requires BULLET_RANGE_CUTOFF == 149_000int;
        if d2 <= BULLET_RANGE_CUTOFF * BULLET_RANGE_CUTOFF {
            kept.push(b);
        }
        proof {
            let s = w.bullets@;
            let t1 = s.take(i as int + 1);
            let t0 = s.take(i as int);
            assert(t1.drop_last() =~= t0);
            assert(t1.last() == b);
            reveal_with_fuel(Seq::<_>::filter, 2);
            assert(live(t1) == if !bullet_expired(b) {
                live(t0).push(b)
            } else {
                live(t0)
            });
        }
        i = i + 1;
    }
    proof {
        assert(w.bullets@.take(n as int) =~= w.bullets@);
    }
    w.bullets = kept;
}

/// Advance pass: every live bullet takes one speed-length step along its
/// fixed travel direction.  Its direction and spawn point never change; the
/// despawn pass of the same tick must already have run, so every bullet
/// here is within the range cutoff.
pub fn update_bullet(w: &mut World)
    requires
        world_ok(*old(w)),
        forall|i: int|
            0 <= i < old(w).bullets@.len() ==> !bullet_expired(#[trigger] old(w).bullets@[i]),
    ensures
        world_ok(*final(w)),
        final(w).player == old(w).player,
        final(w).bullets@ == advance_all(old(w).bullets@),
        final(w).bullets@.len() == old(w).bullets@.len(),
        forall|i: int|
            0 <= i < old(w).bullets@.len() ==> #[trigger] final(w).bullets@[i].dir == old(
                w,
            ).bullets@[i].dir,
        forall|i: int|
            0 <= i < old(w).bullets@.len() ==> #[trigger] final(w).bullets@[i].origin == old(
                w,
            ).bullets@[i].origin,
        forall|i: int|
            0 <= i < old(w).bullets@.len() ==> #[trigger] final(w).bullets@[i].pos.x == old(
                w,
            ).bullets@[i].pos.x + scaled_x(old(w).bullets@[i].dir, BULLET_SPEED as int)
                && final(w).bullets@[i].pos.y == old(w).bullets@[i].pos.y + scaled_y(
                old(w).bullets@[i].dir,
                BULLET_SPEED as int,
            ),
{
    let n = w.bullets.len();
    let mut out: Vec<Bullet> = Vec::new();
    let mut i: usize = 0;
    while i < n
        invariant
            *w == *old(w),
            world_ok(*w),
            forall|j: int|
                0 <= j < w.bullets@.len() ==> !bullet_expired(#[trigger] w.bullets@[j]),
            n == w.bullets@.len(),
            i <= n,
            out@.len() == i as int,
            forall|j: int| 0 <= j < i as int ==> #[trigger] out@[j] == advanced_bullet(
                w.bullets@[j],
            ),
            forall|j: int| 0 <= j < i as int ==> bullet_ok(#[trigger] out@[j]),
            forall|j: int|
                0 <= j < i as int ==> #[trigger] out@[j].pos.x == w.bullets@[j].pos.x + scaled_x(
                    w.bullets@[j].dir,
                    BULLET_SPEED as int,
                ) && out@[j].pos.y == w.bullets@[j].pos.y + scaled_y(
                    w.bullets@[j].dir,
                    BULLET_SPEED as int,
                ),
        decreases n - i,
    {
        let b = w.bullets[i];
        assert(bullet_ok(b) && !bullet_expired(b));
        let ghost ex = b.pos.x as int - b.origin.x as int;
        let ghost ey = b.pos.y as int - b.origin.y as int;
        assert(-BULLET_RANGE_CUTOFF <= ex <= BULLET_RANGE_CUTOFF
            && -BULLET_RANGE_CUTOFF <= ey <= BULLET_RANGE_CUTOFF) by (nonlinear_arith)
            requires
                ex * ex + ey * ey <= BULLET_RANGE_CUTOFF as int * BULLET_RANGE_CUTOFF as int,
                BULLET_RANGE_CUTOFF == 149_000int,
                dist_sq(b.pos, b.origin) == ex * ex + ey * ey,
                dist_sq(b.pos, b.origin) <= sq(BULLET_RANGE_CUTOFF as int),
        ;
        let step = scaled_dir(&b.dir, BULLET_SPEED);
        let np = Vec2I { x: b.pos.x + step.x, y: b.pos.y + step.y };
        let nb = Bullet { pos: np, dir: b.dir, origin: b.origin };
        assert(nb == advanced_bullet(b));
        assert(bullet_ok(nb));
        out.push(nb);
        i = i + 1;
    }
    proof {
        assert(out@ =~= advance_all(w.bullets@));
    }
    w.bullets = out;
}

/// One simulation tick, in the mandated order: movement, rotation, fire
/// control, bullet despawn, bullet advance.  A bullet spawned this tick is
/// part of the store when the bullet passes run.
pub fn tick(w: &mut World, input: &InputState, cursor: &CursorPosition, delta_ms: u64)
    requires
        world_ok(*old(w)),
        cursor_ok(*cursor),
    ensures
        world_ok(*final(w)),
        old(w).player is None ==> final(w).player is None && final(w).bullets@ == advance_all(
            live(old(w).bullets@),
        ),
        old(w).player matches Some(p0) ==> {
            let aimed = rotated_player(moved_player(p0, *input), *cursor);
            &&& final(w).player == Some(fired_player(aimed, delta_ms, input.fire))
            &&& final(w).bullets@ == advance_all(
                live(
                    if fire_spawns(aimed, delta_ms, input.fire) {
                        old(w).bullets@.push(spawned_bullet(aimed))
                    } else {
                        old(w).bullets@
                    },
                ),
            )
        },
{
    update_player_movement(w, input);
    update_player_rotation(w, cursor);
    update_player_fire(w, delta_ms, input.fire);
    despawn_old_bullets(w);
    update_bullet(w);
}

} // verus!
