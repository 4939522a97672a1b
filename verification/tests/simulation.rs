use starship_battle::configs::{
    BULLET_SPAWN_INTERVAL_MS, HALF_BOUNDS_X, HALF_BOUNDS_Y, SCALE, SPEED_PLAYER,
};
use starship_battle::player::{
    despawn_old_bullets, tick, update_bullet, update_player_fire, update_player_movement,
    update_player_rotation, Bullet, CursorPosition, InputState, Player, World,
};
use starship_battle::vec2::{clamp64, isqrt, scaled_dir, Vec2I};

fn keys_right() -> InputState {
    InputState { arrow_right: true, ..Default::default() }
}

fn no_cursor() -> CursorPosition {
    CursorPosition(None)
}

#[test]
fn new_world_initial_state() {
    let w = World::new();
    let p = w.player.unwrap();
    assert_eq!(p.pos, Vec2I { x: 0, y: 0 });
    assert_eq!(p.facing, Vec2I { x: 0, y: SCALE });
    assert_eq!(p.cooldown_ms, 0);
    assert_eq!(w.bullets.len(), 0);
}

#[test]
fn movement_right_clamps_at_bound() {
    // Holding "right" for 40 ticks at 8 units per tick: x reaches the
    // 260-unit bound during tick 33 and stays there; y never moves.
    let mut w = World::new();
    let input = keys_right();
    for t in 1..=40u32 {
        update_player_movement(&mut w, &input);
        let p = w.player.unwrap();
        let expected = if t <= 32 { 8 * SCALE * t as i64 } else { 260 * SCALE };
        assert_eq!(p.pos.x, expected, "tick {}", t);
        assert_eq!(p.pos.y, 0, "tick {}", t);
    }
}

#[test]
fn movement_diagonal_combines_unnormalized() {
    let mut w = World::new();
    let input = InputState { arrow_up: true, arrow_right: true, ..Default::default() };
    update_player_movement(&mut w, &input);
    let p = w.player.unwrap();
    assert_eq!(p.pos, Vec2I { x: SPEED_PLAYER, y: SPEED_PLAYER });
}

#[test]
fn movement_opposing_keys_cancel() {
    let mut w = World::new();
    let input = InputState { arrow_left: true, arrow_right: true, key_w: true, key_s: true, ..Default::default() };
    update_player_movement(&mut w, &input);
    let p = w.player.unwrap();
    assert_eq!(p.pos, Vec2I { x: 0, y: 0 });
}

#[test]
fn movement_letter_aliases_work() {
    let mut w = World::new();
    let input = InputState { key_a: true, key_s: true, ..Default::default() };
    update_player_movement(&mut w, &input);
    let p = w.player.unwrap();
    assert_eq!(p.pos, Vec2I { x: -SPEED_PLAYER, y: -SPEED_PLAYER });
}

#[test]
fn movement_clamps_low_corner() {
    let mut w = World::new();
    let input = InputState { arrow_left: true, arrow_down: true, ..Default::default() };
    for _ in 0..100 {
        update_player_movement(&mut w, &input);
    }
    let p = w.player.unwrap();
    assert_eq!(p.pos, Vec2I { x: -HALF_BOUNDS_X, y: -HALF_BOUNDS_Y });
}

#[test]
fn movement_noop_without_player() {
    let mut w = World { player: None, bullets: Vec::new() };
    update_player_movement(&mut w, &keys_right());
    assert!(w.player.is_none());
    assert_eq!(w.bullets.len(), 0);
}

#[test]
fn rotation_faces_pointer() {
    let mut w = World::new();
    w.player = Some(Player {
        pos: Vec2I { x: 1000, y: 2000 },
        facing: Vec2I { x: 0, y: SCALE },
        cooldown_ms: 0,
    });
    let cursor = CursorPosition(Some(Vec2I { x: 4000, y: 6000 }));
    update_player_rotation(&mut w, &cursor);
    let p = w.player.unwrap();
    assert_eq!(p.facing, Vec2I { x: 3000, y: 4000 });
    assert_eq!(p.pos, Vec2I { x: 1000, y: 2000 });
}

#[test]
fn rotation_self_target_keeps_orientation() {
    // Pointer exactly on the player: the tick leaves the facing unchanged.
    let mut w = World::new();
    w.player = Some(Player {
        pos: Vec2I { x: 5000, y: -7000 },
        facing: Vec2I { x: 2000, y: 9000 },
        cooldown_ms: 0,
    });
    let cursor = CursorPosition(Some(Vec2I { x: 5000, y: -7000 }));
    update_player_rotation(&mut w, &cursor);
    let p = w.player.unwrap();
    assert_eq!(p.facing, Vec2I { x: 2000, y: 9000 });
}

#[test]
fn rotation_without_pointer_keeps_orientation() {
    let mut w = World::new();
    w.player = Some(Player {
        pos: Vec2I { x: 5000, y: -7000 },
        facing: Vec2I { x: 2000, y: 9000 },
        cooldown_ms: 0,
    });
    update_player_rotation(&mut w, &no_cursor());
    let p = w.player.unwrap();
    assert_eq!(p.facing, Vec2I { x: 2000, y: 9000 });
}

#[test]
fn fire_cadence_every_second_tick() {
    // Interval 100 ms, fixed tick delta 50 ms, fire held: a bullet spawns
    // on every even tick and never on an odd one.
    let mut w = World::new();
    let input = InputState { fire: true, ..Default::default() };
    let cursor = no_cursor();
    for t in 1..=10u64 {
        let before = w.bullets.len();
        tick(&mut w, &input, &cursor, 50);
        let spawned = w.bullets.len() - before;
        assert_eq!(spawned as u64, if t % 2 == 0 { 1 } else { 0 }, "tick {}", t);
        assert_eq!(w.bullets.len() as u64, t / 2, "tick {}", t);
    }
}

#[test]
fn fire_requires_button_held() {
    let mut w = World::new();
    let input = InputState::default();
    for _ in 0..10 {
        tick(&mut w, &input, &no_cursor(), 50);
    }
    assert_eq!(w.bullets.len(), 0);
    assert_eq!(w.player.unwrap().cooldown_ms, 500);
}

#[test]
fn fire_resets_cooldown_exactly_to_zero() {
    let mut w = World::new();
    update_player_fire(&mut w, 70, true);
    assert_eq!(w.player.unwrap().cooldown_ms, 70);
    assert_eq!(w.bullets.len(), 0);
    update_player_fire(&mut w, 70, true);
    assert_eq!(w.player.unwrap().cooldown_ms, 0);
    assert_eq!(w.bullets.len(), 1);
}

#[test]
fn fire_reset_discards_partial_interval() {
    // With a 30 ms tick the accumulator reads 120 ms on every fourth tick
    // and resets to zero, so the 20 ms beyond the interval are discarded.
    let mut w = World::new();
    for _ in 0..8 {
        update_player_fire(&mut w, 30, true);
    }
    assert_eq!(w.bullets.len(), 2);
    assert_eq!(w.player.unwrap().cooldown_ms, 0);
}

#[test]
fn fire_spawns_at_standoff_offset() {
    let mut w = World::new();
    update_player_fire(&mut w, BULLET_SPAWN_INTERVAL_MS, true);
    assert_eq!(w.bullets.len(), 1);
    let b = &w.bullets[0];
    assert_eq!(b.pos, Vec2I { x: 0, y: 40 * SCALE });
    assert_eq!(b.origin, Vec2I { x: 0, y: 40 * SCALE });
    assert_eq!(b.dir, Vec2I { x: 0, y: SCALE });
}

#[test]
fn fire_standoff_follows_facing() {
    // A 3-4-5 facing rescales exactly: 40 units along (3, 4) / 5.
    let mut w = World::new();
    w.player = Some(Player {
        pos: Vec2I { x: 1000, y: 2000 },
        facing: Vec2I { x: 3000, y: 4000 },
        cooldown_ms: 0,
    });
    update_player_fire(&mut w, 100, true);
    let b = &w.bullets[0];
    assert_eq!(b.pos, Vec2I { x: 1000 + 24000, y: 2000 + 32000 });
    assert_eq!(b.dir, Vec2I { x: 3000, y: 4000 });
}

#[test]
fn fire_noop_without_player() {
    let mut w = World { player: None, bullets: Vec::new() };
    update_player_fire(&mut w, 1000, true);
    assert!(w.player.is_none());
    assert_eq!(w.bullets.len(), 0);
}

#[test]
fn cooldown_saturates_instead_of_wrapping() {
    let mut w = World::new();
    update_player_fire(&mut w, u64::MAX, false);
    assert_eq!(w.player.unwrap().cooldown_ms, u64::MAX);
    update_player_fire(&mut w, u64::MAX, false);
    assert_eq!(w.player.unwrap().cooldown_ms, u64::MAX);
}

#[test]
fn bullet_moves_straight_at_speed() {
    let mut w = World { player: None, bullets: Vec::new() };
    w.bullets.push(Bullet {
        pos: Vec2I { x: 0, y: 0 },
        dir: Vec2I { x: 0, y: SCALE },
        origin: Vec2I { x: 0, y: 0 },
    });
    update_bullet(&mut w);
    assert_eq!(w.bullets[0].pos, Vec2I { x: 0, y: 10 * SCALE });
    update_bullet(&mut w);
    assert_eq!(w.bullets[0].pos, Vec2I { x: 0, y: 20 * SCALE });
}

#[test]
fn bullet_345_direction_step_is_exact() {
    let mut w = World { player: None, bullets: Vec::new() };
    w.bullets.push(Bullet {
        pos: Vec2I { x: 100, y: 200 },
        dir: Vec2I { x: -3000, y: 4000 },
        origin: Vec2I { x: 100, y: 200 },
    });
    update_bullet(&mut w);
    assert_eq!(w.bullets[0].pos, Vec2I { x: 100 - 6000, y: 200 + 8000 });
}

#[test]
fn bullet_direction_never_rewritten() {
    // Player rotation after the shot does not bend the bullet.
    let mut w = World::new();
    update_player_fire(&mut w, 100, true);
    let dir0 = w.bullets[0].dir;
    let cursor = CursorPosition(Some(Vec2I { x: -90000, y: -120000 }));
    for _ in 0..5 {
        update_player_rotation(&mut w, &cursor);
        despawn_old_bullets(&mut w);
        update_bullet(&mut w);
    }
    assert_eq!(w.bullets[0].dir, dir0);
    assert_eq!(w.bullets[0].origin, Vec2I { x: 0, y: 40 * SCALE });
    assert_ne!(w.player.unwrap().facing, dir0);
}

#[test]
fn bullet_despawns_only_past_range() {
    // Straight-line flight at 10 units per tick against the 150-unit range:
    // the despawn pass keeps the bullet through 149 units of flight and
    // removes it at 150, since ceil(150) >= 150.
    let mut w = World { player: None, bullets: Vec::new() };
    w.bullets.push(Bullet {
        pos: Vec2I { x: 0, y: 0 },
        dir: Vec2I { x: 0, y: -SCALE },
        origin: Vec2I { x: 0, y: 0 },
    });
    for pass in 1..=15u32 {
        despawn_old_bullets(&mut w);
        assert_eq!(w.bullets.len(), 1, "pass {}", pass);
        update_bullet(&mut w);
    }
    assert_eq!(w.bullets[0].pos, Vec2I { x: 0, y: -150 * SCALE });
    despawn_old_bullets(&mut w);
    assert_eq!(w.bullets.len(), 0);
}

#[test]
fn bullet_gone_within_fifteen_ticks_of_spawn() {
    // A bullet spawned during tick 1 advances that same tick; by the end of
    // tick 16 (15 ticks after its spawn tick) it has been despawned.
    let mut w = World::new();
    let fire_once = InputState { fire: true, ..Default::default() };
    let idle = InputState::default();
    tick(&mut w, &fire_once, &no_cursor(), 100);
    assert_eq!(w.bullets.len(), 1);
    for t in 2..=15u32 {
        tick(&mut w, &idle, &no_cursor(), 100);
        assert_eq!(w.bullets.len(), 1, "tick {}", t);
    }
    tick(&mut w, &idle, &no_cursor(), 100);
    assert_eq!(w.bullets.len(), 0);
}

#[test]
fn despawn_keeps_live_bullets_in_order() {
    let mut w = World { player: None, bullets: Vec::new() };
    let live_a = Bullet {
        pos: Vec2I { x: 10000, y: 0 },
        dir: Vec2I { x: SCALE, y: 0 },
        origin: Vec2I { x: 0, y: 0 },
    };
    let expired = Bullet {
        pos: Vec2I { x: 0, y: 150000 },
        dir: Vec2I { x: 0, y: SCALE },
        origin: Vec2I { x: 0, y: 0 },
    };
    let live_b = Bullet {
        pos: Vec2I { x: 0, y: -149000 },
        dir: Vec2I { x: 0, y: -SCALE },
        origin: Vec2I { x: 0, y: 0 },
    };
    w.bullets.push(live_a);
    w.bullets.push(expired);
    w.bullets.push(live_b);
    despawn_old_bullets(&mut w);
    assert_eq!(w.bullets.len(), 2);
    assert_eq!(w.bullets[0], live_a);
    assert_eq!(w.bullets[1], live_b);
}

#[test]
fn tick_runs_passes_in_order() {
    // One tick: move right, turn to the pointer, fire; the bullet spawns
    // from the moved position along the new facing and advances once.
    let mut w = World::new();
    let input = InputState { arrow_right: true, fire: true, ..Default::default() };
    let cursor = CursorPosition(Some(Vec2I { x: SPEED_PLAYER, y: 50000 }));
    tick(&mut w, &input, &cursor, 100);
    let p = w.player.unwrap();
    assert_eq!(p.pos, Vec2I { x: SPEED_PLAYER, y: 0 });
    assert_eq!(p.facing, Vec2I { x: 0, y: 50000 });
    assert_eq!(p.cooldown_ms, 0);
    assert_eq!(w.bullets.len(), 1);
    // standoff 40 units up, then one 10-unit step of the same tick
    assert_eq!(w.bullets[0].origin, Vec2I { x: SPEED_PLAYER, y: 40 * SCALE });
    assert_eq!(w.bullets[0].pos, Vec2I { x: SPEED_PLAYER, y: 50 * SCALE });
}

#[test]
fn isqrt_exact_values() {
    assert_eq!(isqrt(0), 0);
    assert_eq!(isqrt(1), 1);
    assert_eq!(isqrt(2), 1);
    assert_eq!(isqrt(3), 1);
    assert_eq!(isqrt(4), 2);
    assert_eq!(isqrt(24), 4);
    assert_eq!(isqrt(25), 5);
    assert_eq!(isqrt(16_000_000), 4000);
    assert_eq!(isqrt(u64::MAX), 4_294_967_295);
}

#[test]
fn scaled_dir_rounds_toward_zero() {
    // (1, 1) has length floor(sqrt(2)) = 1 on the grid, so rescaling to 10
    // gives (10, 10); a 3-4-5 triple rescales exactly.
    let r = scaled_dir(&Vec2I { x: 1, y: 1 }, 10);
    assert_eq!(r, Vec2I { x: 10, y: 10 });
    let r = scaled_dir(&Vec2I { x: -30, y: 40 }, 100);
    assert_eq!(r, Vec2I { x: -60, y: 80 });
}

#[test]
fn clamp64_picks_nearest_bound() {
    assert_eq!(clamp64(5, -10, 10), 5);
    assert_eq!(clamp64(-11, -10, 10), -10);
    assert_eq!(clamp64(11, -10, 10), 10);
}
