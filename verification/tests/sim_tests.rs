use tunnel_tanks::input::{INPUT_FIRE, INPUT_RIGHT, INPUT_UP, UNIT};
use tunnel_tanks::state::{
    Bullet, GameState, Player, RoundState, HALF_TILE, MOVE_SPEED_AXIS, MOVE_SPEED_DIAG,
    ROUND_END_TICKS, START_OFFSET,
};

/// A small field with both players placed explicitly, used by the scenario
/// tests.
fn two_player_field(p0: (i64, i64), p1: (i64, i64)) -> GameState {
    let width = 16usize;
    let height = 16usize;
    GameState {
        width,
        height,
        players: vec![
            Player {
                id: 0,
                pos_x: p0.0,
                pos_y: p0.1,
                face_x: 0,
                face_y: UNIT,
                alive: true,
                bullet_ready: true,
            },
            Player {
                id: 1,
                pos_x: p1.0,
                pos_y: p1.1,
                face_x: 0,
                face_y: -UNIT,
                alive: true,
                bullet_ready: true,
            },
        ],
        bullets: Vec::new(),
        terrain: vec![true; width * height],
        scores: vec![0, 0],
        round: RoundState::InRound,
        rng_state: 7,
    }
}

#[test]
fn match_start_layout() {
    let s = GameState::new(1000, 500, 2, 42);
    assert_eq!(s.players.len(), 2);
    assert_eq!(s.players[0].id, 0);
    assert_eq!(s.players[1].id, 1);
    // Fixed spawn points, twenty tiles either side of the centre.
    assert_eq!(s.players[0].pos_x, START_OFFSET);
    assert_eq!(s.players[1].pos_x, -START_OFFSET);
    assert_eq!(s.players[0].pos_y, 0);
    assert_eq!(s.players[1].pos_y, 0);
    assert!(s.players.iter().all(|p| p.alive && p.bullet_ready));
    assert_eq!(s.scores, vec![0, 0]);
    assert_eq!(s.terrain.len(), 1000 * 500);
    assert!(s.terrain.iter().all(|&t| t));
    assert_eq!(s.round, RoundState::InRound);
    assert_eq!(s.rng_state, 42);
}

#[test]
fn movement_speed_and_facing() {
    let mut s = two_player_field((0, 0), (1000, 1000));
    s.step(&vec![INPUT_RIGHT, 0]);
    assert_eq!(s.players[0].pos_x, MOVE_SPEED_AXIS);
    assert_eq!(s.players[0].pos_y, 0);
    assert_eq!((s.players[0].face_x, s.players[0].face_y), (UNIT, 0));
    // The stationary player keeps position and facing.
    assert_eq!((s.players[1].pos_x, s.players[1].pos_y), (1000, 1000));
    assert_eq!((s.players[1].face_x, s.players[1].face_y), (0, -UNIT));
    // A diagonal tick moves by the diagonal per-component speed.
    s.step(&vec![INPUT_RIGHT | INPUT_UP, 0]);
    assert_eq!(s.players[0].pos_x, MOVE_SPEED_AXIS + MOVE_SPEED_DIAG);
    assert_eq!(s.players[0].pos_y, MOVE_SPEED_DIAG);
}

#[test]
fn movement_clamps_at_field_edge() {
    let mut s = two_player_field((0, 0), (1000, 1000));
    let limit = (16 - 1) * HALF_TILE;
    // Walk right far longer than the field is wide: the position clamps and
    // never wraps.
    for _ in 0..200 {
        s.step(&vec![INPUT_RIGHT, 0]);
    }
    assert_eq!(s.players[0].pos_x, limit);
    assert_eq!(s.players[0].pos_y, 0);
}

#[test]
fn erosion_clears_chebyshev_square_only() {
    // One player parked at the field centre of a 16x16 grid: its tile is
    // (8, 8) (the centre coordinate is in the upper-right of the four
    // central tiles).
    let mut s = two_player_field((0, 0), (1000, 1000));
    s.players[1].alive = false; // keep the second player out of the picture
    s.step(&vec![0, 0]);
    let w = 16usize;
    let (ptx, pty) = (8isize, 8isize);
    for ty in 0..16isize {
        for tx in 0..16isize {
            let idx = (ty as usize) * w + (tx as usize);
            let near = (tx - ptx).abs() <= 2 && (ty - pty).abs() <= 2;
            assert_eq!(
                s.terrain[idx], !near,
                "tile ({}, {}) should be {}",
                tx, ty,
                if near { "eroded" } else { "intact" }
            );
        }
    }
}

#[test]
fn erosion_clamps_to_grid_bounds() {
    // A player in the far corner erodes only the part of its square that
    // exists; the rest of the grid keeps its flags and nothing panics.
    let mut s = two_player_field((-(15 * HALF_TILE), -(15 * HALF_TILE)), (1000, 1000));
    s.players[1].alive = false;
    s.step(&vec![0, 0]);
    let w = 16usize;
    let mut cleared: usize = 0;
    for ty in 0..16isize {
        for tx in 0..16isize {
            let idx = (ty as usize) * w + (tx as usize);
            let near = tx <= 2 && ty <= 2;
            assert_eq!(s.terrain[idx], !near);
            if near {
                cleared += 1;
            }
        }
    }
    assert_eq!(cleared, 9); // a 3x3 corner of the 5x5 square fits the grid
}

#[test]
fn bullet_reload_law_over_held_fire() {
    let mut s = two_player_field((0, 0), (1000, 1000));
    // Fired: the ready flag drops the same tick.
    s.step(&vec![INPUT_FIRE, 0]);
    assert!(!s.players[0].bullet_ready);
    assert_eq!(s.bullets.len(), 1);
    // Held: it never returns while fire stays held.
    for _ in 0..20 {
        s.step(&vec![INPUT_FIRE, 0]);
        assert!(!s.players[0].bullet_ready);
    }
    assert_eq!(s.bullets.len(), 1, "no bullet spawns while unloaded");
    // Released: the flag returns on the tick fire is released.
    s.step(&vec![0, 0]);
    assert!(s.players[0].bullet_ready);
    // And a fresh press fires again.
    s.step(&vec![INPUT_FIRE, 0]);
    assert!(!s.players[0].bullet_ready);
    assert_eq!(s.bullets.len(), 2);
}

#[test]
fn scenario_shot_despawns_and_scores() {
    // Player 0 fires at tick 10 from (0, 0) facing up; player 1 sits two
    // tiles above at (0, 512). The bullet flies 100 subunits a tick and the
    // radii sum to 134, so it overlaps at tick 13 (distance 112).
    let mut s = two_player_field((0, 0), (0, 2 * 256));
    for t in 0..10 {
        s.step(&vec![0, 0]);
        assert!(s.players[1].alive, "too early at tick {}", t);
    }
    s.step(&vec![INPUT_FIRE, 0]); // tick 10: bullet at (0, 100)
    assert_eq!(s.bullets.len(), 1);
    assert_eq!(s.bullets[0].owner_id, 0);
    s.step(&vec![0, 0]); // tick 11: (0, 200)
    s.step(&vec![0, 0]); // tick 12: (0, 300)
    assert!(s.players[1].alive);
    assert_eq!(s.round, RoundState::InRound);
    s.step(&vec![0, 0]); // tick 13: (0, 400) — within 134 of (0, 512)
    assert!(!s.players[1].alive, "player 1 must despawn on the overlap tick");
    assert_eq!(s.scores, vec![1, 0], "exactly one point to the shooter");
    assert_eq!(s.round, RoundState::RoundEnd { timer: ROUND_END_TICKS });
    // The next tick must not score or transition again.
    s.step(&vec![0, 0]);
    assert_eq!(s.scores, vec![1, 0]);
    assert_eq!(s.round, RoundState::RoundEnd { timer: ROUND_END_TICKS - 1 });
}

#[test]
fn own_bullet_never_hits_its_shooter() {
    let mut s = two_player_field((0, 0), (1000, 1000));
    // The bullet spawns on the shooter and passes well within the radii,
    // but the owner check keeps the shooter alive.
    s.step(&vec![INPUT_FIRE, 0]);
    assert!(s.players[0].alive);
    assert_eq!(s.round, RoundState::InRound);
}

#[test]
fn round_end_timer_respawns_after_two_seconds() {
    let mut a = two_player_field((0, 0), (0, 512));
    a.players[1].alive = false;
    a.round = RoundState::RoundEnd { timer: ROUND_END_TICKS };
    a.rng_state = 12345;
    assert!(a.state_eq(&a)); // sanity: state_eq is reflexive
    // After exactly ROUND_END_TICKS ticks the round resets.
    for t in 0..ROUND_END_TICKS {
        assert!(
            matches!(a.round, RoundState::RoundEnd { .. }),
            "still counting down at tick {}",
            t
        );
        a.step(&vec![0, 0]);
    }
    assert_eq!(a.round, RoundState::InRound);
    assert!(a.players[0].alive && a.players[1].alive);
    assert!(a.players.iter().all(|p| p.bullet_ready));
    assert!(a.bullets.is_empty());
    // The terrain came back intact; the respawn tick itself then eroded the
    // squares under the freshly spawned players, and nothing else.
    let tile = |pos: i64| ((pos + 16 * HALF_TILE) / 256) as isize;
    for ty in 0..16isize {
        for tx in 0..16isize {
            let near = a.players.iter().any(|p| {
                (tx - tile(p.pos_x)).abs() <= 2 && (ty - tile(p.pos_y)).abs() <= 2
            });
            assert_eq!(a.terrain[(ty as usize) * 16 + (tx as usize)], !near);
        }
    }
    assert!(a.players[0].id == 0 && a.players[1].id == 1);
}

#[test]
fn respawn_is_seed_deterministic() {
    let mk = |seed: u64| {
        let mut s = two_player_field((0, 0), (0, 512));
        s.players[1].alive = false;
        s.round = RoundState::RoundEnd { timer: 1 };
        s.rng_state = seed;
        s.step(&vec![0, 0]); // the timer runs out: respawn
        s
    };
    let a = mk(0xDEADBEEF);
    let b = mk(0xDEADBEEF);
    // Identical seeds give identical spawn coordinates for both players.
    assert!(a.state_eq(&b));
    assert_eq!(
        (a.players[0].pos_x, a.players[0].pos_y),
        (b.players[0].pos_x, b.players[0].pos_y)
    );
    assert_eq!(
        (a.players[1].pos_x, a.players[1].pos_y),
        (b.players[1].pos_x, b.players[1].pos_y)
    );
    // A different seed places players elsewhere, and the two players of one
    // run draw independent coordinates: the generator really advances.
    let c = mk(0xCAFE);
    assert!(
        (c.players[0].pos_x, c.players[0].pos_y) != (a.players[0].pos_x, a.players[0].pos_y)
            || (c.players[1].pos_x, c.players[1].pos_y)
                != (a.players[1].pos_x, a.players[1].pos_y)
    );
    assert!(
        (a.players[0].pos_x, a.players[0].pos_y) != (a.players[1].pos_x, a.players[1].pos_y)
    );
    assert_ne!(a.rng_state, 0xDEADBEEF, "the generator state advanced");
}

#[test]
fn bullets_despawn_past_the_margin() {
    let mut s = two_player_field((0, 0), (1000, 1000));
    s.step(&vec![INPUT_FIRE, 0]);
    assert_eq!(s.bullets.len(), 1);
    // The field's half-height is 1920 and the margin 512; at 100 subunits a
    // tick the bullet leaves within 25 ticks.
    for _ in 0..30 {
        s.step(&vec![0, 0]);
    }
    assert!(s.bullets.is_empty());
}

#[test]
fn checksum_separates_and_matches_states() {
    let a = two_player_field((0, 0), (0, 512));
    let b = two_player_field((0, 0), (0, 512));
    let c = two_player_field((0, 0), (0, 513));
    assert_eq!(a.checksum(), b.checksum());
    assert_ne!(a.checksum(), c.checksum(), "a moved entity must change the fingerprint");
    let d = Bullet { owner_id: 0, pos_x: 0, pos_y: 0, face_x: 0, face_y: UNIT };
    let mut e = two_player_field((0, 0), (0, 512));
    e.bullets.push(d);
    assert_ne!(a.checksum(), e.checksum(), "a bullet must change the fingerprint");
}

#[test]
fn one_tile_field_is_stable() {
    // The smallest grid: the single player is clamped onto the only tile,
    // movement goes nowhere, and erosion clears that tile.
    let mut s = GameState::new(1, 1, 1, 5);
    assert_eq!((s.players[0].pos_x, s.players[0].pos_y), (0, 0));
    s.step(&vec![INPUT_RIGHT | INPUT_FIRE]);
    assert_eq!((s.players[0].pos_x, s.players[0].pos_y), (0, 0));
    assert!(s.players[0].alive);
    assert!(!s.terrain[0]);
    assert_eq!(s.bullets.len(), 1);
}

#[test]
fn largest_grid_constructs() {
    let s = GameState::new(4096, 4096, 16, 1);
    assert_eq!(s.terrain.len(), 4096 * 4096);
    assert_eq!(s.players.len(), 16);
    assert_eq!(s.scores.len(), 16);
    // The outermost spawn point still fits the field without clamping.
    assert_eq!(s.players[15].pos_x, START_OFFSET + 15 * 10240);
    let limit = (4096 - 1) * HALF_TILE;
    assert!(s.players.iter().all(|p| p.pos_x.abs() <= limit && p.pos_y == 0));
}

#[test]
fn checksum_formula_exact() {
    // The fingerprint is documented as a fold: start from the offset and,
    // for every entity in order, mix in the biased coordinates, facing and
    // liveness with h = (h ^ v) * prime (wrapping). Recompute it here
    // independently and hold the library to it.
    let mut s = two_player_field((0, 0), (0, 512));
    s.bullets.push(Bullet { owner_id: 1, pos_x: 7, pos_y: -9, face_x: 0, face_y: -UNIT });
    let mix = |h: u64, v: u64| (h ^ v).wrapping_mul(0x0000_0100_0000_01B3);
    let coord = |v: i64| (v + 0x1_0000_0000) as u64;
    let mut h: u64 = 0xCBF2_9CE4_8422_2325;
    for p in &s.players {
        h = mix(h, coord(p.pos_x));
        h = mix(h, coord(p.pos_y));
        h = mix(h, coord(p.face_x));
        h = mix(h, coord(p.face_y));
        h = mix(h, if p.alive { 1 } else { 0 });
    }
    for b in &s.bullets {
        h = mix(h, b.owner_id as u64);
        h = mix(h, coord(b.pos_x));
        h = mix(h, coord(b.pos_y));
        h = mix(h, coord(b.face_x));
        h = mix(h, coord(b.face_y));
    }
    assert_eq!(s.checksum(), h);
}

#[test]
fn duplicate_is_deep_and_equal() {
    let mut a = two_player_field((0, 0), (0, 512));
    let b = a.duplicate();
    assert!(a.state_eq(&b));
    a.step(&vec![INPUT_RIGHT, 0]);
    assert!(!a.state_eq(&b), "stepping the original must not touch the copy");
}
