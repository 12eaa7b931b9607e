//! The per-tick simulation pipeline.
//!
//! Each tick executes a fixed, total order of phases, never reordered and
//! never run partially: round timer / respawn, move players, reload, fire,
//! advance bullets, resolve collisions, erode terrain. `step_spec` is the
//! mathematical step function; `GameState::step` is the executable one and
//! is proved to compute exactly `step_spec`, which is what makes forward
//! simulation and rollback resimulation bit-identical.

use vstd::prelude::*;
use crate::input;
use crate::rng::{wyrand_next, spread, draw_coord};
use crate::state::{
    Player, Bullet, RoundState, GameState, StateModel, state_wf, player_ok, bullet_ok,
    facing_unit, field_limit, spec_clamp, clamp_i64, TILE, HALF_TILE, MOVE_SPEED_AXIS,
    MOVE_SPEED_DIAG, BULLET_SPEED_AXIS, BULLET_SPEED_DIAG, PLAYER_RADIUS, BULLET_RADIUS,
    ROUND_END_TICKS, BULLET_MARGIN, MAX_MAP_DIM, MAX_PLAYERS, ERODE_RADIUS,
};
use crate::input::{UNIT, UNIT_DIAG};

verus! {

/// The input mask for player `p` in a tick's input row; a missing entry
/// reads as the all-zero mask.
pub open spec fn input_at(inputs: Seq<u8>, p: int) -> u8 {
    if 0 <= p < inputs.len() {
        inputs[p]
    } else {
        0
    }
}

/// Per-component player speed for a fixed-point unit facing component.
pub open spec fn move_component(u: int) -> int {
    if u == UNIT {
        MOVE_SPEED_AXIS as int
    } else if u == -UNIT {
        -(MOVE_SPEED_AXIS as int)
    } else if u == UNIT_DIAG {
        MOVE_SPEED_DIAG as int
    } else if u == -UNIT_DIAG {
        -(MOVE_SPEED_DIAG as int)
    } else {
        0
    }
}

/// Per-component bullet speed for a fixed-point unit facing component.
pub open spec fn bullet_component(u: int) -> int {
    if u == UNIT {
        BULLET_SPEED_AXIS as int
    } else if u == -UNIT {
        -(BULLET_SPEED_AXIS as int)
    } else if u == UNIT_DIAG {
        BULLET_SPEED_DIAG as int
    } else if u == -UNIT_DIAG {
        -(BULLET_SPEED_DIAG as int)
    } else {
        0
    }
}

// ---------------------------------------------------------------------------
// Phase 1: round timer and respawn.
// ---------------------------------------------------------------------------

/// The player respawned into slot `i` from generator state `st`: two draws
/// give the spawn coordinates; facing returns to the slot's match-start
/// facing, and the player comes back alive and loaded.
pub open spec fn respawn_player(i: int, st: u64, limx: int, limy: int) -> (Player, u64) {
    let (s1, rx) = wyrand_next(st);
    let (s2, ry) = wyrand_next(s1);
    (
        Player {
            id: i as usize,
            pos_x: spread(rx, limx) as i64,
            pos_y: spread(ry, limy) as i64,
            face_x: if i % 2 == 0 {
                UNIT
            } else {
                (-UNIT) as i64
            },
            face_y: 0,
            alive: true,
            bullet_ready: true,
        },
        s2,
    )
}

/// The first `n` respawned players, drawn in slot order from `st`, together
/// with the generator state left after the draws.
pub open spec fn respawn_seq(n: int, st: u64, limx: int, limy: int) -> (Seq<Player>, u64)
    decreases n,
{
    if n <= 0 {
        (Seq::empty(), st)
    } else {
        let (prefix, stp) = respawn_seq(n - 1, st, limx, limy);
        let (p, stn) = respawn_player(n - 1, stp, limx, limy);
        (prefix.push(p), stn)
    }
}

/// The world reset that re-enters a round: every bullet despawned, every
/// player respawned at seed-determined coordinates, terrain restored intact.
/// Scores persist; only per-round entity state resets.
pub open spec fn respawn_spec(m: StateModel) -> StateModel {
    let (players, st) = respawn_seq(
        m.players.len() as int,
        m.rng_state,
        field_limit(m.width as int),
        field_limit(m.height as int),
    );
    StateModel {
        players: players,
        bullets: Seq::empty(),
        terrain: Seq::new((m.width * m.height) as nat, |i: int| true),
        round: RoundState::InRound,
        rng_state: st,
        ..m
    }
}

/// The round state machine's tick: in round, nothing; at the end of the
/// round-end countdown, the respawn reset; otherwise the countdown drops by
/// one.
pub open spec fn round_tick_spec(m: StateModel) -> StateModel {
    match m.round {
        RoundState::InRound => m,
        RoundState::RoundEnd { timer } => {
            if timer <= 1 {
                respawn_spec(m)
            } else {
                StateModel { round: RoundState::RoundEnd { timer: (timer - 1) as u32 }, ..m }
            }
        },
    }
}

// ---------------------------------------------------------------------------
// Phase 2: movement.
// ---------------------------------------------------------------------------

/// One player moved by its input: position advances by the per-component
/// speed and clamps to the playfield; the facing turns to the movement
/// direction. A player with no net direction, and a destroyed player, stay
/// put.
pub open spec fn move_player(p: Player, inp: u8, limx: int, limy: int) -> Player {
    let (dx, dy) = input::dir_spec(inp);
    if !p.alive || (dx == 0 && dy == 0) {
        p
    } else {
        Player {
            pos_x: spec_clamp(p.pos_x + move_component(dx), -limx, limx) as i64,
            pos_y: spec_clamp(p.pos_y + move_component(dy), -limy, limy) as i64,
            face_x: dx as i64,
            face_y: dy as i64,
            ..p
        }
    }
}

/// The movement phase applied to every player.
pub open spec fn move_spec(m: StateModel, inputs: Seq<u8>) -> StateModel {
    StateModel {
        players: Seq::new(
            m.players.len(),
            |i: int| move_player(
                m.players[i],
                input_at(inputs, i),
                field_limit(m.width as int),
                field_limit(m.height as int),
            ),
        ),
        ..m
    }
}

// ---------------------------------------------------------------------------
// Phase 3: reload.
// ---------------------------------------------------------------------------

/// One player's reload: the ready flag returns exactly when the fire flag is
/// released.
pub open spec fn reload_player(p: Player, inp: u8) -> Player {
    if input::fire_set(inp) {
        p
    } else {
        Player { bullet_ready: true, ..p }
    }
}

/// The reload phase applied to every player.
pub open spec fn reload_spec(m: StateModel, inputs: Seq<u8>) -> StateModel {
    StateModel {
        players: Seq::new(
            m.players.len(),
            |i: int| reload_player(m.players[i], input_at(inputs, i)),
        ),
        ..m
    }
}

// ---------------------------------------------------------------------------
// Phase 4: fire.
// ---------------------------------------------------------------------------

/// Whether a player fires this tick: alive, loaded, and holding fire.
pub open spec fn fires(p: Player, inp: u8) -> bool {
    p.alive && p.bullet_ready && input::fire_set(inp)
}

/// The firing player's update: the ready flag drops on the tick the bullet
/// leaves.
pub open spec fn fire_player(p: Player, inp: u8) -> Player {
    if fires(p, inp) {
        Player { bullet_ready: false, ..p }
    } else {
        p
    }
}

/// The bullet a player fires: spawned at the player, flying along the
/// player's facing.
pub open spec fn bullet_from(p: Player) -> Bullet {
    Bullet { owner_id: p.id, pos_x: p.pos_x, pos_y: p.pos_y, face_x: p.face_x, face_y: p.face_y }
}

/// The bullets fired by the first `n` players, in slot order.
pub open spec fn fired_bullets(players: Seq<Player>, inputs: Seq<u8>, n: int) -> Seq<Bullet>
    decreases n,
{
    if n <= 0 {
        Seq::empty()
    } else {
        let rest = fired_bullets(players, inputs, n - 1);
        if fires(players[n - 1], input_at(inputs, n - 1)) {
            rest.push(bullet_from(players[n - 1]))
        } else {
            rest
        }
    }
}

/// The fire phase: ready flags drop and the new bullets join the list.
pub open spec fn fire_spec(m: StateModel, inputs: Seq<u8>) -> StateModel {
    StateModel {
        players: Seq::new(
            m.players.len(),
            |i: int| fire_player(m.players[i], input_at(inputs, i)),
        ),
        bullets: m.bullets + fired_bullets(m.players, inputs, m.players.len() as int),
        ..m
    }
}

// ---------------------------------------------------------------------------
// Phase 5: bullet flight.
// ---------------------------------------------------------------------------

/// One bullet advanced one tick along its facing.
pub open spec fn advance_bullet(b: Bullet) -> Bullet {
    Bullet {
        pos_x: (b.pos_x + bullet_component(b.face_x as int)) as i64,
        pos_y: (b.pos_y + bullet_component(b.face_y as int)) as i64,
        ..b
    }
}

/// Whether a bullet is still within the playfield plus the cull margin.
pub open spec fn bullet_in_bounds(b: Bullet, limx: int, limy: int) -> bool {
    &&& -limx - BULLET_MARGIN <= b.pos_x <= limx + BULLET_MARGIN
    &&& -limy - BULLET_MARGIN <= b.pos_y <= limy + BULLET_MARGIN
}

/// The first `n` bullets advanced, keeping those still in bounds in order.
/// A bullet past the margin can never be hit again (players stay inside the
/// field), so culling it leaves the observable simulation unchanged.
pub open spec fn advanced_bullets(bullets: Seq<Bullet>, n: int, limx: int, limy: int) -> Seq<
    Bullet,
>
    decreases n,
{
    if n <= 0 {
        Seq::empty()
    } else {
        let rest = advanced_bullets(bullets, n - 1, limx, limy);
        let b2 = advance_bullet(bullets[n - 1]);
        if bullet_in_bounds(b2, limx, limy) {
            rest.push(b2)
        } else {
            rest
        }
    }
}

/// The bullet flight phase.
pub open spec fn bullets_spec(m: StateModel) -> StateModel {
    StateModel {
        bullets: advanced_bullets(
            m.bullets,
            m.bullets.len() as int,
            field_limit(m.width as int),
            field_limit(m.height as int),
        ),
        ..m
    }
}

// ---------------------------------------------------------------------------
// Phase 6: collision resolution.
// ---------------------------------------------------------------------------

/// The squared hit distance: a hit needs the centres closer than the sum of
/// the two radii.
pub open spec fn hit_dist_sq() -> int {
    (PLAYER_RADIUS + BULLET_RADIUS) * (PLAYER_RADIUS + BULLET_RADIUS)
}

/// Whether a bullet hits a player: the owner differs from the target and the
/// Euclidean distance between centres is below the sum of the radii.
pub open spec fn bullet_hits(b: Bullet, p: Player) -> bool {
    &&& b.owner_id != p.id
    &&& (b.pos_x - p.pos_x) * (b.pos_x - p.pos_x) + (b.pos_y - p.pos_y) * (b.pos_y - p.pos_y)
        < hit_dist_sq()
}

/// The first of the first `n` bullets that hits `p`, by bullet order.
pub open spec fn first_hitter(bullets: Seq<Bullet>, p: Player, n: int) -> Option<int>
    decreases n,
{
    if n <= 0 {
        None
    } else {
        match first_hitter(bullets, p, n - 1) {
            Option::Some(j) => Option::Some(j),
            Option::None => {
                if bullet_hits(bullets[n - 1], p) {
                    Option::Some(n - 1)
                } else {
                    Option::None
                }
            },
        }
    }
}

/// The shooter credited for player `i` this tick: the owner of the first
/// qualifying bullet, if `i` is alive and some bullet hits it.
pub open spec fn hit_of(m: StateModel, i: int) -> Option<int> {
    if m.players[i].alive {
        match first_hitter(m.bullets, m.players[i], m.bullets.len() as int) {
            Option::Some(j) => Option::Some(m.bullets[j].owner_id as int),
            Option::None => Option::None,
        }
    } else {
        Option::None
    }
}

/// Player `i` after collision resolution: a hit despawns it.
pub open spec fn collide_player(m: StateModel, i: int) -> Player {
    if hit_of(m, i) is Some {
        Player { alive: false, ..m.players[i] }
    } else {
        m.players[i]
    }
}

/// One score credit for slot `a` (saturating at the counter's machine
/// limit).
pub open spec fn bump_score(scores: Seq<u64>, a: int) -> Seq<u64> {
    if 0 <= a < scores.len() {
        scores.update(
            a,
            if scores[a] < u64::MAX {
                (scores[a] + 1) as u64
            } else {
                scores[a]
            },
        )
    } else {
        scores
    }
}

/// The score table after crediting the shooters of the first `n` players
/// hit this tick, in target order. Each hit is processed independently.
pub open spec fn collide_scores(m: StateModel, n: int) -> Seq<u64>
    decreases n,
{
    if n <= 0 {
        m.scores
    } else {
        let prev = collide_scores(m, n - 1);
        match hit_of(m, n - 1) {
            Option::Some(a) => bump_score(prev, a),
            Option::None => prev,
        }
    }
}

/// Whether any of the first `n` players is hit this tick.
pub open spec fn any_hit(m: StateModel, n: int) -> bool
    decreases n,
{
    if n <= 0 {
        false
    } else {
        any_hit(m, n - 1) || hit_of(m, n - 1) is Some
    }
}

/// The collision phase: hit players despawn, their shooters score, and a hit
/// while in round starts the round-end countdown — a single transition per
/// tick, however many players fall.
pub open spec fn collide_spec(m: StateModel) -> StateModel {
    StateModel {
        players: Seq::new(m.players.len(), |i: int| collide_player(m, i)),
        scores: collide_scores(m, m.players.len() as int),
        round: if m.round == RoundState::InRound && any_hit(m, m.players.len() as int) {
            RoundState::RoundEnd { timer: ROUND_END_TICKS }
        } else {
            m.round
        },
        ..m
    }
}

// ---------------------------------------------------------------------------
// Phase 7: terrain erosion.
// ---------------------------------------------------------------------------

/// The tile index a coordinate falls in, for a dimension of `dim` tiles.
pub open spec fn tile_of(pos: int, dim: int) -> int {
    (pos + dim * HALF_TILE) / (TILE as int)
}

/// Whether tile `(tx, ty)` lies within the erosion square of a player
/// standing at `(px, py)`: Chebyshev distance at most `ERODE_RADIUS` between
/// the tiles. The square clamps to the grid by construction, since only
/// existing tiles are tested.
pub open spec fn near_player_tile(px: int, py: int, tx: int, ty: int, w: int, h: int) -> bool {
    &&& -ERODE_RADIUS <= tx - tile_of(px, w) <= ERODE_RADIUS
    &&& -ERODE_RADIUS <= ty - tile_of(py, h) <= ERODE_RADIUS
}

/// Whether some live player erodes tile `(tx, ty)` this tick.
pub open spec fn eroded_tile(m: StateModel, tx: int, ty: int) -> bool {
    exists|i: int|
        0 <= i < m.players.len() && (#[trigger] m.players[i]).alive && near_player_tile(
            m.players[i].pos_x as int,
            m.players[i].pos_y as int,
            tx,
            ty,
            m.width as int,
            m.height as int,
        )
}

/// Whether some live player erodes the tile at flat index `idx` this tick.
pub open spec fn eroded_at(m: StateModel, idx: int) -> bool {
    eroded_tile(m, idx % (m.width as int), idx / (m.width as int))
}

/// The erosion phase: every tile within the erosion square of a live player
/// is cleared; every other tile keeps its flag.
pub open spec fn erode_spec(m: StateModel) -> StateModel {
    StateModel {
        terrain: Seq::new(m.terrain.len(), |idx: int| m.terrain[idx] && !eroded_at(m, idx)),
        ..m
    }
}

// ---------------------------------------------------------------------------
// The composed step.
// ---------------------------------------------------------------------------

/// One full simulation tick: the seven phases in their fixed order.
#[verifier::opaque]
pub open spec fn step_spec(m: StateModel, inputs: Seq<u8>) -> StateModel {
    erode_spec(
        collide_spec(
            bullets_spec(
                fire_spec(
                    reload_spec(move_spec(round_tick_spec(m), inputs), inputs),
                    inputs,
                ),
            ),
        ),
    )
}

/// The state reached by stepping through a sequence of per-tick input rows.
pub open spec fn run_steps(m: StateModel, rows: Seq<Seq<u8>>) -> StateModel
    decreases rows.len(),
{
    if rows.len() == 0 {
        m
    } else {
        run_steps(step_spec(m, rows[0]), rows.drop_first())
    }
}

// ---------------------------------------------------------------------------
// Well-formedness preservation.
// ---------------------------------------------------------------------------

/// A mask's direction is the zero vector or one of the eight unit facings.
pub proof fn lemma_dir_unit(inp: u8)
    ensures
        input::dir_spec(inp) == (0int, 0int) || facing_unit(
            input::dir_spec(inp).0,
            input::dir_spec(inp).1,
        ),
{
}

/// The round phase preserves the state invariant.
pub proof fn lemma_round_wf(m: StateModel)
    requires
        state_wf(m),
    ensures
        state_wf(round_tick_spec(m)),
{
    match m.round {
        RoundState::InRound => {},
        RoundState::RoundEnd { timer } => {
            if timer <= 1 {
                lemma_respawn_seq_ok(
                    m.players.len() as int,
                    m.rng_state,
                    field_limit(m.width as int),
                    field_limit(m.height as int),
                );
                assert(state_wf(respawn_spec(m)));
            }
        },
    }
}

/// The respawned prefix has one player per slot, each in bounds with a unit
/// facing.
pub proof fn lemma_respawn_seq_ok(n: int, st: u64, limx: int, limy: int)
    requires
        n <= MAX_PLAYERS,
        0 <= limx <= 0x100000,
        0 <= limy <= 0x100000,
    ensures
        respawn_seq(n, st, limx, limy).0.len() == if n <= 0 {
            0int
        } else {
            n
        },
        forall|i: int|
            0 <= i < n ==> (#[trigger] respawn_seq(n, st, limx, limy).0[i]).id == i,
        forall|i: int|
            0 <= i < n ==> player_ok(#[trigger] respawn_seq(n, st, limx, limy).0[i], limx, limy),
    decreases n,
{
    if n > 0 {
        lemma_respawn_seq_ok(n - 1, st, limx, limy);
        let (prefix, stp) = respawn_seq(n - 1, st, limx, limy);
        let (p, stn) = respawn_player(n - 1, stp, limx, limy);
        assert(respawn_seq(n, st, limx, limy).0 == prefix.push(p));
        assert(p.id == n - 1 && player_ok(p, limx, limy));
        assert forall|i: int| 0 <= i < n implies (#[trigger] respawn_seq(n, st, limx, limy).0[i]).id
            == i && player_ok(respawn_seq(n, st, limx, limy).0[i], limx, limy) by {
            if i < n - 1 {
                assert(prefix.push(p)[i] == prefix[i]);
                assert(respawn_seq(n - 1, st, limx, limy).0[i].id == i);
                assert(player_ok(respawn_seq(n - 1, st, limx, limy).0[i], limx, limy));
            } else {
                assert(prefix.push(p)[i] == p);
            }
        }
    }
}

/// The movement phase preserves the state invariant.
pub proof fn lemma_move_wf(m: StateModel, inputs: Seq<u8>)
    requires
        state_wf(m),
    ensures
        state_wf(move_spec(m, inputs)),
{
    let m2 = move_spec(m, inputs);
    assert forall|i: int| 0 <= i < m2.players.len() implies (#[trigger] m2.players[i]).id == i
        && player_ok(
        m2.players[i],
        field_limit(m2.width as int),
        field_limit(m2.height as int),
    ) by {
        lemma_dir_unit(input_at(inputs, i));
        assert(m.players[i].id == i);
        assert(player_ok(m.players[i], field_limit(m.width as int), field_limit(m.height as int)));
    }
}

/// The reload phase preserves the state invariant.
pub proof fn lemma_reload_wf(m: StateModel, inputs: Seq<u8>)
    requires
        state_wf(m),
    ensures
        state_wf(reload_spec(m, inputs)),
{
    let m2 = reload_spec(m, inputs);
    assert forall|i: int| 0 <= i < m2.players.len() implies (#[trigger] m2.players[i]).id == i
        && player_ok(
        m2.players[i],
        field_limit(m2.width as int),
        field_limit(m2.height as int),
    ) by {
        assert(m.players[i].id == i);
        assert(player_ok(m.players[i], field_limit(m.width as int), field_limit(m.height as int)));
    }
}

/// Every bullet fired this tick starts inside the field, flies in a unit
/// facing, and carries its shooter's slot.
pub proof fn lemma_fired_bullets_ok(
    players: Seq<Player>,
    inputs: Seq<u8>,
    n: int,
    limx: int,
    limy: int,
)
    requires
        n <= players.len(),
        0 <= limx,
        0 <= limy,
        forall|i: int| 0 <= i < players.len() ==> (#[trigger] players[i]).id == i,
        forall|i: int| 0 <= i < players.len() ==> player_ok(#[trigger] players[i], limx, limy),
    ensures
        forall|j: int|
            0 <= j < fired_bullets(players, inputs, n).len() ==> bullet_ok(
                #[trigger] fired_bullets(players, inputs, n)[j],
                limx,
                limy,
                players.len() as int,
            ),
    decreases n,
{
    if n > 0 {
        lemma_fired_bullets_ok(players, inputs, n - 1, limx, limy);
        let rest = fired_bullets(players, inputs, n - 1);
        if fires(players[n - 1], input_at(inputs, n - 1)) {
            assert forall|j: int| 0 <= j < rest.push(bullet_from(players[n - 1])).len() implies
                bullet_ok(
                #[trigger] rest.push(bullet_from(players[n - 1]))[j],
                limx,
                limy,
                players.len() as int,
            ) by {
                if j < rest.len() {
                    assert(rest.push(bullet_from(players[n - 1]))[j] == rest[j]);
                } else {
                    assert(rest.push(bullet_from(players[n - 1]))[j] == bullet_from(
                        players[n - 1],
                    ));
                }
            }
        }
    }
}

/// The fire phase preserves the state invariant.
pub proof fn lemma_fire_wf(m: StateModel, inputs: Seq<u8>)
    requires
        state_wf(m),
    ensures
        state_wf(fire_spec(m, inputs)),
{
    let m2 = fire_spec(m, inputs);
    let limx = field_limit(m.width as int);
    let limy = field_limit(m.height as int);
    assert forall|i: int| 0 <= i < m2.players.len() implies (#[trigger] m2.players[i]).id == i
        && player_ok(m2.players[i], limx, limy) by {
        assert(m.players[i].id == i);
        assert(player_ok(m.players[i], limx, limy));
    }
    lemma_fired_bullets_ok(m.players, inputs, m.players.len() as int, limx, limy);
    let fresh = fired_bullets(m.players, inputs, m.players.len() as int);
    assert forall|j: int| 0 <= j < m2.bullets.len() implies bullet_ok(
        #[trigger] m2.bullets[j],
        limx,
        limy,
        m2.players.len() as int,
    ) by {
        if j < m.bullets.len() {
            assert(m2.bullets[j] == m.bullets[j]);
        } else {
            assert(m2.bullets[j] == fresh[j - m.bullets.len()]);
            assert(bullet_ok(fresh[j - m.bullets.len()], limx, limy, m.players.len() as int));
        }
    }
}

/// Every bullet kept by the flight phase is in bounds, keeps its unit
/// facing and its owner.
pub proof fn lemma_advanced_bullets_ok(
    bullets: Seq<Bullet>,
    n: int,
    limx: int,
    limy: int,
    np: int,
)
    requires
        n <= bullets.len(),
        forall|j: int| 0 <= j < bullets.len() ==> bullet_ok(#[trigger] bullets[j], limx, limy, np),
    ensures
        forall|j: int|
            0 <= j < advanced_bullets(bullets, n, limx, limy).len() ==> bullet_ok(
                #[trigger] advanced_bullets(bullets, n, limx, limy)[j],
                limx,
                limy,
                np,
            ),
    decreases n,
{
    if n > 0 {
        lemma_advanced_bullets_ok(bullets, n - 1, limx, limy, np);
        let rest = advanced_bullets(bullets, n - 1, limx, limy);
        let b2 = advance_bullet(bullets[n - 1]);
        if bullet_in_bounds(b2, limx, limy) {
            assert forall|j: int| 0 <= j < rest.push(b2).len() implies bullet_ok(
                #[trigger] rest.push(b2)[j],
                limx,
                limy,
                np,
            ) by {
                if j < rest.len() {
                    assert(rest.push(b2)[j] == rest[j]);
                } else {
                    assert(rest.push(b2)[j] == b2);
                    assert(bullet_ok(bullets[n - 1], limx, limy, np));
                }
            }
        }
    }
}

/// The bullet flight phase preserves the state invariant.
pub proof fn lemma_bullets_wf(m: StateModel)
    requires
        state_wf(m),
    ensures
        state_wf(bullets_spec(m)),
{
    lemma_advanced_bullets_ok(
        m.bullets,
        m.bullets.len() as int,
        field_limit(m.width as int),
        field_limit(m.height as int),
        m.players.len() as int,
    );
}

/// Crediting shooters keeps the score table's length.
pub proof fn lemma_collide_scores_len(m: StateModel, n: int)
    ensures
        collide_scores(m, n).len() == m.scores.len(),
    decreases n,
{
    if n > 0 {
        lemma_collide_scores_len(m, n - 1);
    }
}

/// The collision phase preserves the state invariant.
pub proof fn lemma_collide_wf(m: StateModel)
    requires
        state_wf(m),
    ensures
        state_wf(collide_spec(m)),
{
    let m2 = collide_spec(m);
    lemma_collide_scores_len(m, m.players.len() as int);
    assert forall|i: int| 0 <= i < m2.players.len() implies (#[trigger] m2.players[i]).id == i
        && player_ok(
        m2.players[i],
        field_limit(m2.width as int),
        field_limit(m2.height as int),
    ) by {
        assert(m.players[i].id == i);
        assert(player_ok(m.players[i], field_limit(m.width as int), field_limit(m.height as int)));
    }
}

/// The erosion phase preserves the state invariant.
pub proof fn lemma_erode_wf(m: StateModel)
    requires
        state_wf(m),
    ensures
        state_wf(erode_spec(m)),
{
}

// ---------------------------------------------------------------------------
// Executable pipeline.
// ---------------------------------------------------------------------------

/// Per-component player speed for a fixed-point unit facing component.
fn move_component_exec(u: i64) -> (r: i64)
    ensures
        r as int == move_component(u as int),
        -MOVE_SPEED_AXIS <= r <= MOVE_SPEED_AXIS,
{
    if u == UNIT {
        MOVE_SPEED_AXIS
    } else if u == -UNIT {
        -MOVE_SPEED_AXIS
    } else if u == UNIT_DIAG {
        MOVE_SPEED_DIAG
    } else if u == -UNIT_DIAG {
        -MOVE_SPEED_DIAG
    } else {
        0
    }
}

/// Per-component bullet speed for a fixed-point unit facing component.
fn bullet_component_exec(u: i64) -> (r: i64)
    ensures
        r as int == bullet_component(u as int),
        -BULLET_SPEED_AXIS <= r <= BULLET_SPEED_AXIS,
{
    if u == UNIT {
        BULLET_SPEED_AXIS
    } else if u == -UNIT {
        -BULLET_SPEED_AXIS
    } else if u == UNIT_DIAG {
        BULLET_SPEED_DIAG
    } else if u == -UNIT_DIAG {
        -BULLET_SPEED_DIAG
    } else {
        0
    }
}

impl GameState {
    /// The movement phase: every live player with a net direction advances
    /// by its per-component speed, clamped to the playfield, and turns to
    /// face its movement.
    #[verifier::loop_isolation(false)]
    fn move_phase(&mut self, inputs: &Vec<u8>)
        requires
            state_wf(old(self)@),
        ensures
            final(self)@ == move_spec(old(self)@, inputs@),
    {
        let limx: i64 = (self.width as i64 - 1) * HALF_TILE;
        let limy: i64 = (self.height as i64 - 1) * HALF_TILE;
        let mut out: Vec<Player> = Vec::new();
        let mut i: usize = 0;
        while i < self.players.len()
            invariant
                i <= self.players@.len(),
                out@.len() == i,
                forall|k: int|
                    0 <= k < i ==> out@[k] == move_player(
                        self.players@[k],
                        input_at(inputs@, k),
                        limx as int,
                        limy as int,
                    ),
            decreases self.players@.len() - i,
        {
            let p = self.players[i];
            let inp = if i < inputs.len() {
                inputs[i]
            } else {
                0
            };
            let (dx, dy) = crate::input::direction(inp);
            let np = if !p.alive || (dx == 0 && dy == 0) {
                p
            } else {
                let mvx = move_component_exec(dx);
                let mvy = move_component_exec(dy);
                Player {
                    pos_x: clamp_i64(p.pos_x + mvx, -limx, limx),
                    pos_y: clamp_i64(p.pos_y + mvy, -limy, limy),
                    face_x: dx,
                    face_y: dy,
                    ..p
                }
            };
            out.push(np);
            i += 1;
        }
        self.players = out;
        proof {
            assert(self@.players =~= move_spec(old(self)@, inputs@).players);
            assert(self@ =~= move_spec(old(self)@, inputs@));
        }
    }

    /// The reload phase: the ready flag returns for every player whose fire
    /// flag is released.
    #[verifier::loop_isolation(false)]
    fn reload_phase(&mut self, inputs: &Vec<u8>)
        requires
            state_wf(old(self)@),
        ensures
            final(self)@ == reload_spec(old(self)@, inputs@),
    {
        let mut out: Vec<Player> = Vec::new();
        let mut i: usize = 0;
        while i < self.players.len()
            invariant
                i <= self.players@.len(),
                out@.len() == i,
                forall|k: int|
                    0 <= k < i ==> out@[k] == reload_player(self.players@[k], input_at(inputs@, k)),
            decreases self.players@.len() - i,
        {
            let p = self.players[i];
            let inp = if i < inputs.len() {
                inputs[i]
            } else {
                0
            };
            let np = if crate::input::fire(inp) {
                p
            } else {
                Player { bullet_ready: true, ..p }
            };
            out.push(np);
            i += 1;
        }
        self.players = out;
        proof {
            assert(self@.players =~= reload_spec(old(self)@, inputs@).players);
            assert(self@ =~= reload_spec(old(self)@, inputs@));
        }
    }

    /// The fire phase: every live, loaded player holding fire spends its
    /// ready flag and spawns a bullet at its own position and facing.
    #[verifier::loop_isolation(false)]
    fn fire_phase(&mut self, inputs: &Vec<u8>)
        requires
            state_wf(old(self)@),
        ensures
            final(self)@ == fire_spec(old(self)@, inputs@),
    {
        let mut out: Vec<Player> = Vec::new();
        let mut fresh: Vec<Bullet> = Vec::new();
        let mut i: usize = 0;
        while i < self.players.len()
            invariant
                i <= self.players@.len(),
                out@.len() == i,
                forall|k: int|
                    0 <= k < i ==> out@[k] == fire_player(self.players@[k], input_at(inputs@, k)),
                fresh@ == fired_bullets(self.players@, inputs@, i as int),
            decreases self.players@.len() - i,
        {
            let p = self.players[i];
            let inp = if i < inputs.len() {
                inputs[i]
            } else {
                0
            };
            let will_fire = p.alive && p.bullet_ready && crate::input::fire(inp);
            if will_fire {
                out.push(Player { bullet_ready: false, ..p });
                fresh.push(
                    Bullet {
                        owner_id: p.id,
                        pos_x: p.pos_x,
                        pos_y: p.pos_y,
                        face_x: p.face_x,
                        face_y: p.face_y,
                    },
                );
            } else {
                out.push(p);
            }
            i += 1;
        }
        self.players = out;
        self.bullets.append(&mut fresh);
        proof {
            assert(self@.players =~= fire_spec(old(self)@, inputs@).players);
            assert(self@ =~= fire_spec(old(self)@, inputs@));
        }
    }
}

/// A found first hitter stays the first hitter for any longer prefix.
pub proof fn lemma_first_hitter_extend(bullets: Seq<Bullet>, p: Player, n: int, m: int)
    requires
        0 <= n <= m,
        first_hitter(bullets, p, n) is Some,
    ensures
        first_hitter(bullets, p, m) == first_hitter(bullets, p, n),
    decreases m,
{
    if m > n {
        lemma_first_hitter_extend(bullets, p, n, m - 1);
    }
}

impl GameState {
    /// The bullet flight phase: every bullet advances along its facing; one
    /// that leaves the playfield margin is despawned.
    #[verifier::loop_isolation(false)]
    fn bullets_phase(&mut self)
        requires
            state_wf(old(self)@),
        ensures
            final(self)@ == bullets_spec(old(self)@),
    {
        let limx: i64 = (self.width as i64 - 1) * HALF_TILE;
        let limy: i64 = (self.height as i64 - 1) * HALF_TILE;
        let mut out: Vec<Bullet> = Vec::new();
        let mut j: usize = 0;
        while j < self.bullets.len()
            invariant
                j <= self.bullets@.len(),
                out@ == advanced_bullets(self.bullets@, j as int, limx as int, limy as int),
            decreases self.bullets@.len() - j,
        {
            let b = self.bullets[j];
            let b2 = Bullet {
                pos_x: b.pos_x + bullet_component_exec(b.face_x),
                pos_y: b.pos_y + bullet_component_exec(b.face_y),
                ..b
            };
            if -limx - BULLET_MARGIN <= b2.pos_x && b2.pos_x <= limx + BULLET_MARGIN
                && -limy - BULLET_MARGIN <= b2.pos_y && b2.pos_y <= limy + BULLET_MARGIN {
                out.push(b2);
            }
            j += 1;
        }
        self.bullets = out;
        proof {
            assert(self@ =~= bullets_spec(old(self)@));
        }
    }

    /// The first bullet, by list order, that hits the player, if any.
    #[verifier::loop_isolation(false)]
    fn find_hitter(&self, p: &Player) -> (r: Option<usize>)
        requires
            state_wf(self@),
            player_ok(*p, field_limit(self@.width as int), field_limit(self@.height as int)),
        ensures
            match r {
                Option::Some(j) => j < self@.bullets.len() && first_hitter(
                    self@.bullets,
                    *p,
                    self@.bullets.len() as int,
                ) == Option::Some(j as int),
                Option::None => first_hitter(self@.bullets, *p, self@.bullets.len() as int)
                    is None,
            },
    {
        let mut j: usize = 0;
        while j < self.bullets.len()
            invariant
                j <= self.bullets@.len(),
                first_hitter(self.bullets@, *p, j as int) is None,
            decreases self.bullets@.len() - j,
        {
            let b = self.bullets[j];
            proof {
                assert(bullet_ok(
                    self@.bullets[j as int],
                    field_limit(self@.width as int),
                    field_limit(self@.height as int),
                    self@.players.len() as int,
                ));
            }
            let dx = b.pos_x - p.pos_x;
            let dy = b.pos_y - p.pos_y;
            proof {
                assert(-0x400000 <= dx <= 0x400000 && -0x400000 <= dy <= 0x400000);
                assert(0 <= dx * dx <= 0x400000 * 0x400000 && 0 <= dy * dy <= 0x400000
                    * 0x400000) by (nonlinear_arith)
                    requires
                        -0x400000 <= dx <= 0x400000,
                        -0x400000 <= dy <= 0x400000,
                ;
            }
            let radii: i64 = PLAYER_RADIUS + BULLET_RADIUS;
            proof {
                assert(radii * radii == hit_dist_sq()) by (nonlinear_arith)
                    requires
                        radii == PLAYER_RADIUS + BULLET_RADIUS,
                ;
            }
            let hit = b.owner_id != p.id && dx * dx + dy * dy < radii * radii;
            if hit {
                proof {
                    assert(first_hitter(self.bullets@, *p, j as int + 1) == Option::Some(j as int));
                    lemma_first_hitter_extend(
                        self.bullets@,
                        *p,
                        j as int + 1,
                        self.bullets@.len() as int,
                    );
                }
                return Option::Some(j);
            }
            j += 1;
        }
        Option::None
    }

    /// The collision phase: every live player struck by an opposing bullet
    /// despawns, the owner of the first qualifying bullet scores once per
    /// victim, and a hit while in round starts the round-end countdown.
    #[verifier::loop_isolation(false)]
    fn collide_phase(&mut self)
        requires
            state_wf(old(self)@),
        ensures
            final(self)@ == collide_spec(old(self)@),
    {
        let ghost m0 = self@;
        let mut out: Vec<Player> = Vec::new();
        let mut scores: Vec<u64> = crate::state::copy_vec(&self.scores);
        let mut hit_any: bool = false;
        let mut i: usize = 0;
        while i < self.players.len()
            invariant
                i <= self.players@.len(),
                out@.len() == i,
                m0 == self@,
                forall|k: int| 0 <= k < i ==> out@[k] == collide_player(m0, k),
                scores@ == collide_scores(m0, i as int),
                scores@.len() == m0.scores.len(),
                hit_any == any_hit(m0, i as int),
            decreases self.players@.len() - i,
        {
            let p = self.players[i];
            if p.alive {
                let found = self.find_hitter(&p);
                match found {
                    Option::Some(j) => {
                        let owner = self.bullets[j].owner_id;
                        proof {
                            assert(hit_of(m0, i as int) == Option::Some(owner as int));
                            assert(bullet_ok(
                                m0.bullets[j as int],
                                field_limit(m0.width as int),
                                field_limit(m0.height as int),
                                m0.players.len() as int,
                            ));
                        }
                        out.push(Player { alive: false, ..p });
                        proof {
                            lemma_collide_scores_len(m0, i as int + 1);
                        }
                        let credit = scores[owner];
                        let bumped = if credit < u64::MAX {
                            credit + 1
                        } else {
                            credit
                        };
                        scores[owner] = bumped;
                        hit_any = true;
                        proof {
                            assert(scores@ =~= collide_scores(m0, i as int + 1));
                        }
                    },
                    Option::None => {
                        out.push(p);
                        proof {
                            assert(hit_of(m0, i as int) is None);
                            assert(scores@ =~= collide_scores(m0, i as int + 1));
                        }
                    },
                }
            } else {
                out.push(p);
                proof {
                    assert(hit_of(m0, i as int) is None);
                    assert(scores@ =~= collide_scores(m0, i as int + 1));
                }
            }
            i += 1;
        }
        let was_in_round = match self.round {
            RoundState::InRound => true,
            RoundState::RoundEnd { .. } => false,
        };
        if was_in_round && hit_any {
            self.round = RoundState::RoundEnd { timer: ROUND_END_TICKS };
        }
        self.players = out;
        self.scores = scores;
        proof {
            assert(self@.players =~= collide_spec(m0).players);
            assert(self@ =~= collide_spec(m0));
        }
    }
}

/// The tile index a coordinate falls in; always inside the grid for a
/// coordinate inside the field.
#[verifier::loop_isolation(false)]
fn tile_index(pos: i64, dim: usize) -> (t: usize)
    requires
        1 <= dim <= MAX_MAP_DIM,
        -field_limit(dim as int) <= pos <= field_limit(dim as int),
    ensures
        t as int == tile_of(pos as int, dim as int),
        t < dim,
{
    let shifted: i64 = pos + (dim as i64) * HALF_TILE;
    proof {
        assert(HALF_TILE <= shifted);
        assert(shifted < (dim as i64) * TILE);
        vstd::arithmetic::div_mod::lemma_multiply_divide_lt(
            shifted as int,
            TILE as int,
            dim as int,
        );
        assert((TILE as int) * (dim as int) == (dim as int) * (TILE as int))
            by (nonlinear_arith);
    }
    let t: u64 = (shifted as u64) / (TILE as u64);
    t as usize
}

/// A verified terrain mask of `n` intact tiles.
fn full_terrain(n: usize) -> (t: Vec<bool>)
    ensures
        t@ == Seq::new(n as nat, |i: int| true),
{
    let mut t: Vec<bool> = Vec::new();
    let mut i: usize = 0;
    while i < n
        invariant
            i <= n,
            t@.len() == i,
            forall|k: int| 0 <= k < i ==> t@[k] == true,
        decreases n - i,
    {
        t.push(true);
        i += 1;
    }
    proof {
        assert(t@ =~= Seq::new(n as nat, |i: int| true));
    }
    t
}

/// The players respawned from generator state `st`, in slot order, with the
/// generator state left after the draws.
#[verifier::loop_isolation(false)]
fn respawned_players(n: usize, st: u64, limx: i64, limy: i64) -> (r: (Vec<Player>, u64))
    requires
        n <= MAX_PLAYERS,
        0 <= limx <= 0x100000,
        0 <= limy <= 0x100000,
    ensures
        r.0@ == respawn_seq(n as int, st, limx as int, limy as int).0,
        r.1 == respawn_seq(n as int, st, limx as int, limy as int).1,
{
    let mut out: Vec<Player> = Vec::new();
    let mut cur: u64 = st;
    let mut i: usize = 0;
    while i < n
        invariant
            i <= n,
            out@ == respawn_seq(i as int, st, limx as int, limy as int).0,
            cur == respawn_seq(i as int, st, limx as int, limy as int).1,
        decreases n - i,
    {
        let (s1, x) = draw_coord(cur, limx);
        let (s2, y) = draw_coord(s1, limy);
        let fx: i64 = if i % 2 == 0 {
            UNIT
        } else {
            -UNIT
        };
        out.push(
            Player {
                id: i,
                pos_x: x,
                pos_y: y,
                face_x: fx,
                face_y: 0,
                alive: true,
                bullet_ready: true,
            },
        );
        cur = s2;
        i += 1;
    }
    (out, cur)
}

impl GameState {
    /// Whether a live player stands close enough to erode tile `(tx, ty)`.
    #[verifier::loop_isolation(false)]
    fn near_any_player(&self, tx: usize, ty: usize) -> (r: bool)
        requires
            state_wf(self@),
            tx < self@.width,
            ty < self@.height,
        ensures
            r == eroded_tile(self@, tx as int, ty as int),
    {
        let mut i: usize = 0;
        while i < self.players.len()
            invariant
                i <= self.players@.len(),
                !eroded_tile_upto(self@, tx as int, ty as int, i as int),
            decreases self.players@.len() - i,
        {
            let p = self.players[i];
            if p.alive {
                let ptx = tile_index(p.pos_x, self.width);
                let pty = tile_index(p.pos_y, self.height);
                let dx: i64 = (tx as i64) - (ptx as i64);
                let dy: i64 = (ty as i64) - (pty as i64);
                if -ERODE_RADIUS <= dx && dx <= ERODE_RADIUS && -ERODE_RADIUS <= dy && dy
                    <= ERODE_RADIUS {
                    proof {
                        assert(near_player_tile(
                            self@.players[i as int].pos_x as int,
                            self@.players[i as int].pos_y as int,
                            tx as int,
                            ty as int,
                            self@.width as int,
                            self@.height as int,
                        ));
                        assert(eroded_tile(self@, tx as int, ty as int));
                    }
                    return true;
                }
            }
            i += 1;
        }
        proof {
            assert(!eroded_tile(self@, tx as int, ty as int)) by {
                if eroded_tile(self@, tx as int, ty as int) {
                    let w = choose|k: int|
                        0 <= k < self@.players.len() && (#[trigger] self@.players[k]).alive
                            && near_player_tile(
                            self@.players[k].pos_x as int,
                            self@.players[k].pos_y as int,
                            tx as int,
                            ty as int,
                            self@.width as int,
                            self@.height as int,
                        );
                    assert(eroded_tile_upto(self@, tx as int, ty as int, self@.players.len() as int));
                }
            }
        }
        false
    }

    /// The erosion phase: each tile within the erosion square of a live
    /// player is cleared, and no other tile changes.
    #[verifier::loop_isolation(false)]
    fn erode_phase(&mut self)
        requires
            state_wf(old(self)@),
        ensures
            final(self)@ == erode_spec(old(self)@),
    {
        let w = self.width;
        let h = self.height;
        let mut out: Vec<bool> = Vec::new();
        let mut ty: usize = 0;
        while ty < h
            invariant
                ty <= h,
                out@.len() == ty * w,
                forall|k: int|
                    0 <= k < out@.len() ==> out@[k] == (self@.terrain[k] && !eroded_at(self@, k)),
            decreases h - ty,
        {
            let mut tx: usize = 0;
            proof {
                assert(ty * w + w <= h * w) by (nonlinear_arith)
                    requires
                        ty < h,
                        0 <= w,
                ;
                assert(h * w == w * h) by (nonlinear_arith);
                assert(h * w <= MAX_MAP_DIM * MAX_MAP_DIM) by (nonlinear_arith)
                    requires
                        0 <= h <= MAX_MAP_DIM,
                        0 <= w <= MAX_MAP_DIM,
                ;
            }
            while tx < w
                invariant
                    tx <= w,
                    ty < h,
                    ty * w + w <= h * w,
                    h * w == w * h,
                    h * w <= MAX_MAP_DIM * MAX_MAP_DIM,
                    out@.len() == ty * w + tx,
                    forall|k: int|
                        0 <= k < out@.len() ==> out@[k] == (self@.terrain[k] && !eroded_at(
                            self@,
                            k,
                        )),
                decreases w - tx,
            {
                let idx: usize = ty * w + tx;
                let old_flag = self.terrain[idx];
                let near = self.near_any_player(tx, ty);
                proof {
                    vstd::arithmetic::div_mod::lemma_fundamental_div_mod_converse(
                        idx as int,
                        w as int,
                        ty as int,
                        tx as int,
                    );
                    assert(eroded_at(self@, idx as int) == eroded_tile(
                        self@,
                        tx as int,
                        ty as int,
                    ));
                }
                out.push(old_flag && !near);
                tx += 1;
            }
            ty += 1;
            proof {
                assert(ty * w == (ty - 1) * w + w) by (nonlinear_arith);
            }
        }
        proof {
            assert(out@.len() == self@.terrain.len()) by {
                assert(h * w == w * h) by (nonlinear_arith);
            }
        }
        self.terrain = out;
        proof {
            assert(self@.terrain =~= erode_spec(old(self)@).terrain);
            assert(self@ =~= erode_spec(old(self)@));
        }
    }

    /// The round phase: nothing while in round; during round end the timer
    /// counts down and, once it runs out, the world resets for the next
    /// round with seed-determined spawn points.
    fn round_phase(&mut self)
        requires
            state_wf(old(self)@),
        ensures
            final(self)@ == round_tick_spec(old(self)@),
    {
        let timer = match self.round {
            RoundState::InRound => {
                return ;
            },
            RoundState::RoundEnd { timer } => timer,
        };
        if timer <= 1 {
            let limx: i64 = (self.width as i64 - 1) * HALF_TILE;
            let limy: i64 = (self.height as i64 - 1) * HALF_TILE;
            let (players, st) = respawned_players(self.players.len(), self.rng_state, limx, limy);
            proof {
                assert(self.width * self.height <= MAX_MAP_DIM * MAX_MAP_DIM) by (nonlinear_arith)
                    requires
                        1 <= self.width <= MAX_MAP_DIM,
                        1 <= self.height <= MAX_MAP_DIM,
                ;
            }
            let n_tiles: usize = self.width * self.height;
            self.players = players;
            self.rng_state = st;
            self.bullets = Vec::new();
            self.terrain = full_terrain(n_tiles);
            self.round = RoundState::InRound;
            proof {
                assert(self@ =~= respawn_spec(old(self)@));
            }
        } else {
            self.round = RoundState::RoundEnd { timer: timer - 1 };
        }
    }

    /// One full simulation tick: the seven phases in their fixed order. The
    /// result is exactly `step_spec` of the prior state and the input row —
    /// the whole determinism argument rests on this equality.
    pub fn step(&mut self, inputs: &Vec<u8>)
        requires
            state_wf(old(self)@),
        ensures
            final(self)@ == step_spec(old(self)@, inputs@),
            state_wf(final(self)@),
    {
        let ghost m0 = self@;
        proof {
            reveal(step_spec);
            lemma_round_wf(m0);
            lemma_move_wf(round_tick_spec(m0), inputs@);
            lemma_reload_wf(move_spec(round_tick_spec(m0), inputs@), inputs@);
            lemma_fire_wf(reload_spec(move_spec(round_tick_spec(m0), inputs@), inputs@), inputs@);
            lemma_bullets_wf(
                fire_spec(reload_spec(move_spec(round_tick_spec(m0), inputs@), inputs@), inputs@),
            );
            lemma_collide_wf(
                bullets_spec(
                    fire_spec(
                        reload_spec(move_spec(round_tick_spec(m0), inputs@), inputs@),
                        inputs@,
                    ),
                ),
            );
            lemma_step_wf(m0, inputs@);
        }
        self.round_phase();
        self.move_phase(inputs);
        self.reload_phase(inputs);
        self.fire_phase(inputs);
        self.bullets_phase();
        self.collide_phase();
        self.erode_phase();
    }
}

// ---------------------------------------------------------------------------
// Laws.
// ---------------------------------------------------------------------------

/// A hit on one player raises the tick's hit flag.
proof fn lemma_any_hit_from(m: StateModel, b: int, n: int)
    requires
        0 <= b < n,
        hit_of(m, b) is Some,
    ensures
        any_hit(m, n),
    decreases n,
{
    if b < n - 1 {
        lemma_any_hit_from(m, b, n - 1);
    }
}

/// If player `b`'s hit is the only one credited to slot `a` this tick, the
/// score fold adds exactly one to slot `a`.
proof fn lemma_collide_scores_at(m: StateModel, a: int, b: int, n: int)
    requires
        0 <= a < m.scores.len(),
        0 <= b,
        hit_of(m, b) == Option::Some(a),
        m.scores[a] < u64::MAX,
        forall|q: int| 0 <= q < n && q != b ==> hit_of(m, q) != Option::Some(a),
    ensures
        collide_scores(m, n)[a] == if b < n {
            (m.scores[a] + 1) as u64
        } else {
            m.scores[a]
        },
    decreases n,
{
    if n > 0 {
        lemma_collide_scores_at(m, a, b, n - 1);
        lemma_collide_scores_len(m, n - 1);
    }
}

/// Round transition correctness: if player `b` is alive and the first
/// qualifying bullet that strikes it (owner differing from `b`, centres
/// closer than the sum of the radii) belongs to player `a`, and no other
/// victim credits `a` this tick, then the collision phase despawns `b`,
/// raises `a`'s score by exactly one, and moves the round from `InRound`
/// into the round-end countdown — a single transition within that tick.
pub proof fn lemma_hit_resolution(m: StateModel, a: int, b: int)
    requires
        state_wf(m),
        0 <= b < m.players.len(),
        0 <= a < m.players.len(),
        m.round == RoundState::InRound,
        m.players[b].alive,
        hit_of(m, b) == Option::Some(a),
        m.scores[a] < u64::MAX,
        forall|q: int| 0 <= q < m.players.len() && q != b ==> hit_of(m, q) != Option::Some(a),
    ensures
        !collide_spec(m).players[b].alive,
        collide_spec(m).scores[a] == m.scores[a] + 1,
        collide_spec(m).round == (RoundState::RoundEnd { timer: ROUND_END_TICKS }),
{
    lemma_any_hit_from(m, b, m.players.len() as int);
    lemma_collide_scores_at(m, a, b, m.players.len() as int);
}

/// Respawn determinism: two states holding the same generator state, grid
/// size and player count respawn to identical players and identical next
/// generator states, whatever else differs between them.
pub proof fn lemma_respawn_determinism(m1: StateModel, m2: StateModel)
    requires
        m1.rng_state == m2.rng_state,
        m1.width == m2.width,
        m1.height == m2.height,
        m1.players.len() == m2.players.len(),
    ensures
        respawn_spec(m1).players == respawn_spec(m2).players,
        respawn_spec(m1).rng_state == respawn_spec(m2).rng_state,
{
}

/// The bullet a firing player spawns is in the fire phase's output.
proof fn lemma_fired_bullets_contains(players: Seq<Player>, inputs: Seq<u8>, n: int, p: int)
    requires
        0 <= p < n,
        fires(players[p], input_at(inputs, p)),
    ensures
        exists|j: int|
            0 <= j < fired_bullets(players, inputs, n).len() && fired_bullets(players, inputs, n)[j]
                == bullet_from(players[p]),
    decreases n,
{
    let rest = fired_bullets(players, inputs, n - 1);
    if p == n - 1 {
        assert(fired_bullets(players, inputs, n)[rest.len() as int] == bullet_from(players[p]));
    } else {
        lemma_fired_bullets_contains(players, inputs, n - 1, p);
        let j = choose|j: int| 0 <= j < rest.len() && rest[j] == bullet_from(players[p]);
        assert(fired_bullets(players, inputs, n)[j] == bullet_from(players[p]));
    }
}

/// Bullet reload law, firing half: a live, loaded player holding fire
/// spends the ready flag on the tick the bullet leaves, and the bullet —
/// spawned at the player, flying along its facing — joins the list.
pub proof fn lemma_fire_spends_ready(m: StateModel, inputs: Seq<u8>, p: int)
    requires
        0 <= p < m.players.len(),
        fires(m.players[p], input_at(inputs, p)),
    ensures
        !fire_spec(m, inputs).players[p].bullet_ready,
        exists|j: int|
            0 <= j < fire_spec(m, inputs).bullets.len() && fire_spec(m, inputs).bullets[j]
                == bullet_from(m.players[p]),
{
    lemma_fired_bullets_contains(m.players, inputs, m.players.len() as int, p);
    let fresh = fired_bullets(m.players, inputs, m.players.len() as int);
    let j = choose|j: int| 0 <= j < fresh.len() && fresh[j] == bullet_from(m.players[p]);
    assert(fire_spec(m, inputs).bullets[m.bullets.len() + j] == bullet_from(m.players[p]));
}

/// A bullet whose advanced position stays in bounds survives the flight
/// phase.
proof fn lemma_advanced_keeps(bullets: Seq<Bullet>, n: int, limx: int, limy: int, j: int)
    requires
        0 <= j < n <= bullets.len(),
        bullet_in_bounds(advance_bullet(bullets[j]), limx, limy),
    ensures
        exists|k: int|
            0 <= k < advanced_bullets(bullets, n, limx, limy).len() && advanced_bullets(
                bullets,
                n,
                limx,
                limy,
            )[k] == advance_bullet(bullets[j]),
    decreases n,
{
    let rest = advanced_bullets(bullets, n - 1, limx, limy);
    if j == n - 1 {
        assert(advanced_bullets(bullets, n, limx, limy)[rest.len() as int] == advance_bullet(
            bullets[j],
        ));
    } else {
        lemma_advanced_keeps(bullets, n - 1, limx, limy, j);
        let k = choose|k: int| 0 <= k < rest.len() && rest[k] == advance_bullet(bullets[j]);
        assert(advanced_bullets(bullets, n, limx, limy)[k] == advance_bullet(bullets[j]));
    }
}

/// Bullet reload law, firing half, over a whole tick: in round, a live,
/// loaded player holding fire ends the tick unloaded — whatever else the
/// tick does to it — and a bullet of its own is in flight in the tick's
/// output.
pub proof fn lemma_fired_tick(m: StateModel, inputs: Seq<u8>, p: int)
    requires
        state_wf(m),
        m.round == RoundState::InRound,
        0 <= p < m.players.len(),
        m.players[p].alive,
        m.players[p].bullet_ready,
        input::fire_set(input_at(inputs, p)),
    ensures
        !step_spec(m, inputs).players[p].bullet_ready,
        exists|j: int|
            0 <= j < step_spec(m, inputs).bullets.len() && (#[trigger] step_spec(
                m,
                inputs,
            ).bullets[j]).owner_id == p,
{
    reveal(step_spec);
    let limx = field_limit(m.width as int);
    let limy = field_limit(m.height as int);
    let m2 = move_spec(m, inputs);
    let m3 = reload_spec(m2, inputs);
    lemma_move_wf(m, inputs);
    lemma_reload_wf(m2, inputs);
    assert(m3.players[p].alive && m3.players[p].bullet_ready && m3.players[p].id == p);
    assert(fires(m3.players[p], input_at(inputs, p)));
    lemma_fire_spends_ready(m3, inputs, p);
    let m4 = fire_spec(m3, inputs);
    let shot = bullet_from(m3.players[p]);
    let j = choose|j: int| 0 <= j < m4.bullets.len() && m4.bullets[j] == shot;
    assert(player_ok(m3.players[p], limx, limy));
    assert(bullet_in_bounds(advance_bullet(shot), limx, limy));
    lemma_advanced_keeps(m4.bullets, m4.bullets.len() as int, limx, limy, j);
    let m5 = bullets_spec(m4);
    let k = choose|k: int| 0 <= k < m5.bullets.len() && m5.bullets[k] == advance_bullet(shot);
    assert(step_spec(m, inputs).bullets[k].owner_id == p);
    assert(!m4.players[p].bullet_ready);
    assert(!collide_spec(m5).players[p].bullet_ready);
}

/// Bullet reload law, holding half: while the fire flag stays held and no
/// round reset intervenes, a spent ready flag stays spent through a full
/// tick — it can only return on a tick whose input releases fire.
pub proof fn lemma_ready_stays_spent(m: StateModel, inputs: Seq<u8>, p: int)
    requires
        state_wf(m),
        0 <= p < m.players.len(),
        !m.players[p].bullet_ready,
        input::fire_set(input_at(inputs, p)),
        !(m.round matches RoundState::RoundEnd { timer } && timer <= 1),
    ensures
        !step_spec(m, inputs).players[p].bullet_ready,
{
    reveal(step_spec);
    let m1 = round_tick_spec(m);
    assert(m1.players == m.players);
    let m2 = move_spec(m1, inputs);
    assert(!m2.players[p].bullet_ready);
    let m3 = reload_spec(m2, inputs);
    assert(!m3.players[p].bullet_ready);
    let m4 = fire_spec(m3, inputs);
    assert(!m4.players[p].bullet_ready);
    let m5 = bullets_spec(m4);
    let m6 = collide_spec(m5);
    assert(!m6.players[p].bullet_ready);
}

/// Terrain erosion bound: after the erosion phase, the tile at `(tx, ty)`
/// is cleared exactly when it lies within the Chebyshev erosion radius of a
/// live player's tile; every other tile keeps its flag, and only existing
/// tiles are ever touched, so the erosion square clamps to the grid.
pub proof fn lemma_erosion_bound(m: StateModel, tx: int, ty: int)
    requires
        state_wf(m),
        0 <= tx < m.width,
        0 <= ty < m.height,
    ensures
        erode_spec(m).terrain.len() == m.terrain.len(),
        erode_spec(m).terrain[ty * m.width + tx] == (m.terrain[ty * m.width + tx] && !eroded_tile(
            m,
            tx,
            ty,
        )),
{
    let idx = ty * (m.width as int) + tx;
    assert(0 <= ty * (m.width as int) + tx < (m.width as int) * (m.height as int))
        by (nonlinear_arith)
        requires
            0 <= tx < m.width,
            0 <= ty < m.height,
    ;
    assert(m.terrain.len() == (m.width as int) * (m.height as int)) by (nonlinear_arith)
        requires
            m.terrain.len() == m.width * m.height,
    ;
    vstd::arithmetic::div_mod::lemma_fundamental_div_mod_converse(idx, m.width as int, ty, tx);
}

/// Whether one of the first `n` players erodes tile `(tx, ty)` this tick.
pub open spec fn eroded_tile_upto(m: StateModel, tx: int, ty: int, n: int) -> bool {
    exists|i: int|
        0 <= i < n && (#[trigger] m.players[i]).alive && near_player_tile(
            m.players[i].pos_x as int,
            m.players[i].pos_y as int,
            tx,
            ty,
            m.width as int,
            m.height as int,
        )
}

/// One tick keeps one player entity per slot: the roster never grows or
/// shrinks, players only toggle liveness or respawn.
pub proof fn lemma_step_players_len(m: StateModel, inputs: Seq<u8>)
    requires
        state_wf(m),
    ensures
        step_spec(m, inputs).players.len() == m.players.len(),
{
    reveal(step_spec);
    match m.round {
        RoundState::InRound => {},
        RoundState::RoundEnd { timer } => {
            if timer <= 1 {
                lemma_respawn_seq_ok(
                    m.players.len() as int,
                    m.rng_state,
                    field_limit(m.width as int),
                    field_limit(m.height as int),
                );
            }
        },
    }
}

/// One full tick preserves the state invariant.
pub proof fn lemma_step_wf(m: StateModel, inputs: Seq<u8>)
    requires
        state_wf(m),
    ensures
        state_wf(step_spec(m, inputs)),
{
    reveal(step_spec);
    lemma_round_wf(m);
    lemma_move_wf(round_tick_spec(m), inputs);
    lemma_reload_wf(move_spec(round_tick_spec(m), inputs), inputs);
    lemma_fire_wf(reload_spec(move_spec(round_tick_spec(m), inputs), inputs), inputs);
    lemma_bullets_wf(fire_spec(reload_spec(move_spec(round_tick_spec(m), inputs), inputs), inputs));
    lemma_collide_wf(
        bullets_spec(fire_spec(reload_spec(move_spec(round_tick_spec(m), inputs), inputs), inputs)),
    );
    lemma_erode_wf(
        collide_spec(
            bullets_spec(
                fire_spec(reload_spec(move_spec(round_tick_spec(m), inputs), inputs), inputs),
            ),
        ),
    );
}

} // verus!
