//! The deterministic game state and its invariant.
//!
//! Positions and facing directions are fixed-point integers: one terrain tile
//! is `TILE` subunits wide, and a facing is a fixed-point unit vector (axis
//! components `+-UNIT`, diagonal components `+-UNIT_DIAG`). Integer state is
//! what makes the simulation bit-identical across peers; no field ever holds
//! a machine-dependent value.

use vstd::prelude::*;
use crate::input::{UNIT, UNIT_DIAG};

verus! {

/// Subunits per terrain tile.
pub const TILE: i64 = 256;
/// Half a tile, in subunits.
pub const HALF_TILE: i64 = 128;
/// Player speed in subunits per tick when moving along an axis.
pub const MOVE_SPEED_AXIS: i64 = 30;
/// Player speed per component, in subunits per tick, when moving diagonally.
pub const MOVE_SPEED_DIAG: i64 = 21;
/// Bullet speed in subunits per tick when flying along an axis.
pub const BULLET_SPEED_AXIS: i64 = 100;
/// Bullet speed per component, in subunits per tick, when flying diagonally.
pub const BULLET_SPEED_DIAG: i64 = 70;
/// Player collision radius, in subunits.
pub const PLAYER_RADIUS: i64 = 128;
/// Bullet collision radius, in subunits.
pub const BULLET_RADIUS: i64 = 6;
/// Simulation ticks per second.
pub const TICKS_PER_SECOND: u32 = 60;
/// Ticks spent in the round-end phase before the world resets: two seconds.
pub const ROUND_END_TICKS: u32 = 120;
/// How far past the playfield edge, in subunits, a bullet may fly before it
/// is culled.
pub const BULLET_MARGIN: i64 = 512;
/// Largest accepted terrain dimension, in tiles.
pub const MAX_MAP_DIM: usize = 4096;
/// Largest accepted player count.
pub const MAX_PLAYERS: usize = 16;
/// Chebyshev radius, in tiles, of the terrain square a standing player erodes.
pub const ERODE_RADIUS: i64 = 2;
/// Horizontal spacing, in subunits, between the fixed match-start spawn
/// points of consecutive player slots.
pub const START_SPACING: i64 = 10240;
/// Horizontal spawn point, in subunits, of player slot 0 at match start.
pub const START_OFFSET: i64 = -5120;

/// One player entity. `id` is the player's handle; `bullet_ready` is the
/// reload flag; a destroyed player stays in the roster with `alive == false`
/// until the next round starts.
#[derive(Clone, Copy, PartialEq, Eq, Structural, Debug)]
pub struct Player {
    pub id: usize,
    pub pos_x: i64,
    pub pos_y: i64,
    pub face_x: i64,
    pub face_y: i64,
    pub alive: bool,
    pub bullet_ready: bool,
}

/// One bullet entity, flying with constant facing.
#[derive(Clone, Copy, PartialEq, Eq, Structural, Debug)]
pub struct Bullet {
    pub owner_id: usize,
    pub pos_x: i64,
    pub pos_y: i64,
    pub face_x: i64,
    pub face_y: i64,
}

/// The round phase: in play, or counting down to the next round.
#[derive(Clone, Copy, PartialEq, Eq, Structural, Debug)]
pub enum RoundState {
    InRound,
    RoundEnd { timer: u32 },
}

/// The whole deterministic simulation state for one tick.
///
/// The terrain mask is row-major: tile `(x, y)` is `terrain[y * width + x]`,
/// `true` while the tile is intact. `scores` is the per-player match score;
/// it survives round resets. `rng_state` is the deterministic generator state
/// seeded from the session seed; it is part of the state so that snapshots
/// and rollback preserve respawn determinism.
pub struct GameState {
    pub width: usize,
    pub height: usize,
    pub players: Vec<Player>,
    pub bullets: Vec<Bullet>,
    pub terrain: Vec<bool>,
    pub scores: Vec<u64>,
    pub round: RoundState,
    pub rng_state: u64,
}

/// The mathematical value of a `GameState`.
#[verifier::ext_equal]
pub ghost struct StateModel {
    pub width: usize,
    pub height: usize,
    pub players: Seq<Player>,
    pub bullets: Seq<Bullet>,
    pub terrain: Seq<bool>,
    pub scores: Seq<u64>,
    pub round: RoundState,
    pub rng_state: u64,
}

impl View for GameState {
    type V = StateModel;

    open spec fn view(&self) -> StateModel {
        StateModel {
            width: self.width,
            height: self.height,
            players: self.players@,
            bullets: self.bullets@,
            terrain: self.terrain@,
            scores: self.scores@,
            round: self.round,
            rng_state: self.rng_state,
        }
    }
}

/// Half the playfield extent, in subunits, along a dimension of `dim` tiles:
/// positions are clamped to `[-field_limit(dim), field_limit(dim)]`.
pub open spec fn field_limit(dim: int) -> int {
    (dim - 1) * HALF_TILE
}

/// Whether `(fx, fy)` is one of the eight fixed-point unit facings.
pub open spec fn facing_unit(fx: int, fy: int) -> bool {
    ||| (fx == 0 && (fy == UNIT || fy == -UNIT))
    ||| (fy == 0 && (fx == UNIT || fx == -UNIT))
    ||| ((fx == UNIT_DIAG || fx == -UNIT_DIAG) && (fy == UNIT_DIAG || fy == -UNIT_DIAG))
}

/// Well-formedness of one player within a field of the given half-extents.
pub open spec fn player_ok(p: Player, limx: int, limy: int) -> bool {
    &&& -limx <= p.pos_x <= limx
    &&& -limy <= p.pos_y <= limy
    &&& facing_unit(p.face_x as int, p.face_y as int)
}

/// Well-formedness of one bullet: within the field plus the cull margin,
/// flying in a unit facing, owned by a live slot.
pub open spec fn bullet_ok(b: Bullet, limx: int, limy: int, num_players: int) -> bool {
    &&& -limx - BULLET_MARGIN <= b.pos_x <= limx + BULLET_MARGIN
    &&& -limy - BULLET_MARGIN <= b.pos_y <= limy + BULLET_MARGIN
    &&& facing_unit(b.face_x as int, b.face_y as int)
    &&& 0 <= b.owner_id < num_players
}

/// The state invariant: grid dimensions in range, the terrain mask sized to
/// the grid, one score per player slot, every player's `id` equal to its slot
/// (so a handle maps to at most one entity), all entities inside their
/// bounds, and the round timer within the round-end length.
pub open spec fn state_wf(m: StateModel) -> bool {
    &&& 1 <= m.width <= MAX_MAP_DIM
    &&& 1 <= m.height <= MAX_MAP_DIM
    &&& 1 <= m.players.len() <= MAX_PLAYERS
    &&& m.scores.len() == m.players.len()
    &&& m.terrain.len() == m.width * m.height
    &&& forall|i: int|
        0 <= i < m.players.len() ==> (#[trigger] m.players[i]).id == i
    &&& forall|i: int|
        0 <= i < m.players.len() ==> player_ok(
            #[trigger] m.players[i],
            field_limit(m.width as int),
            field_limit(m.height as int),
        )
    &&& forall|j: int|
        0 <= j < m.bullets.len() ==> bullet_ok(
            #[trigger] m.bullets[j],
            field_limit(m.width as int),
            field_limit(m.height as int),
            m.players.len() as int,
        )
    &&& match m.round {
        RoundState::InRound => true,
        RoundState::RoundEnd { timer } => timer <= ROUND_END_TICKS,
    }
}

/// Clamping an integer into `[lo, hi]`.
pub open spec fn spec_clamp(v: int, lo: int, hi: int) -> int {
    if v < lo {
        lo
    } else if v > hi {
        hi
    } else {
        v
    }
}

/// Clamps a coordinate into `[lo, hi]`; movement at the playfield edge stops
/// there, it never wraps.
pub fn clamp_i64(v: i64, lo: i64, hi: i64) -> (r: i64)
    requires
        lo <= hi,
    ensures
        r as int == spec_clamp(v as int, lo as int, hi as int),
{
    if v < lo {
        lo
    } else if v > hi {
        hi
    } else {
        v
    }
}

/// The player placed in slot `i` at match start: fixed spawn points spread
/// around the field centre (clamped into the field), facing along the x axis
/// toward the opposing side, alive and loaded.
pub open spec fn initial_player(i: int, limx: int) -> Player {
    Player {
        id: i as usize,
        pos_x: spec_clamp(START_OFFSET + i * START_SPACING, -limx, limx) as i64,
        pos_y: 0,
        face_x: if i % 2 == 0 { UNIT } else { (-UNIT) as i64 },
        face_y: 0,
        alive: true,
        bullet_ready: true,
    }
}

/// The state a match starts from: fixed spawn points, full terrain, zero
/// scores, in round, generator seeded with the session seed.
pub open spec fn init_spec(width: usize, height: usize, num_players: usize, seed: u64) -> StateModel {
    StateModel {
        width: width,
        height: height,
        players: Seq::new(num_players as nat, |i: int| initial_player(i, field_limit(width as int))),
        bullets: Seq::empty(),
        terrain: Seq::new((width * height) as nat, |i: int| true),
        scores: Seq::new(num_players as nat, |i: int| 0u64),
        round: RoundState::InRound,
        rng_state: seed,
    }
}

impl GameState {
    /// Builds the match-start state for the given grid size, player count and
    /// session seed. Two peers that call this with the same arguments hold
    /// bit-identical states.
    pub fn new(width: usize, height: usize, num_players: usize, seed: u64) -> (s: GameState)
        requires
            1 <= width <= MAX_MAP_DIM,
            1 <= height <= MAX_MAP_DIM,
            1 <= num_players <= MAX_PLAYERS,
        ensures
            s@ == init_spec(width, height, num_players, seed),
            state_wf(s@),
    {
        let limx: i64 = (width as i64 - 1) * HALF_TILE;
        let mut players: Vec<Player> = Vec::new();
        let mut scores: Vec<u64> = Vec::new();
        let mut i: usize = 0;
        while i < num_players
            invariant
                i <= num_players,
                num_players <= MAX_PLAYERS,
                1 <= width <= MAX_MAP_DIM,
                limx == field_limit(width as int),
                players@.len() == i,
                scores@.len() == i,
                forall|k: int|
                    0 <= k < i ==> players@[k] == initial_player(k, field_limit(width as int)),
                forall|k: int| 0 <= k < i ==> scores@[k] == 0u64,
            decreases num_players - i,
        {
            let px: i64 = clamp_i64(START_OFFSET + (i as i64) * START_SPACING, -limx, limx);
            let fx: i64 = if i % 2 == 0 {
                UNIT
            } else {
                -UNIT
            };
            players.push(Player {
                id: i,
                pos_x: px,
                pos_y: 0,
                face_x: fx,
                face_y: 0,
                alive: true,
                bullet_ready: true,
            });
            scores.push(0u64);
            i += 1;
        }
        proof {
            assert(width * height <= MAX_MAP_DIM * MAX_MAP_DIM) by (nonlinear_arith)
                requires
                    1 <= width <= MAX_MAP_DIM,
                    1 <= height <= MAX_MAP_DIM,
            ;
        }
        let n_tiles: usize = width * height;
        let mut terrain: Vec<bool> = Vec::new();
        let mut t: usize = 0;
        while t < n_tiles
            invariant
                t <= n_tiles,
                terrain@.len() == t,
                forall|k: int| 0 <= k < t ==> terrain@[k] == true,
            decreases n_tiles - t,
        {
            terrain.push(true);
            t += 1;
        }
        let s = GameState {
            width,
            height,
            players,
            bullets: Vec::new(),
            terrain,
            scores,
            round: RoundState::InRound,
            rng_state: seed,
        };
        proof {
            assert(s@.players =~= init_spec(width, height, num_players, seed).players);
            assert(s@.scores =~= init_spec(width, height, num_players, seed).scores);
            assert(s@.terrain =~= init_spec(width, height, num_players, seed).terrain);
            assert(s@.bullets =~= init_spec(width, height, num_players, seed).bullets);
            assert(s@ =~= init_spec(width, height, num_players, seed));
        }
        s
    }

    /// A deep copy with the same mathematical value; the rollback core uses
    /// it to save snapshots.
    pub fn duplicate(&self) -> (c: GameState)
        ensures
            c@ == self@,
    {
        let c = GameState {
            width: self.width,
            height: self.height,
            players: copy_vec(&self.players),
            bullets: copy_vec(&self.bullets),
            terrain: copy_vec(&self.terrain),
            scores: copy_vec(&self.scores),
            round: self.round,
            rng_state: self.rng_state,
        };
        proof {
            assert(c@ =~= self@);
        }
        c
    }

    /// Whether two states hold the same mathematical value; peers in a
    /// determinism self-test compare whole states with this.
    pub fn state_eq(&self, other: &GameState) -> (r: bool)
        ensures
            r == (self@ == other@),
    {
        if self.width != other.width
            || self.height != other.height
            || self.rng_state != other.rng_state
        {
            proof {
                assert(self@ != other@);
            }
            return false;
        }
        let round_same = match (self.round, other.round) {
            (RoundState::InRound, RoundState::InRound) => true,
            (RoundState::RoundEnd { timer: a }, RoundState::RoundEnd { timer: b }) => a == b,
            _ => false,
        };
        if !round_same {
            proof {
                assert(self.round != other.round);
                assert(self@ != other@);
            }
            return false;
        }
        let players_same = eq_players(&self.players, &other.players);
        let bullets_same = eq_bullets(&self.bullets, &other.bullets);
        let terrain_same = eq_bools(&self.terrain, &other.terrain);
        let scores_same = eq_u64s(&self.scores, &other.scores);
        let r = players_same && bullets_same && terrain_same && scores_same;
        proof {
            if r {
                assert(self@ =~= other@);
            }
        }
        r
    }
}

/// A verified element-wise copy of a vector of plain values.
pub fn copy_vec<T: Copy>(v: &Vec<T>) -> (r: Vec<T>)
    ensures
        r@ == v@,
{
    let mut r: Vec<T> = Vec::new();
    let mut i: usize = 0;
    while i < v.len()
        invariant
            i <= v@.len(),
            r@ == v@.take(i as int),
        decreases v@.len() - i,
    {
        r.push(v[i]);
        proof {
            assert(r@ =~= v@.take(i as int + 1));
        }
        i += 1;
    }
    proof {
        assert(v@.take(v@.len() as int) =~= v@);
    }
    r
}

/// A verified element-wise equality test on player vectors.
pub fn eq_players(a: &Vec<Player>, b: &Vec<Player>) -> (r: bool)
    ensures
        r == (a@ == b@),
{
    if a.len() != b.len() {
        proof {
            assert(a@ != b@);
        }
        return false;
    }
    let mut i: usize = 0;
    while i < a.len()
        invariant
            i <= a@.len(),
            a@.len() == b@.len(),
            forall|k: int| 0 <= k < i ==> a@[k] == b@[k],
        decreases a@.len() - i,
    {
        if a[i] != b[i] {
            proof {
                assert(a@[i as int] != b@[i as int]);
                assert(a@ != b@);
            }
            return false;
        }
        i += 1;
    }
    proof {
        assert(a@ =~= b@);
    }
    true
}

/// A verified element-wise equality test on bullet vectors.
pub fn eq_bullets(a: &Vec<Bullet>, b: &Vec<Bullet>) -> (r: bool)
    ensures
        r == (a@ == b@),
{
    if a.len() != b.len() {
        proof {
            assert(a@ != b@);
        }
        return false;
    }
    let mut i: usize = 0;
    while i < a.len()
        invariant
            i <= a@.len(),
            a@.len() == b@.len(),
            forall|k: int| 0 <= k < i ==> a@[k] == b@[k],
        decreases a@.len() - i,
    {
        if a[i] != b[i] {
            proof {
                assert(a@[i as int] != b@[i as int]);
                assert(a@ != b@);
            }
            return false;
        }
        i += 1;
    }
    proof {
        assert(a@ =~= b@);
    }
    true
}

/// A verified element-wise equality test on terrain masks.
pub fn eq_bools(a: &Vec<bool>, b: &Vec<bool>) -> (r: bool)
    ensures
        r == (a@ == b@),
{
    if a.len() != b.len() {
        proof {
            assert(a@ != b@);
        }
        return false;
    }
    let mut i: usize = 0;
    while i < a.len()
        invariant
            i <= a@.len(),
            a@.len() == b@.len(),
            forall|k: int| 0 <= k < i ==> a@[k] == b@[k],
        decreases a@.len() - i,
    {
        if a[i] != b[i] {
            proof {
                assert(a@[i as int] != b@[i as int]);
                assert(a@ != b@);
            }
            return false;
        }
        i += 1;
    }
    proof {
        assert(a@ =~= b@);
    }
    true
}

/// A verified element-wise equality test on score tables.
pub fn eq_u64s(a: &Vec<u64>, b: &Vec<u64>) -> (r: bool)
    ensures
        r == (a@ == b@),
{
    if a.len() != b.len() {
        proof {
            assert(a@ != b@);
        }
        return false;
    }
    let mut i: usize = 0;
    while i < a.len()
        invariant
            i <= a@.len(),
            a@.len() == b@.len(),
            forall|k: int| 0 <= k < i ==> a@[k] == b@[k],
        decreases a@.len() - i,
    {
        if a[i] != b[i] {
            proof {
                assert(a@[i as int] != b@[i as int]);
                assert(a@ != b@);
            }
            return false;
        }
        i += 1;
    }
    proof {
        assert(a@ =~= b@);
    }
    true
}

} // verus!
