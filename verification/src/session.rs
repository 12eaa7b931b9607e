//! The session manager: match topology, per-session parameters, and the
//! session seed.
//!
//! The manager moves through `AssetLoading -> Matchmaking -> InGame`. In
//! matchmaking it either waits for exactly the expected number of peers
//! (networked play) or synthesizes a self-contained session at once
//! (synctest / local two-pad play). The session seed is the XOR of all
//! peers' unique identifiers, so every peer derives the same seed without
//! coordination. Registering players and starting the session either fully
//! succeeds or reports an error the caller must treat as fatal: a
//! half-configured session is never allowed to run.

use vstd::prelude::*;
use crate::state::MAX_PLAYERS;

verus! {

/// Ticks of local input buffering applied by default.
pub const DEFAULT_INPUT_DELAY: usize = 2;
/// Default checksum exchange interval, in ticks.
pub const DEFAULT_CHECK_INTERVAL: u64 = 10;
/// Default terrain width, in tiles.
pub const DEFAULT_MAP_WIDTH: usize = 1000;
/// Default terrain height, in tiles.
pub const DEFAULT_MAP_HEIGHT: usize = 500;
/// Players in a standard match.
pub const DEFAULT_NUM_PLAYERS: usize = 2;

/// How a session runs: peer-to-peer over the network, self-playing both
/// sides to validate determinism, or two pads on one machine.
#[derive(Clone, Copy, PartialEq, Eq, Structural, Debug)]
pub enum SessionMode {
    P2p,
    SyncTest,
    Local,
}

/// The session manager's phase. Asset loading is external and only gates
/// entry; matchmaking waits for peers; in game, the rollback session owns
/// the match.
#[derive(Clone, Copy, PartialEq, Eq, Structural, Debug)]
pub enum SessionPhase {
    AssetLoading,
    Matchmaking,
    InGame,
}

/// The per-session parameters the manager negotiates.
#[derive(Clone, Copy, PartialEq, Eq, Structural, Debug)]
pub struct SessionConfig {
    pub mode: SessionMode,
    pub num_players: usize,
    pub input_delay: usize,
    pub check_interval: u64,
}

/// Why a configuration was refused.
#[derive(Clone, Copy, PartialEq, Eq, Structural, Debug)]
pub enum ConfigError {
    BadPlayerCount,
    BadCheckInterval,
}

/// The input delay a mode actually runs with: local two-pad play needs no
/// buffering, every other mode keeps the requested delay.
pub open spec fn effective_delay(mode: SessionMode, requested: usize) -> usize {
    if mode == SessionMode::Local {
        0usize
    } else {
        requested
    }
}

impl SessionConfig {
    /// Validates and builds a session configuration. Each error names the
    /// first parameter out of range: the player count must be between 1 and
    /// the supported maximum, and the checksum interval at least one tick.
    /// Any input delay is accepted, as in the command-line surface.
    pub fn new(
        mode: SessionMode,
        num_players: usize,
        input_delay: usize,
        check_interval: u64,
    ) -> (r: Result<SessionConfig, ConfigError>)
        ensures
            match r {
                Result::Ok(c) => {
                    &&& 1 <= num_players <= MAX_PLAYERS
                    &&& check_interval >= 1
                    &&& c.mode == mode
                    &&& c.num_players == num_players
                    &&& c.input_delay == effective_delay(mode, input_delay)
                    &&& c.check_interval == check_interval
                },
                Result::Err(e) => {
                    &&& e == ConfigError::BadPlayerCount <==> (num_players < 1 || num_players
                        > MAX_PLAYERS)
                    &&& e == ConfigError::BadCheckInterval <==> (1 <= num_players <= MAX_PLAYERS
                        && check_interval < 1)
                },
            },
            (r is Err) == (num_players < 1 || num_players > MAX_PLAYERS || check_interval < 1),
    {
        if num_players < 1 || num_players > MAX_PLAYERS {
            return Result::Err(ConfigError::BadPlayerCount);
        }
        if check_interval < 1 {
            return Result::Err(ConfigError::BadCheckInterval);
        }
        let delay = if matches!(mode, SessionMode::Local) {
            0
        } else {
            input_delay
        };
        Result::Ok(SessionConfig { mode, num_players, input_delay: delay, check_interval })
    }
}

/// Leaving asset loading: the only transition out of the first phase.
pub fn assets_loaded(phase: SessionPhase) -> (next: SessionPhase)
    ensures
        next == if phase == SessionPhase::AssetLoading {
            SessionPhase::Matchmaking
        } else {
            phase
        },
{
    match phase {
        SessionPhase::AssetLoading => SessionPhase::Matchmaking,
        other => other,
    }
}

/// One matchmaking poll: reaching the expected peer count is the sole
/// condition to enter the game; short of it the manager keeps waiting.
pub fn matchmaking_step(phase: SessionPhase, peers_present: usize, num_players: usize) -> (r: (
    SessionPhase,
    bool,
))
    ensures
        r == if phase == SessionPhase::Matchmaking && peers_present >= num_players {
            (SessionPhase::InGame, true)
        } else {
            (phase, false)
        },
{
    if matches!(phase, SessionPhase::Matchmaking) && peers_present >= num_players {
        (SessionPhase::InGame, true)
    } else {
        (phase, false)
    }
}

/// Why registering a player or starting the session failed; each is fatal
/// to startup, since a partly configured session must never run.
#[derive(Clone, Copy, PartialEq, Eq, Structural, Debug)]
pub enum SessionError {
    HandleOutOfRange,
    SlotTaken,
    NotReady,
}

/// The XOR of the identifiers in the first `n` slots (empty slots
/// contribute nothing). XOR makes the seed independent of the order peers
/// were discovered in: any peer folds the same set of identifiers to the
/// same value.
pub open spec fn seed_of_slots(slots: Seq<Option<u64>>, n: int) -> u64
    decreases n,
{
    if n <= 0 {
        0u64
    } else {
        match slots[n - 1] {
            Option::Some(id) => seed_of_slots(slots, n - 1) ^ id,
            Option::None => seed_of_slots(slots, n - 1),
        }
    }
}

/// What one slot contributes to the seed.
pub open spec fn slot_word(slot: Option<u64>) -> u64 {
    match slot {
        Option::Some(id) => id,
        Option::None => 0u64,
    }
}

/// One step of the seed fold, with an empty slot contributing the XOR
/// identity.
proof fn lemma_seed_unfold(slots: Seq<Option<u64>>, n: int)
    requires
        0 < n,
    ensures
        seed_of_slots(slots, n) == seed_of_slots(slots, n - 1) ^ slot_word(slots[n - 1]),
{
    let a = seed_of_slots(slots, n - 1);
    match slots[n - 1] {
        Option::Some(_) => {},
        Option::None => {
            assert(a ^ 0u64 == a) by (bit_vector);
        },
    }
}

/// Replacing one slot replaces exactly its contribution to the seed.
proof fn lemma_seed_update(slots: Seq<Option<u64>>, k: int, v: Option<u64>, n: int)
    requires
        0 <= k < n,
        n <= slots.len(),
    ensures
        seed_of_slots(slots.update(k, v), n) == seed_of_slots(slots, n) ^ slot_word(slots[k])
            ^ slot_word(v),
    decreases n,
{
    let s2 = slots.update(k, v);
    if k == n - 1 {
        let a = seed_of_slots(slots, n - 1);
        assert(seed_of_slots(s2, n - 1) == a) by {
            lemma_seed_congruent(slots, s2, n - 1);
        }
        let w = slot_word(slots[k]);
        let u = slot_word(v);
        lemma_seed_unfold(slots, n);
        lemma_seed_unfold(s2, n);
        assert(seed_of_slots(slots, n) == a ^ w);
        assert(seed_of_slots(s2, n) == a ^ u);
        assert(a ^ u == (a ^ w) ^ w ^ u) by (bit_vector);
    } else {
        lemma_seed_update(slots, k, v, n - 1);
        let a = seed_of_slots(slots, n - 1);
        let w = slot_word(slots[k]);
        let u = slot_word(v);
        let x = slot_word(slots[n - 1]);
        assert(s2[n - 1] == slots[n - 1]);
        lemma_seed_unfold(slots, n);
        lemma_seed_unfold(s2, n);
        assert(seed_of_slots(s2, n) == (a ^ w ^ u) ^ x);
        assert(seed_of_slots(slots, n) == a ^ x);
        assert((a ^ w ^ u) ^ x == (a ^ x) ^ w ^ u) by (bit_vector);
    }
}

/// Two rosters equal on their first `n` slots fold to the same seed.
proof fn lemma_seed_congruent(s1: Seq<Option<u64>>, s2: Seq<Option<u64>>, n: int)
    requires
        forall|i: int| 0 <= i < n ==> s1[i] == s2[i],
    ensures
        seed_of_slots(s1, n) == seed_of_slots(s2, n),
    decreases n,
{
    if n > 0 {
        lemma_seed_congruent(s1, s2, n - 1);
    }
}

/// The session seed is order-independent: exchanging the identifiers of any
/// two slots leaves the seed unchanged, so every peer derives the same seed
/// from the same set of peers however its matchmaking happened to assign
/// them.
pub proof fn lemma_seed_order_independent(slots: Seq<Option<u64>>, i: int, j: int)
    requires
        0 <= i < slots.len(),
        0 <= j < slots.len(),
    ensures
        seed_of_slots(slots.update(i, slots[j]).update(j, slots[i]), slots.len() as int)
            == seed_of_slots(slots, slots.len() as int),
{
    let n = slots.len() as int;
    if i == j {
        lemma_seed_congruent(slots.update(i, slots[j]).update(j, slots[i]), slots, n);
    } else {
        let once = slots.update(i, slots[j]);
        lemma_seed_update(slots, i, slots[j], n);
        lemma_seed_update(once, j, slots[i], n);
        assert(once[j] == slots[j]);
        let a = seed_of_slots(slots, n);
        let wi = slot_word(slots[i]);
        let wj = slot_word(slots[j]);
        assert(((a ^ wi ^ wj) ^ wj) ^ wi == a) by (bit_vector);
    }
}

/// The roster a session is built from: one slot per player handle, each
/// filled once with the peer's unique identifier.
pub struct PlayerRegistry {
    pub slots: Vec<Option<u64>>,
}

impl PlayerRegistry {
    /// An empty roster with one slot per handle.
    pub fn new(num_players: usize) -> (r: PlayerRegistry)
        requires
            1 <= num_players <= MAX_PLAYERS,
        ensures
            r.slots@.len() == num_players,
            forall|i: int| 0 <= i < num_players ==> r.slots@[i] is None,
    {
        let mut slots: Vec<Option<u64>> = Vec::new();
        let mut i: usize = 0;
        while i < num_players
            invariant
                i <= num_players,
                slots@.len() == i,
                forall|k: int| 0 <= k < i ==> slots@[k] is None,
            decreases num_players - i,
        {
            slots.push(Option::None);
            i += 1;
        }
        PlayerRegistry { slots }
    }

    /// Registers a peer under a player handle. The handle must name a slot
    /// and the slot must be free; otherwise nothing changes and the error
    /// says which condition failed.
    pub fn add_player(&mut self, handle: usize, peer_id: u64) -> (r: Result<(), SessionError>)
        ensures
            (r is Ok) == (handle < old(self).slots@.len() && old(self).slots@[handle as int]
                is None),
            (r == Result::<(), SessionError>::Err(SessionError::HandleOutOfRange)) == (handle
                >= old(self).slots@.len()),
            (r == Result::<(), SessionError>::Err(SessionError::SlotTaken)) == (handle < old(
                self,
            ).slots@.len() && old(self).slots@[handle as int] is Some),
            match r {
                Result::Ok(()) => final(self).slots@ == old(self).slots@.update(
                    handle as int,
                    Option::Some(peer_id),
                ),
                Result::Err(_) => final(self).slots@ == old(self).slots@,
            },
    {
        if handle >= self.slots.len() {
            return Result::Err(SessionError::HandleOutOfRange);
        }
        match self.slots[handle] {
            Option::Some(_) => Result::Err(SessionError::SlotTaken),
            Option::None => {
                self.slots[handle] = Option::Some(peer_id);
                Result::Ok(())
            },
        }
    }

    /// Derives the session seed: the XOR of every registered peer's
    /// identifier. Succeeds exactly when every slot is filled; short of
    /// that, the session must not start.
    #[verifier::loop_isolation(false)]
    pub fn session_seed(&self) -> (r: Result<u64, SessionError>)
        ensures
            (r is Ok) == (forall|i: int| 0 <= i < self.slots@.len() ==> self.slots@[i] is Some),
            match r {
                Result::Ok(seed) => seed == seed_of_slots(self.slots@, self.slots@.len() as int),
                Result::Err(e) => e == SessionError::NotReady,
            },
    {
        let mut seed: u64 = 0;
        let mut i: usize = 0;
        while i < self.slots.len()
            invariant
                i <= self.slots@.len(),
                seed == seed_of_slots(self.slots@, i as int),
                forall|k: int| 0 <= k < i ==> self.slots@[k] is Some,
            decreases self.slots@.len() - i,
        {
            match self.slots[i] {
                Option::Some(id) => {
                    seed = seed ^ id;
                },
                Option::None => {
                    return Result::Err(SessionError::NotReady);
                },
            }
            i += 1;
        }
        Result::Ok(seed)
    }
}

} // verus!
