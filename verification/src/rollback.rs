//! The rollback core: speculative execution with resimulation.
//!
//! The session buffers confirmed inputs per player and per tick, advances the
//! simulation using confirmed inputs where it has them and predictions
//! (repeating the player's last confirmed input) where it does not, and keeps
//! a snapshot of the state before every simulated tick. When a confirmation
//! arrives for an already-simulated tick, the session rewinds to the snapshot
//! at that tick and resimulates forward with the corrected inputs — the same
//! pipeline, in the same order, so resimulated results are bit-identical to
//! what an always-correctly-predicted run would have produced.
//!
//! The session invariant `session_wf` pins every simulated row to
//! `resolved_row` of the confirmation table and every snapshot to `step_spec`
//! of its predecessor, so the whole history is a function of the confirmed
//! inputs, the initial state, and the tick count alone.

use vstd::prelude::*;
use crate::state::{GameState, StateModel, state_wf, MAX_PLAYERS, MAX_MAP_DIM, copy_vec, init_spec};
use crate::step::{step_spec, run_steps, lemma_step_players_len};
use crate::checksum::checksum_spec;

verus! {

/// The entry of a player's confirmation column at a tick: confirmed inputs
/// inside the column, nothing elsewhere.
pub open spec fn opt_at(c: Seq<Option<u8>>, i: int) -> Option<u8> {
    if 0 <= i < c.len() {
        c[i]
    } else {
        Option::None
    }
}

/// The predicted input for tick `t`: the player's last confirmed input
/// before `t`, or the all-zero mask if none was ever confirmed.
pub open spec fn predict(c: Seq<Option<u8>>, t: int) -> u8
    decreases t,
{
    if t <= 0 {
        0u8
    } else {
        match opt_at(c, t - 1) {
            Option::Some(v) => v,
            Option::None => predict(c, t - 1),
        }
    }
}

/// The input the simulation uses for tick `t`: the confirmed input if one
/// arrived, else the prediction.
pub open spec fn resolve(c: Seq<Option<u8>>, t: int) -> u8 {
    match opt_at(c, t) {
        Option::Some(v) => v,
        Option::None => predict(c, t),
    }
}

/// The input row the simulation uses for tick `t`, one mask per player.
pub open spec fn resolved_row(conf: Seq<Seq<Option<u8>>>, t: int) -> Seq<u8> {
    Seq::new(conf.len(), |p: int| resolve(conf[p], t))
}

/// A confirmation column extended with empty entries up to length `n`.
pub open spec fn padded(c: Seq<Option<u8>>, n: int) -> Seq<Option<u8>> {
    if n <= c.len() {
        c
    } else {
        c + Seq::new((n - c.len()) as nat, |i: int| Option::<u8>::None)
    }
}

/// A confirmation column with the input for one tick recorded.
pub open spec fn record_input(c: Seq<Option<u8>>, tick: int, v: u8) -> Seq<Option<u8>> {
    padded(c, tick + 1).update(tick, Option::Some(v))
}

/// The mathematical value of a rollback session.
#[verifier::ext_equal]
pub ghost struct SessionModel {
    pub confirmed: Seq<Seq<Option<u8>>>,
    pub used: Seq<Seq<u8>>,
    pub snapshots: Seq<StateModel>,
}

/// Confirming an input never changes what was already resolved for earlier
/// ticks: prediction looks only backward.
pub proof fn lemma_record_opt_at(c: Seq<Option<u8>>, tick: int, v: u8)
    requires
        0 <= tick,
    ensures
        opt_at(record_input(c, tick, v), tick) == Option::Some(v),
        forall|i: int| i != tick ==> opt_at(#[trigger] record_input(c, tick, v), i) == opt_at(c, i),
{
    let c2 = record_input(c, tick, v);
    assert forall|i: int| i != tick implies opt_at(c2, i) == opt_at(c, i) by {
        if 0 <= i < c2.len() {
            if i < c.len() {
                assert(c2[i] == c[i]);
            } else {
                assert(c2[i] == Option::<u8>::None);
            }
        }
    }
}

/// Predictions agree on columns whose entries agree below the tick.
pub proof fn lemma_predict_congruent(c1: Seq<Option<u8>>, c2: Seq<Option<u8>>, t: int)
    requires
        forall|i: int| 0 <= i < t ==> opt_at(c1, i) == opt_at(c2, i),
    ensures
        predict(c1, t) == predict(c2, t),
    decreases t,
{
    if t > 0 {
        lemma_predict_congruent(c1, c2, t - 1);
    }
}

/// Recording an input for one tick leaves every earlier tick's resolved
/// input unchanged.
pub proof fn lemma_resolve_unchanged(c: Seq<Option<u8>>, tick: int, v: u8, t: int)
    requires
        0 <= t < tick,
    ensures
        resolve(record_input(c, tick, v), t) == resolve(c, t),
{
    lemma_record_opt_at(c, tick, v);
    lemma_predict_congruent(record_input(c, tick, v), c, t);
}

/// The session invariant: at least one player column; one snapshot more than
/// simulated ticks; every simulated row is the resolved row of the
/// confirmation table; every snapshot is `step_spec` of its predecessor and
/// the row used; and every snapshot is a well-formed state with one player
/// per column.
pub open spec fn session_wf(s: SessionModel) -> bool {
    &&& 1 <= s.confirmed.len() <= MAX_PLAYERS
    &&& s.snapshots.len() == s.used.len() + 1
    &&& forall|t: int|
        0 <= t < s.used.len() ==> #[trigger] s.used[t] == resolved_row(s.confirmed, t)
    &&& forall|t: int|
        1 <= t <= s.used.len() ==> #[trigger] s.snapshots[t] == step_spec(
            s.snapshots[t - 1],
            s.used[t - 1],
        )
    &&& forall|t: int| 0 <= t < s.snapshots.len() ==> state_wf(#[trigger] s.snapshots[t])
    &&& forall|t: int|
        0 <= t < s.snapshots.len() ==> (#[trigger] s.snapshots[t]).players.len()
            == s.confirmed.len()
}

/// The error a confirmation can raise: the tick already holds a different
/// confirmed input, and confirmed inputs are immutable.
#[derive(Clone, Copy, PartialEq, Eq, Structural, Debug)]
pub enum InputError {
    AlreadyConfirmed,
}

/// A rollback session: the confirmation table, the input rows actually
/// simulated, and a snapshot of the state before every tick (the last
/// snapshot is the current state). `input_delay` is the number of ticks of
/// local input buffering the protocol applies before an input's target tick;
/// it bounds how far back a misprediction can reach.
pub struct RollbackSession {
    pub input_delay: usize,
    pub confirmed: Vec<Vec<Option<u8>>>,
    pub used: Vec<Vec<u8>>,
    pub snapshots: Vec<GameState>,
}

impl View for RollbackSession {
    type V = SessionModel;

    open spec fn view(&self) -> SessionModel {
        SessionModel {
            confirmed: self.confirmed@.map_values(|c: Vec<Option<u8>>| c@),
            used: self.used@.map_values(|r: Vec<u8>| r@),
            snapshots: self.snapshots@.map_values(|g: GameState| g@),
        }
    }
}

/// The input a player's confirmation column resolves for a tick.
#[verifier::loop_isolation(false)]
fn resolve_input(c: &Vec<Option<u8>>, t: usize) -> (r: u8)
    ensures
        r == resolve(c@, t as int),
{
    if t < c.len() {
        match c[t] {
            Option::Some(v) => {
                return v;
            },
            Option::None => {},
        }
    }
    let mut j: usize = if t < c.len() {
        t
    } else {
        c.len()
    };
    proof {
        if t as int >= c@.len() {
            lemma_predict_above(c@, t as int);
        }
    }
    while j > 0
        invariant
            j <= c@.len(),
            predict(c@, t as int) == predict(c@, j as int),
        decreases j,
    {
        match c[j - 1] {
            Option::Some(v) => {
                return v;
            },
            Option::None => {},
        }
        j -= 1;
    }
    0
}

/// Extends a confirmation column with empty entries so that `tick` indexes
/// into it.
#[verifier::loop_isolation(false)]
fn pad_column(col: &mut Vec<Option<u8>>, tick: usize)
    requires
        old(col)@.len() <= tick,
        tick < usize::MAX,
    ensures
        final(col)@ == padded(old(col)@, tick as int + 1),
{
    let ghost base = col@;
    while col.len() <= tick
        invariant
            base.len() <= col@.len() <= tick + 1,
            col@ == padded(base, col@.len() as int),
        decreases tick + 1 - col@.len(),
    {
        proof {
            assert(padded(base, col@.len() as int + 1) =~= padded(base, col@.len() as int).push(
                Option::<u8>::None,
            ));
        }
        col.push(Option::None);
    }
}

/// Prediction beyond the column's end repeats the prediction at its end.
pub proof fn lemma_predict_above(c: Seq<Option<u8>>, t: int)
    requires
        t >= c.len(),
    ensures
        predict(c, t) == predict(c, c.len() as int),
    decreases t,
{
    if t > c.len() {
        lemma_predict_above(c, t - 1);
    }
}

impl RollbackSession {
    /// Opens a session over a fresh match state: no inputs confirmed, no
    /// ticks simulated, the match-start state as the only snapshot.
    pub fn new(
        width: usize,
        height: usize,
        num_players: usize,
        input_delay: usize,
        seed: u64,
    ) -> (s: RollbackSession)
        requires
            1 <= width <= MAX_MAP_DIM,
            1 <= height <= MAX_MAP_DIM,
            1 <= num_players <= MAX_PLAYERS,
        ensures
            session_wf(s@),
            s@.confirmed.len() == num_players,
            forall|p: int|
                0 <= p < num_players ==> #[trigger] s@.confirmed[p] == Seq::<Option<u8>>::empty(),
            s@.used.len() == 0,
            s@.snapshots.len() == 1,
            s@.snapshots[0] == init_spec(width, height, num_players, seed),
            s.input_delay == input_delay,
    {
        let mut confirmed: Vec<Vec<Option<u8>>> = Vec::new();
        let mut p: usize = 0;
        while p < num_players
            invariant
                p <= num_players,
                confirmed@.len() == p,
                forall|k: int| 0 <= k < p ==> (#[trigger] confirmed@[k])@.len() == 0,
            decreases num_players - p,
        {
            confirmed.push(Vec::new());
            p += 1;
        }
        let mut snapshots: Vec<GameState> = Vec::new();
        snapshots.push(GameState::new(width, height, num_players, seed));
        let s = RollbackSession { input_delay, confirmed, used: Vec::new(), snapshots };
        proof {
            assert forall|k: int| 0 <= k < num_players implies #[trigger] s@.confirmed[k] == Seq::<
                Option<u8>,
            >::empty() by {
                assert(s@.confirmed[k] =~= Seq::<Option<u8>>::empty());
            }
            assert(s@.used =~= Seq::<Seq<u8>>::empty());
        }
        s
    }

    /// The number of ticks simulated so far; the next call to `advance`
    /// simulates this tick.
    pub fn current_tick(&self) -> (t: usize)
        ensures
            t == self@.used.len(),
    {
        self.used.len()
    }

    /// The current simulation state: the snapshot after the last simulated
    /// tick.
    pub fn state(&self) -> (g: &GameState)
        requires
            session_wf(self@),
        ensures
            g@ == self@.snapshots[self@.used.len() as int],
            state_wf(g@),
    {
        &self.snapshots[self.snapshots.len() - 1]
    }

    /// The input row the session would use for a tick right now: confirmed
    /// where confirmations arrived, predicted elsewhere.
    #[verifier::loop_isolation(false)]
    fn resolve_row(&self, t: usize) -> (row: Vec<u8>)
        ensures
            row@ == resolved_row(self@.confirmed, t as int),
    {
        let mut row: Vec<u8> = Vec::new();
        let mut p: usize = 0;
        while p < self.confirmed.len()
            invariant
                p <= self.confirmed@.len(),
                row@.len() == p,
                forall|k: int| 0 <= k < p ==> row@[k] == resolve(self@.confirmed[k], t as int),
            decreases self.confirmed@.len() - p,
        {
            let v = resolve_input(&self.confirmed[p], t);
            row.push(v);
            p += 1;
        }
        proof {
            assert(row@ =~= resolved_row(self@.confirmed, t as int));
        }
        row
    }

    /// Simulates one tick forward, with zero suspension: local and confirmed
    /// remote inputs are used as they stand, and a missing remote input is
    /// predicted by repeating that player's last confirmed input.
    pub fn advance(&mut self)
        requires
            session_wf(old(self)@),
        ensures
            session_wf(final(self)@),
            final(self).input_delay == old(self).input_delay,
            final(self)@.confirmed == old(self)@.confirmed,
            final(self)@.used == old(self)@.used.push(
                resolved_row(old(self)@.confirmed, old(self)@.used.len() as int),
            ),
            final(self)@.snapshots == old(self)@.snapshots.push(
                step_spec(
                    old(self)@.snapshots[old(self)@.used.len() as int],
                    resolved_row(old(self)@.confirmed, old(self)@.used.len() as int),
                ),
            ),
    {
        let t = self.used.len();
        let row = self.resolve_row(t);
        let mut st = self.snapshots[self.snapshots.len() - 1].duplicate();
        proof {
            lemma_step_players_len(self@.snapshots[t as int], row@);
        }
        st.step(&row);
        self.snapshots.push(st);
        self.used.push(row);
        proof {
            assert(self@.used =~= old(self)@.used.push(
                resolved_row(old(self)@.confirmed, t as int),
            ));
            assert(self@.snapshots =~= old(self)@.snapshots.push(
                step_spec(
                    old(self)@.snapshots[t as int],
                    resolved_row(old(self)@.confirmed, t as int),
                ),
            ));
            assert(self@.confirmed =~= old(self)@.confirmed);
        }
    }

    /// Records the input in the player's confirmation column, leaving the
    /// simulated history untouched.
    #[verifier::loop_isolation(false)]
    fn record_column(&mut self, player: usize, tick: usize, value: u8)
        requires
            player < old(self)@.confirmed.len(),
            tick < usize::MAX,
        ensures
            final(self)@.confirmed == old(self)@.confirmed.update(
                player as int,
                record_input(old(self)@.confirmed[player as int], tick as int, value),
            ),
            final(self)@.used == old(self)@.used,
            final(self)@.snapshots == old(self)@.snapshots,
            final(self).input_delay == old(self).input_delay,
    {
        let ghost old_col = self@.confirmed[player as int];
        let mut col: Vec<Option<u8>> = copy_vec(&self.confirmed[player]);
        if col.len() <= tick {
            pad_column(&mut col, tick);
        }
        col[tick] = Option::Some(value);
        proof {
            assert(col@ =~= record_input(old_col, tick as int, value));
        }
        self.confirmed[player] = col;
        proof {
            assert(self@.confirmed =~= old(self)@.confirmed.update(
                player as int,
                record_input(old_col, tick as int, value),
            ));
        }
    }

    /// Rewinds to the snapshot at `from` and resimulates every simulated
    /// tick from there with the inputs the confirmation table now resolves:
    /// the same pipeline in the same order, so the corrected history is
    /// bit-identical to a run that had predicted correctly.
    #[verifier::loop_isolation(false)]
    #[verifier::rlimit(100)]
    fn resimulate_from(&mut self, from: usize)
        requires
            1 <= old(self)@.confirmed.len() <= MAX_PLAYERS,
            old(self)@.snapshots.len() == old(self)@.used.len() + 1,
            forall|u: int|
                0 <= u < old(self)@.used.len() && u < from ==> #[trigger] old(self)@.used[u]
                    == resolved_row(old(self)@.confirmed, u),
            forall|u: int|
                1 <= u <= old(self)@.used.len() && u <= from ==> #[trigger] old(self)@.snapshots[u]
                    == step_spec(old(self)@.snapshots[u - 1], old(self)@.used[u - 1]),
            forall|u: int|
                0 <= u < old(self)@.snapshots.len() ==> state_wf(#[trigger] old(self)@.snapshots[u]),
            forall|u: int|
                0 <= u < old(self)@.snapshots.len() ==> (
                #[trigger] old(self)@.snapshots[u]).players.len() == old(self)@.confirmed.len(),
        ensures
            session_wf(final(self)@),
            final(self)@.confirmed == old(self)@.confirmed,
            final(self)@.used.len() == old(self)@.used.len(),
            final(self)@.snapshots[0] == old(self)@.snapshots[0],
            final(self).input_delay == old(self).input_delay,
            from >= old(self)@.used.len() ==> final(self)@ == old(self)@,
    {
        let ghost conf = self@.confirmed;
        let mut t = from;
        if t >= self.used.len() {
            return ;
        }
        while t < self.used.len()
            invariant
                t <= self@.used.len(),
                self@.confirmed == conf,
                self@.used.len() == old(self)@.used.len(),
                self@.snapshots.len() == old(self)@.snapshots.len(),
                self@.snapshots[0] == old(self)@.snapshots[0],
                self.input_delay == old(self).input_delay,
                forall|u: int|
                    0 <= u < self@.used.len() && u < t ==> #[trigger] self@.used[u] == resolved_row(
                        conf,
                        u,
                    ),
                forall|u: int|
                    1 <= u <= self@.used.len() && u <= t ==> #[trigger] self@.snapshots[u]
                        == step_spec(self@.snapshots[u - 1], self@.used[u - 1]),
                forall|u: int|
                    0 <= u < self@.snapshots.len() ==> state_wf(#[trigger] self@.snapshots[u]),
                forall|u: int|
                    0 <= u < self@.snapshots.len() ==> (#[trigger] self@.snapshots[u]).players.len()
                        == conf.len(),
            decreases self@.used.len() - t,
        {
            let row = self.resolve_row(t);
            let mut st = self.snapshots[t].duplicate();
            proof {
                lemma_step_players_len(self@.snapshots[t as int], row@);
            }
            st.step(&row);
            let next: usize = t + 1;
            let ghost pre = self@;
            let ghost stepped = st@;
            self.snapshots[next] = st;
            self.used[t] = row;
            proof {
                assert(self@.snapshots =~= pre.snapshots.update(next as int, stepped));
                assert(self@.used =~= pre.used.update(t as int, row@));
            }
            t = next;
        }
    }

    /// Records the confirmed input of one player for one tick. A confirmed
    /// input is immutable: a second confirmation with a different value is
    /// refused and changes nothing. If the tick was already simulated, the
    /// session rolls back to the snapshot at that tick and resimulates
    /// forward with the corrected inputs — the designed steady-state
    /// response to late remote input, not a failure.
    pub fn confirm_input(&mut self, player: usize, tick: usize, value: u8) -> (r: Result<
        (),
        InputError,
    >)
        requires
            session_wf(old(self)@),
            player < old(self)@.confirmed.len(),
            tick < usize::MAX,
        ensures
            session_wf(final(self)@),
            final(self).input_delay == old(self).input_delay,
            final(self)@.used.len() == old(self)@.used.len(),
            final(self)@.snapshots[0] == old(self)@.snapshots[0],
            (r is Err) == (opt_at(old(self)@.confirmed[player as int], tick as int) is Some
                && opt_at(old(self)@.confirmed[player as int], tick as int)
                != Option::Some(value)),
            match r {
                Result::Ok(()) => final(self)@.confirmed == old(self)@.confirmed.update(
                    player as int,
                    record_input(old(self)@.confirmed[player as int], tick as int, value),
                ),
                Result::Err(e) => e == InputError::AlreadyConfirmed && final(self)@ == old(
                    self,
                )@,
            },
            tick >= old(self)@.used.len() ==> (final(self)@.used == old(self)@.used
                && final(self)@.snapshots == old(self)@.snapshots),
    {
        let ghost old_model = self@;
        if tick < self.confirmed[player].len() {
            match self.confirmed[player][tick] {
                Option::Some(existing) => {
                    if existing != value {
                        return Result::Err(InputError::AlreadyConfirmed);
                    }
                },
                Option::None => {},
            }
        }
        self.record_column(player, tick, value);
        proof {
            let new_conf = self@.confirmed;
            assert forall|u: int| 0 <= u < tick implies resolved_row(new_conf, u) == resolved_row(
                old_model.confirmed,
                u,
            ) by {
                lemma_resolve_unchanged(
                    old_model.confirmed[player as int],
                    tick as int,
                    value,
                    u,
                );
                assert(resolved_row(new_conf, u) =~= resolved_row(old_model.confirmed, u));
            }
        }
        self.resimulate_from(tick);
        Result::Ok(())
    }

    /// Submits this peer's own input for the next tick the configured input
    /// delay allows: it is confirmed for `current_tick + input_delay`, never
    /// for an already-simulated tick. This buffering is what bounds rollback
    /// depth: a peer that schedules every local input this way never
    /// confirms a tick more than `input_delay` behind the tick its remote
    /// counterpart is about to simulate, so a misprediction can reach back
    /// at most that far. Returns the tick the input was scheduled for.
    pub fn submit_local(&mut self, player: usize, value: u8) -> (r: Result<usize, InputError>)
        requires
            session_wf(old(self)@),
            player < old(self)@.confirmed.len(),
            old(self)@.used.len() + old(self).input_delay < usize::MAX,
        ensures
            session_wf(final(self)@),
            final(self).input_delay == old(self).input_delay,
            final(self)@.used == old(self)@.used,
            final(self)@.snapshots == old(self)@.snapshots,
            ({
                let target = old(self)@.used.len() + old(self).input_delay;
                &&& (r is Err) == (opt_at(old(self)@.confirmed[player as int], target as int)
                    is Some && opt_at(old(self)@.confirmed[player as int], target as int)
                    != Option::Some(value))
                &&& match r {
                    Result::Ok(tick) => tick == target && final(self)@.confirmed == old(
                        self,
                    )@.confirmed.update(
                        player as int,
                        record_input(old(self)@.confirmed[player as int], target as int, value),
                    ),
                    Result::Err(e) => e == InputError::AlreadyConfirmed && final(self)@ == old(
                        self,
                    )@,
                }
            }),
    {
        let target = self.used.len() + self.input_delay;
        match self.confirm_input(player, target, value) {
            Result::Ok(()) => Result::Ok(target),
            Result::Err(e) => Result::Err(e),
        }
    }
}

// ---------------------------------------------------------------------------
// Laws.
// ---------------------------------------------------------------------------

/// Determinism: two simulations started from the same state and fed the same
/// per-tick input rows reach the same state, with the same checksum.
pub proof fn lemma_determinism(
    m1: StateModel,
    m2: StateModel,
    rows1: Seq<Seq<u8>>,
    rows2: Seq<Seq<u8>>,
)
    requires
        m1 == m2,
        rows1 == rows2,
    ensures
        run_steps(m1, rows1) == run_steps(m2, rows2),
        checksum_spec(run_steps(m1, rows1)) == checksum_spec(run_steps(m2, rows2)),
{
}

/// Determinism across peers: two well-formed sessions that hold the same
/// confirmed inputs, started from the same state and simulated for the same
/// number of ticks, hold identical simulated histories — and so identical
/// checksums at every tick.
pub proof fn lemma_session_determinism(s1: SessionModel, s2: SessionModel)
    requires
        session_wf(s1),
        session_wf(s2),
        s1.confirmed == s2.confirmed,
        s1.snapshots[0] == s2.snapshots[0],
        s1.used.len() == s2.used.len(),
    ensures
        s1.used == s2.used,
        s1.snapshots == s2.snapshots,
        forall|t: int|
            0 <= t < s1.snapshots.len() ==> checksum_spec(#[trigger] s1.snapshots[t])
                == checksum_spec(s2.snapshots[t]),
{
    assert forall|t: int| 0 <= t < s1.used.len() implies #[trigger] s1.used[t] == s2.used[t] by {
        assert(s1.used[t] == resolved_row(s1.confirmed, t));
        assert(s2.used[t] == resolved_row(s2.confirmed, t));
    }
    assert(s1.used =~= s2.used);
    assert forall|t: int| 0 <= t < s1.snapshots.len() implies #[trigger] s1.snapshots[t]
        == s2.snapshots[t] by {
        lemma_snapshots_prefix(s1, s2, t);
    }
    assert(s1.snapshots =~= s2.snapshots);
}

/// The snapshot at each tick agrees between two sessions with equal inputs.
proof fn lemma_snapshots_prefix(s1: SessionModel, s2: SessionModel, t: int)
    requires
        session_wf(s1),
        session_wf(s2),
        s1.confirmed == s2.confirmed,
        s1.snapshots[0] == s2.snapshots[0],
        s1.used.len() == s2.used.len(),
        0 <= t < s1.snapshots.len(),
    ensures
        s1.snapshots[t] == s2.snapshots[t],
    decreases t,
{
    if t > 0 {
        lemma_snapshots_prefix(s1, s2, t - 1);
        assert(s1.used[t - 1] == resolved_row(s1.confirmed, t - 1));
        assert(s2.used[t - 1] == resolved_row(s2.confirmed, t - 1));
        assert(s1.snapshots[t] == step_spec(s1.snapshots[t - 1], s1.used[t - 1]));
        assert(s2.snapshots[t] == step_spec(s2.snapshots[t - 1], s2.used[t - 1]));
    }
}

/// Running a sequence of rows and then one more row is one more step.
pub proof fn lemma_run_steps_snoc(m: StateModel, rows: Seq<Seq<u8>>, r: Seq<u8>)
    ensures
        run_steps(m, rows.push(r)) == step_spec(run_steps(m, rows), r),
    decreases rows.len(),
{
    if rows.len() == 0 {
        assert(rows.push(r)[0] == r);
        assert(rows.push(r).drop_first() =~= rows);
        assert(run_steps(m, rows.push(r)) == run_steps(step_spec(m, r), rows));
        assert(run_steps(m, rows) == m);
    } else {
        lemma_run_steps_snoc(step_spec(m, rows[0]), rows.drop_first(), r);
        assert(rows.push(r)[0] == rows[0]);
        assert(rows.push(r).drop_first() =~= rows.drop_first().push(r));
        assert(run_steps(m, rows.push(r)) == run_steps(
            step_spec(m, rows[0]),
            rows.drop_first().push(r),
        ));
        assert(run_steps(m, rows) == run_steps(step_spec(m, rows[0]), rows.drop_first()));
    }
}

/// Rollback idempotence: resimulating ticks `[k, t)` from the snapshot at
/// `k`, with the same input rows the forward run used, reproduces the
/// forward run's snapshot at `t` exactly.
pub proof fn lemma_rollback_idempotent(s: SessionModel, k: int, t: int)
    requires
        session_wf(s),
        0 <= k <= t <= s.used.len(),
    ensures
        s.snapshots[t] == run_steps(s.snapshots[k], s.used.subrange(k, t)),
    decreases t - k,
{
    if t == k {
        assert(s.used.subrange(k, k) =~= Seq::<Seq<u8>>::empty());
    } else {
        lemma_rollback_idempotent(s, k, t - 1);
        lemma_run_steps_snoc(s.snapshots[k], s.used.subrange(k, t - 1), s.used[t - 1]);
        assert(s.used.subrange(k, t - 1).push(s.used[t - 1]) =~= s.used.subrange(k, t));
    }
}

} // verus!
