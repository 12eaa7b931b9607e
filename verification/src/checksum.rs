//! The desync detector: a deterministic fingerprint of simulation state,
//! exchanged across peers at a fixed tick cadence and compared — never
//! merged. A mismatch means the determinism contract was broken somewhere;
//! it is surfaced with full diagnostics and the session keeps running, since
//! no authoritative recovery state exists.

use vstd::prelude::*;
use crate::state::{GameState, StateModel, Player, Bullet, state_wf, bullet_ok, field_limit};

verus! {

/// The fingerprint's initial accumulator.
pub const DIGEST_OFFSET: u64 = 0xcbf29ce484222325;
/// The fingerprint's multiplier.
pub const DIGEST_PRIME: u64 = 0x100000001b3;
/// Added to a fixed-point coordinate before it is folded in, so that every
/// in-range coordinate encodes as the same small non-negative word on every
/// peer.
pub const COORD_BIAS: i64 = 0x100000000;

/// One mixing round: fold a word into the accumulator.
#[verifier::opaque]
pub open spec fn mix(h: u64, v: u64) -> u64 {
    (h ^ v).wrapping_mul(DIGEST_PRIME)
}

/// The biased encoding of a fixed-point coordinate.
pub open spec fn coord_word(v: int) -> u64 {
    (v + COORD_BIAS) as u64
}

/// A player's contribution: position, facing, and liveness.
pub open spec fn mix_player(h: u64, p: Player) -> u64 {
    mix(
        mix(
            mix(mix(mix(h, coord_word(p.pos_x as int)), coord_word(p.pos_y as int)), coord_word(
                p.face_x as int,
            )),
            coord_word(p.face_y as int),
        ),
        if p.alive {
            1u64
        } else {
            0u64
        },
    )
}

/// A bullet's contribution: owner, position, and facing.
pub open spec fn mix_bullet(h: u64, b: Bullet) -> u64 {
    mix(
        mix(
            mix(mix(mix(h, b.owner_id as u64), coord_word(b.pos_x as int)), coord_word(
                b.pos_y as int,
            )),
            coord_word(b.face_x as int),
        ),
        coord_word(b.face_y as int),
    )
}

/// The accumulator after folding in the first `n` players.
pub open spec fn players_digest(players: Seq<Player>, n: int, h: u64) -> u64
    decreases n,
{
    if n <= 0 {
        h
    } else {
        mix_player(players_digest(players, n - 1, h), players[n - 1])
    }
}

/// The accumulator after folding in the first `n` bullets.
pub open spec fn bullets_digest(bullets: Seq<Bullet>, n: int, h: u64) -> u64
    decreases n,
{
    if n <= 0 {
        h
    } else {
        mix_bullet(bullets_digest(bullets, n - 1, h), bullets[n - 1])
    }
}

/// The deterministic fingerprint of a state: every entity's position and
/// rotation data folded in a fixed order. Equal states have equal checksums.
pub open spec fn checksum_spec(m: StateModel) -> u64 {
    bullets_digest(
        m.bullets,
        m.bullets.len() as int,
        players_digest(m.players, m.players.len() as int, DIGEST_OFFSET),
    )
}

/// One mixing round, executed.
fn mix_exec(h: u64, v: u64) -> (r: u64)
    ensures
        r == mix(h, v),
{
    proof {
        reveal(mix);
    }
    (h ^ v).wrapping_mul(DIGEST_PRIME)
}

/// The biased encoding of a coordinate, executed.
fn coord_word_exec(v: i64) -> (r: u64)
    requires
        -0x1000000 <= v <= 0x1000000,
    ensures
        r == coord_word(v as int),
{
    (v + COORD_BIAS) as u64
}

impl GameState {
    /// The deterministic fingerprint of this state.
    #[verifier::loop_isolation(false)]
    #[verifier::rlimit(50)]
    pub fn checksum(&self) -> (r: u64)
        requires
            state_wf(self@),
        ensures
            r == checksum_spec(self@),
    {
        let mut h: u64 = DIGEST_OFFSET;
        let mut i: usize = 0;
        while i < self.players.len()
            invariant
                i <= self.players@.len(),
                h == players_digest(self.players@, i as int, DIGEST_OFFSET),
            decreases self.players@.len() - i,
        {
            let p = self.players[i];
            h = mix_exec(h, coord_word_exec(p.pos_x));
            h = mix_exec(h, coord_word_exec(p.pos_y));
            h = mix_exec(h, coord_word_exec(p.face_x));
            h = mix_exec(h, coord_word_exec(p.face_y));
            h = mix_exec(
                h,
                if p.alive {
                    1
                } else {
                    0
                },
            );
            i += 1;
        }
        let ghost hp = h;
        let mut j: usize = 0;
        while j < self.bullets.len()
            invariant
                j <= self.bullets@.len(),
                h == bullets_digest(self.bullets@, j as int, hp),
                hp == players_digest(self.players@, self.players@.len() as int, DIGEST_OFFSET),
            decreases self.bullets@.len() - j,
        {
            let b = self.bullets[j];
            proof {
                assert(bullet_ok(
                    self@.bullets[j as int],
                    field_limit(self@.width as int),
                    field_limit(self@.height as int),
                    self@.players.len() as int,
                ));
            }
            h = mix_exec(h, b.owner_id as u64);
            h = mix_exec(h, coord_word_exec(b.pos_x));
            h = mix_exec(h, coord_word_exec(b.pos_y));
            h = mix_exec(h, coord_word_exec(b.face_x));
            h = mix_exec(h, coord_word_exec(b.face_y));
            j += 1;
        }
        h
    }
}

/// A checksum recorded for one tick.
#[derive(Clone, Copy, PartialEq, Eq, Structural, Debug)]
pub struct ChecksumRecord {
    pub tick: u64,
    pub value: u64,
}

/// A detected divergence: the tick and both fingerprints, surfaced for
/// diagnostics — never silently corrected.
#[derive(Clone, Copy, PartialEq, Eq, Structural, Debug)]
pub struct DesyncReport {
    pub tick: u64,
    pub local: u64,
    pub remote: u64,
}

/// The first recorded value for a tick, if any.
pub open spec fn find_record(records: Seq<ChecksumRecord>, tick: u64) -> Option<u64>
    decreases records.len(),
{
    if records.len() == 0 {
        Option::None
    } else if records[0].tick == tick {
        Option::Some(records[0].value)
    } else {
        find_record(records.drop_first(), tick)
    }
}

/// Whether a checksum is due on a tick, for a given exchange interval.
pub open spec fn checksum_due(tick: u64, interval: u64) -> bool {
    interval > 0 && tick % interval == 0
}

/// The desync detector: it keeps the fingerprints this peer computed and the
/// ones its peer reported, and reports the first disagreement for a tick.
pub struct DesyncDetector {
    pub interval: u64,
    pub local: Vec<ChecksumRecord>,
    pub remote: Vec<ChecksumRecord>,
}

impl DesyncDetector {
    /// A detector that expects a checksum every `interval` ticks.
    pub fn new(interval: u64) -> (d: DesyncDetector)
        requires
            interval >= 1,
        ensures
            d.interval == interval,
            d.local@ == Seq::<ChecksumRecord>::empty(),
            d.remote@ == Seq::<ChecksumRecord>::empty(),
    {
        let d = DesyncDetector { interval, local: Vec::new(), remote: Vec::new() };
        proof {
            assert(d.local@ =~= Seq::<ChecksumRecord>::empty());
            assert(d.remote@ =~= Seq::<ChecksumRecord>::empty());
        }
        d
    }

    /// Whether this peer owes a checksum for a tick.
    pub fn due(&self, tick: u64) -> (r: bool)
        ensures
            r == checksum_due(tick, self.interval),
    {
        self.interval > 0 && tick % self.interval == 0
    }

    /// Records the fingerprint this peer computed for a tick, and reports a
    /// divergence exactly when the peer already reported a different value
    /// for the same tick.
    pub fn record_local(&mut self, tick: u64, value: u64) -> (r: Option<DesyncReport>)
        ensures
            final(self).interval == old(self).interval,
            final(self).remote == old(self).remote,
            final(self).local@ == old(self).local@.push(ChecksumRecord { tick, value }),
            r == match find_record(old(self).remote@, tick) {
                Option::Some(other) => {
                    if other != value {
                        Option::Some(DesyncReport { tick, local: value, remote: other })
                    } else {
                        Option::<DesyncReport>::None
                    }
                },
                Option::None => Option::<DesyncReport>::None,
            },
    {
        self.local.push(ChecksumRecord { tick, value });
        let other = find_record_exec(&self.remote, tick);
        match other {
            Option::Some(other) => {
                if other != value {
                    Option::Some(DesyncReport { tick, local: value, remote: other })
                } else {
                    Option::None
                }
            },
            Option::None => Option::None,
        }
    }

    /// Records the fingerprint the peer reported for a tick, and reports a
    /// divergence exactly when this peer already computed a different value
    /// for the same tick.
    pub fn record_remote(&mut self, tick: u64, value: u64) -> (r: Option<DesyncReport>)
        ensures
            final(self).interval == old(self).interval,
            final(self).local == old(self).local,
            final(self).remote@ == old(self).remote@.push(ChecksumRecord { tick, value }),
            r == match find_record(old(self).local@, tick) {
                Option::Some(mine) => {
                    if mine != value {
                        Option::Some(DesyncReport { tick, local: mine, remote: value })
                    } else {
                        Option::<DesyncReport>::None
                    }
                },
                Option::None => Option::<DesyncReport>::None,
            },
    {
        self.remote.push(ChecksumRecord { tick, value });
        let mine = find_record_exec(&self.local, tick);
        match mine {
            Option::Some(mine) => {
                if mine != value {
                    Option::Some(DesyncReport { tick, local: mine, remote: value })
                } else {
                    Option::None
                }
            },
            Option::None => Option::None,
        }
    }
}

/// The first recorded value for a tick, executed.
#[verifier::loop_isolation(false)]
fn find_record_exec(records: &Vec<ChecksumRecord>, tick: u64) -> (r: Option<u64>)
    ensures
        r == find_record(records@, tick),
{
    let mut i: usize = 0;
    proof {
        assert(records@.skip(0) =~= records@);
    }
    while i < records.len()
        invariant
            i <= records@.len(),
            find_record(records@, tick) == find_record(records@.skip(i as int), tick),
        decreases records@.len() - i,
    {
        if records[i].tick == tick {
            proof {
                assert(records@.skip(i as int)[0] == records@[i as int]);
            }
            return Option::Some(records[i].value);
        }
        proof {
            assert(records@.skip(i as int).drop_first() =~= records@.skip(i as int + 1));
        }
        i += 1;
    }
    proof {
        assert(records@.skip(i as int).len() == 0);
    }
    Option::None
}

} // verus!
