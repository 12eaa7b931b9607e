//! The deterministic pseudo-random generator behind respawn placement.
//!
//! The generator state is a plain `u64` held inside the simulation state, so
//! snapshots and rollback capture it like any other field. Advancing it is
//! delegated to the `fastrand` crate; the simulation only ever consumes the
//! drawn value through verified arithmetic.

use vstd::prelude::*;

verus! {

/// What one step of `fastrand`'s wyrand generator returns for a given state:
/// the advanced state and the drawn value. The result is a function of the
/// state alone, so peers that hold equal generator states draw equal values.
pub uninterp spec fn wyrand_next(state: u64) -> (u64, u64);

/// Relies on `fastrand::Rng::with_seed`, `Rng::u64` over the full range and
/// `Rng::get_seed`: `with_seed` stores the seed as the generator state, one
/// full-range `u64` draw advances that state and yields a value computed
/// from the prior state alone, and `get_seed` reads the advanced state back.
#[verifier::external_body]
pub(crate) fn rng_next(state: u64) -> (r: (u64, u64))
    ensures
        r == wyrand_next(state),
{
    let mut rng = fastrand::Rng::with_seed(state);
    let value = rng.u64(..);
    (rng.get_seed(), value)
}

/// Folding a drawn value into `[-lim, lim]`.
pub open spec fn spread(value: u64, lim: int) -> int {
    (value as int) % (2 * lim + 1) - lim
}

/// Draws one coordinate in `[-lim, lim]` from the generator, returning the
/// advanced generator state with it.
pub(crate) fn draw_coord(state: u64, lim: i64) -> (r: (u64, i64))
    requires
        0 <= lim <= 0x100000,
    ensures
        r.0 == wyrand_next(state).0,
        r.1 as int == spread(wyrand_next(state).1, lim as int),
        -lim <= r.1 <= lim,
{
    let (next_state, value) = rng_next(state);
    let modulus: u64 = (2 * lim + 1) as u64;
    let folded: u64 = value % modulus;
    let coord: i64 = (folded as i64) - lim;
    (next_state, coord)
}

} // verus!
