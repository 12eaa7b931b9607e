//! Input encoding: one compact bitmask per player per tick.
//!
//! Five independent flags (up, down, left, right, fire) are packed into a
//! `u8`. The movement direction derived from a mask is a fixed-point unit
//! vector: axis-aligned components are `+-UNIT`, diagonal components are
//! `+-UNIT_DIAG` (`UNIT / sqrt(2)`, rounded), so that diagonal movement has
//! the same speed as axis-aligned movement up to rounding.

use vstd::prelude::*;

verus! {

/// Bit for the "up" control.
pub const INPUT_UP: u8 = 1;
/// Bit for the "down" control.
pub const INPUT_DOWN: u8 = 2;
/// Bit for the "left" control.
pub const INPUT_LEFT: u8 = 4;
/// Bit for the "right" control.
pub const INPUT_RIGHT: u8 = 8;
/// Bit for the "fire" control.
pub const INPUT_FIRE: u8 = 16;

/// Fixed-point length of a unit vector component along an axis.
pub const UNIT: i64 = 256;
/// Fixed-point length of each component of a diagonal unit vector.
pub const UNIT_DIAG: i64 = 181;

/// Whether the "up" flag is set in a mask.
pub open spec fn up_set(input: u8) -> bool {
    input & INPUT_UP != 0
}

/// Whether the "down" flag is set in a mask.
pub open spec fn down_set(input: u8) -> bool {
    input & INPUT_DOWN != 0
}

/// Whether the "left" flag is set in a mask.
pub open spec fn left_set(input: u8) -> bool {
    input & INPUT_LEFT != 0
}

/// Whether the "right" flag is set in a mask.
pub open spec fn right_set(input: u8) -> bool {
    input & INPUT_RIGHT != 0
}

/// Whether the "fire" flag is set in a mask.
pub open spec fn fire_set(input: u8) -> bool {
    input & INPUT_FIRE != 0
}

/// The mask that encodes the five control flags.
pub open spec fn encode_spec(up: bool, down: bool, left: bool, right: bool, fire: bool) -> u8 {
    (if up { INPUT_UP } else { 0 }) | (if down { INPUT_DOWN } else { 0 })
        | (if left { INPUT_LEFT } else { 0 }) | (if right { INPUT_RIGHT } else { 0 })
        | (if fire { INPUT_FIRE } else { 0 })
}

/// Packs the five control flags into a bitmask. With no flag pressed the
/// result is the all-zero mask.
pub fn encode_input(up: bool, down: bool, left: bool, right: bool, fire: bool) -> (r: u8)
    ensures
        r == encode_spec(up, down, left, right, fire),
        up_set(r) == up,
        down_set(r) == down,
        left_set(r) == left,
        right_set(r) == right,
        fire_set(r) == fire,
{
    let u: u8 = if up { INPUT_UP } else { 0 };
    let d: u8 = if down { INPUT_DOWN } else { 0 };
    let l: u8 = if left { INPUT_LEFT } else { 0 };
    let rt: u8 = if right { INPUT_RIGHT } else { 0 };
    let f: u8 = if fire { INPUT_FIRE } else { 0 };
    let input: u8 = u | d | l | rt | f;
    proof {
        assert((u | d | l | rt | f) & INPUT_UP == u
            && (u | d | l | rt | f) & INPUT_DOWN == d
            && (u | d | l | rt | f) & INPUT_LEFT == l
            && (u | d | l | rt | f) & INPUT_RIGHT == rt
            && (u | d | l | rt | f) & INPUT_FIRE == f) by (bit_vector)
            requires
                u == 1 || u == 0,
                d == 2 || d == 0,
                l == 4 || l == 0,
                rt == 8 || rt == 0,
                f == 16 || f == 0,
        ;
    }
    input
}

/// The raw direction selected by a mask, each axis in `{-1, 0, 1}`.
/// Opposite flags cancel.
pub open spec fn raw_dir(input: u8) -> (int, int) {
    (
        (if right_set(input) { 1int } else { 0int }) - (if left_set(input) { 1int } else { 0int }),
        (if up_set(input) { 1int } else { 0int }) - (if down_set(input) { 1int } else { 0int }),
    )
}

/// The fixed-point unit direction vector selected by a mask: `(0, 0)` when no
/// net direction is selected, axis components `+-UNIT`, diagonal components
/// `+-UNIT_DIAG`.
pub open spec fn dir_spec(input: u8) -> (int, int) {
    let (dx, dy) = raw_dir(input);
    if dx != 0 && dy != 0 {
        (dx * UNIT_DIAG, dy * UNIT_DIAG)
    } else {
        (dx * UNIT, dy * UNIT)
    }
}

/// The fixed-point unit movement direction encoded in a mask.
pub fn direction(input: u8) -> (r: (i64, i64))
    ensures
        (r.0 as int, r.1 as int) == dir_spec(input),
{
    let dx: i64 = (if input & INPUT_RIGHT != 0 { 1i64 } else { 0i64 })
        - (if input & INPUT_LEFT != 0 { 1i64 } else { 0i64 });
    let dy: i64 = (if input & INPUT_UP != 0 { 1i64 } else { 0i64 })
        - (if input & INPUT_DOWN != 0 { 1i64 } else { 0i64 });
    if dx != 0 && dy != 0 {
        (dx * UNIT_DIAG, dy * UNIT_DIAG)
    } else {
        (dx * UNIT, dy * UNIT)
    }
}

/// Whether a mask holds the fire flag.
pub fn fire(input: u8) -> (r: bool)
    ensures
        r == fire_set(input),
{
    input & INPUT_FIRE != 0
}

} // verus!
