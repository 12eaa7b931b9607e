use tunnel_tanks::input::{
    direction, encode_input, fire, INPUT_DOWN, INPUT_FIRE, INPUT_LEFT, INPUT_RIGHT, INPUT_UP,
    UNIT, UNIT_DIAG,
};

#[test]
fn encode_all_flags() {
    assert_eq!(encode_input(false, false, false, false, false), 0);
    assert_eq!(encode_input(true, false, false, false, false), INPUT_UP);
    assert_eq!(encode_input(false, true, false, false, false), INPUT_DOWN);
    assert_eq!(encode_input(false, false, true, false, false), INPUT_LEFT);
    assert_eq!(encode_input(false, false, false, true, false), INPUT_RIGHT);
    assert_eq!(encode_input(false, false, false, false, true), INPUT_FIRE);
    assert_eq!(encode_input(true, true, true, true, true), 0b11111);
}

#[test]
fn encode_is_order_independent_bitmask() {
    // Each flag owns one bit, so any combination is the OR of its flags.
    let mask = encode_input(true, false, true, false, true);
    assert_eq!(mask, INPUT_UP | INPUT_LEFT | INPUT_FIRE);
}

#[test]
fn direction_axis_values() {
    assert_eq!(direction(INPUT_UP), (0, UNIT));
    assert_eq!(direction(INPUT_DOWN), (0, -UNIT));
    assert_eq!(direction(INPUT_LEFT), (-UNIT, 0));
    assert_eq!(direction(INPUT_RIGHT), (UNIT, 0));
}

#[test]
fn direction_diagonal_values() {
    assert_eq!(direction(INPUT_UP | INPUT_RIGHT), (UNIT_DIAG, UNIT_DIAG));
    assert_eq!(direction(INPUT_DOWN | INPUT_LEFT), (-UNIT_DIAG, -UNIT_DIAG));
    assert_eq!(direction(INPUT_UP | INPUT_LEFT), (-UNIT_DIAG, UNIT_DIAG));
    assert_eq!(direction(INPUT_DOWN | INPUT_RIGHT), (UNIT_DIAG, -UNIT_DIAG));
}

#[test]
fn direction_opposites_cancel() {
    assert_eq!(direction(INPUT_UP | INPUT_DOWN), (0, 0));
    assert_eq!(direction(INPUT_LEFT | INPUT_RIGHT), (0, 0));
    assert_eq!(direction(INPUT_UP | INPUT_DOWN | INPUT_LEFT | INPUT_RIGHT), (0, 0));
    assert_eq!(direction(0), (0, 0));
}

#[test]
fn direction_ignores_fire() {
    assert_eq!(direction(INPUT_FIRE), (0, 0));
    assert_eq!(direction(INPUT_FIRE | INPUT_UP), (0, UNIT));
}

#[test]
fn fire_reads_only_its_bit() {
    assert!(fire(INPUT_FIRE));
    assert!(fire(INPUT_FIRE | INPUT_UP));
    assert!(!fire(INPUT_UP | INPUT_DOWN | INPUT_LEFT | INPUT_RIGHT));
    assert!(!fire(0));
}
