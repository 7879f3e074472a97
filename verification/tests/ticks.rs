use lib::ticks::{
    ticks_add, ticks_diff, ticks_less, TICKS_HALFPERIOD, TICKS_MAX, TICKS_PERIOD,
};

/// Reference formulas evaluated in i64 with floor modulo, so that they can
/// be compared with the i32 bit-twiddling.
fn py_ticks_add(ticks: i64, delta: i64) -> Option<i64> {
    if -(TICKS_HALFPERIOD as i64) < delta && delta < TICKS_HALFPERIOD as i64 {
        Some((ticks + delta).rem_euclid(TICKS_PERIOD as i64))
    } else {
        None
    }
}

fn py_ticks_diff(ticks1: i64, ticks2: i64) -> i64 {
    let diff = (ticks1 - ticks2) & TICKS_MAX as i64;
    ((diff + TICKS_HALFPERIOD as i64) & TICKS_MAX as i64) - TICKS_HALFPERIOD as i64
}

#[test]
fn add_wraps_at_period() {
    assert_eq!(ticks_add(0, 1), Some(1));
    assert_eq!(ticks_add(TICKS_MAX, 1), Some(0));
    assert_eq!(ticks_add(0, -1), Some(TICKS_MAX));
}

#[test]
fn add_rejects_out_of_range_delta() {
    assert_eq!(ticks_add(0, TICKS_HALFPERIOD), None);
    assert_eq!(ticks_add(0, -TICKS_HALFPERIOD), None);
    assert_eq!(ticks_add(0, TICKS_HALFPERIOD - 1), Some(TICKS_HALFPERIOD - 1));
}

#[test]
fn diff_is_signed_and_wraps() {
    assert_eq!(ticks_diff(1, 0), 1);
    assert_eq!(ticks_diff(0, 1), -1);
    assert_eq!(ticks_diff(0, TICKS_MAX), 1);
    assert_eq!(ticks_diff(TICKS_MAX, 0), -1);
}

#[test]
fn less_follows_diff() {
    assert!(ticks_less(0, 1));
    assert!(!ticks_less(1, 0));
    assert!(!ticks_less(5, 5));
    // Wrapped comparison: TICKS_MAX is "before" 0.
    assert!(ticks_less(TICKS_MAX, 0));
}

#[test]
fn matches_python_reference() {
    let samples = [
        0,
        1,
        2,
        1000,
        TICKS_HALFPERIOD - 1,
        TICKS_HALFPERIOD,
        TICKS_HALFPERIOD + 1,
        TICKS_MAX - 1,
        TICKS_MAX,
    ];
    for &a in &samples {
        for &b in &samples {
            assert_eq!(
                ticks_diff(a, b) as i64,
                py_ticks_diff(a as i64, b as i64),
                "ticks_diff({a}, {b})"
            );
        }
        for delta in [-1000, -1, 0, 1, 1000, TICKS_HALFPERIOD - 1, TICKS_HALFPERIOD] {
            assert_eq!(
                ticks_add(a, delta).map(|v| v as i64),
                py_ticks_add(a as i64, delta as i64),
                "ticks_add({a}, {delta})"
            );
        }
    }
}

#[test]
fn deadline_round_trip() {
    // The library's intended use: schedule a deadline, then test for it.
    let now = TICKS_MAX - 5;
    let deadline = ticks_add(now, 10).unwrap();
    assert!(ticks_less(now, deadline));
    assert_eq!(ticks_diff(deadline, now), 10);
}

#[test]
fn constants_have_their_documented_values() {
    assert_eq!(TICKS_PERIOD, 1 << 29);
    assert_eq!(TICKS_MAX, (1 << 29) - 1);
    assert_eq!(TICKS_HALFPERIOD, 1 << 28);
}

#[test]
fn add_reduces_inputs_outside_the_period() {
    // Base values outside [0, TICKS_PERIOD) are reduced too, negative ones
    // by floor modulo.
    assert_eq!(ticks_add(i32::MAX, 1), Some(0));
    assert_eq!(ticks_add(i32::MIN, 0), Some(0));
    assert_eq!(ticks_add(-1, 0), Some(TICKS_MAX));
    assert_eq!(ticks_add(TICKS_PERIOD + 7, 3), Some(10));
    assert_eq!(ticks_add(5, -TICKS_HALFPERIOD + 1), Some(TICKS_PERIOD - TICKS_HALFPERIOD + 6));
    assert_eq!(ticks_add(5, i32::MIN), None);
    assert_eq!(ticks_add(5, i32::MAX), None);
}

#[test]
fn diff_range_edges() {
    // Half a period apart: the distance is reported as minus half a period,
    // in both directions.
    assert_eq!(ticks_diff(TICKS_HALFPERIOD, 0), -TICKS_HALFPERIOD);
    assert_eq!(ticks_diff(0, TICKS_HALFPERIOD), -TICKS_HALFPERIOD);
    assert_eq!(ticks_diff(TICKS_HALFPERIOD - 1, 0), TICKS_HALFPERIOD - 1);
    assert_eq!(ticks_diff(i32::MIN, i32::MAX), 1);
    assert_eq!(ticks_diff(i32::MAX, i32::MIN), -1);
}

#[test]
fn diff_undoes_add_for_every_base() {
    for &t in &[i32::MIN, -12345, 0, 77, TICKS_MAX, i32::MAX] {
        for &d in &[-TICKS_HALFPERIOD + 1, -1000, 0, 1, 999, TICKS_HALFPERIOD - 1] {
            let later = ticks_add(t, d).unwrap();
            assert_eq!(ticks_diff(later, t), d);
            if d > 0 {
                assert!(ticks_less(t, later));
            }
        }
    }
}

#[test]
fn diff_is_antisymmetric_and_zero_on_itself() {
    for &(a, b) in &[(3, 9), (TICKS_MAX, 2), (100, TICKS_HALFPERIOD)] {
        assert_eq!(ticks_diff(a, b), -ticks_diff(b, a));
    }
    assert_eq!(ticks_diff(42, 42), 0);
    assert!(!ticks_less(TICKS_MAX, TICKS_MAX));
}
