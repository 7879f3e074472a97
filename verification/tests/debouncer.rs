use lib::debouncer::{ButtonState, DebouncerState, CHANGED_STATE, DEBOUNCED_STATE, UNSTABLE_STATE};

const INTERVAL: i32 = 10;

/// Drives the machine with one sample per millisecond.
struct Clock {
    now: i32,
}

impl Clock {
    fn new() -> Self {
        Self { now: 0 }
    }

    fn feed(&mut self, d: &mut DebouncerState, level: bool, ms: i32) {
        for _ in 0..ms {
            self.now += 1;
            d.update(level, self.now);
        }
    }
}

#[test]
fn initial_value_follows_first_reading() {
    assert!(!DebouncerState::new(INTERVAL, false).value());
    assert!(DebouncerState::new(INTERVAL, true).value());
}

#[test]
fn bounces_shorter_than_interval_are_rejected() {
    let mut d = DebouncerState::new(INTERVAL, false);
    let mut c = Clock::new();
    // Chatter that never stays put for a full interval.
    for _ in 0..20 {
        c.feed(&mut d, true, INTERVAL - 5);
        c.feed(&mut d, false, INTERVAL - 5);
    }
    assert!(!d.value());
    assert!(!d.rose());
}

#[test]
fn stable_change_is_accepted_and_reported_once() {
    let mut d = DebouncerState::new(INTERVAL, false);
    let mut c = Clock::new();
    c.feed(&mut d, true, INTERVAL + 2);
    assert!(d.value());
    // rose() is only true on the update that changed it.
    c.feed(&mut d, true, 1);
    assert!(!d.rose());
    assert!(d.value());

    c.feed(&mut d, false, INTERVAL + 2);
    assert!(!d.value());
}

#[test]
fn last_duration_measures_the_previous_stable_period() {
    let mut d = DebouncerState::new(INTERVAL, false);
    let mut c = Clock::new();
    c.feed(&mut d, true, INTERVAL + 1);
    let first_change = d.state_changed_ticks;
    c.feed(&mut d, true, 50);
    c.feed(&mut d, false, INTERVAL + 1);
    assert_eq!(d.last_duration_ticks, d.state_changed_ticks - first_change);
}

/// Active-low button: the predicate reads false while pressed.
fn button() -> ButtonState {
    ButtonState::new(INTERVAL, true, 200, 500, false, 0)
}

/// `short_count`, `long_press`, `pressed` and `released` are all true for
/// exactly one update, so a polling loop has to sample them every time.
#[derive(Default)]
struct Events {
    shorts: Vec<i32>,
    longs: i32,
    presses: i32,
    releases: i32,
}

fn drive(b: &mut ButtonState, c: &mut Clock, level: bool, ms: i32, ev: &mut Events) {
    for _ in 0..ms {
        c.now += 1;
        b.update(level, c.now);
        if b.short_to_show > 0 {
            ev.shorts.push(b.short_to_show);
        }
        if b.long_to_show != 0 {
            ev.longs += 1;
        }
        if b.pressed() {
            ev.presses += 1;
        }
        if b.released() {
            ev.releases += 1;
        }
    }
}

#[test]
fn single_short_press_counts_once() {
    let mut b = button();
    let mut c = Clock::new();
    let mut ev = Events::default();
    drive(&mut b, &mut c, true, 50, &mut ev);
    drive(&mut b, &mut c, false, 50, &mut ev); // press
    drive(&mut b, &mut c, true, 250, &mut ev); // release, then wait out short_duration
    assert_eq!(ev.shorts, vec![1]);
    assert_eq!(ev.longs, 0);
    assert_eq!(ev.presses, 1);
    assert_eq!(ev.releases, 1);
}

#[test]
fn double_click_counts_twice() {
    let mut b = button();
    let mut c = Clock::new();
    let mut ev = Events::default();
    drive(&mut b, &mut c, true, 50, &mut ev);
    for _ in 0..2 {
        drive(&mut b, &mut c, false, 30, &mut ev);
        drive(&mut b, &mut c, true, 30, &mut ev);
    }
    drive(&mut b, &mut c, true, 250, &mut ev);
    assert_eq!(ev.shorts, vec![2]);
    assert_eq!(ev.presses, 2);
}

#[test]
fn long_press_is_reported_and_suppresses_its_own_click() {
    let mut b = button();
    let mut c = Clock::new();
    let mut ev = Events::default();
    drive(&mut b, &mut c, true, 50, &mut ev);
    drive(&mut b, &mut c, false, 600, &mut ev); // held past long_duration
    assert_eq!(ev.longs, 1);
    assert!(ev.shorts.is_empty());
    assert_eq!(b.short_counter, 0);
}

#[test]
fn click_then_long_press_reports_both() {
    let mut b = button();
    let mut c = Clock::new();
    let mut ev = Events::default();
    drive(&mut b, &mut c, true, 50, &mut ev);
    drive(&mut b, &mut c, false, 30, &mut ev); // click
    drive(&mut b, &mut c, true, 30, &mut ev);
    drive(&mut b, &mut c, false, 600, &mut ev); // hold
    assert_eq!(ev.longs, 1);
    assert_eq!(ev.shorts, vec![1]);
}

#[test]
fn bouncy_press_is_still_a_single_click() {
    let mut b = button();
    let mut c = Clock::new();
    let mut ev = Events::default();
    drive(&mut b, &mut c, true, 50, &mut ev);
    // Contact chatter on the way down, then a clean hold.
    for _ in 0..5 {
        drive(&mut b, &mut c, false, 3, &mut ev);
        drive(&mut b, &mut c, true, 3, &mut ev);
    }
    drive(&mut b, &mut c, false, 40, &mut ev);
    drive(&mut b, &mut c, true, 250, &mut ev);
    assert_eq!(ev.presses, 1);
    assert_eq!(ev.shorts, vec![1]);
}

#[test]
fn pressed_and_released_respect_value_when_pressed() {
    // Active-high button: pressed when the predicate reads true.
    let mut b = ButtonState::new(INTERVAL, false, 200, 500, true, 0);
    let mut c = Clock::new();
    let mut ev = Events::default();
    drive(&mut b, &mut c, false, 50, &mut ev);
    drive(&mut b, &mut c, true, 50, &mut ev);
    assert_eq!(ev.presses, 1);
    assert_eq!(ev.releases, 0);
    drive(&mut b, &mut c, false, 50, &mut ev);
    assert_eq!(ev.releases, 1);
}

#[test]
fn state_survives_the_tick_counter_wrapping() {
    let mut d = DebouncerState::new(INTERVAL, false);
    // Start just below the 2**29 wrap point.
    let mut now = (1 << 29) - 5;
    for _ in 0..(INTERVAL + 5) {
        now = lib::ticks::ticks_add(now, 1).unwrap();
        d.update(true, now);
    }
    assert!(d.value());
}

#[test]
fn new_sets_both_levels_and_no_change() {
    let d = DebouncerState::new(7, true);
    assert_eq!(d.state, DEBOUNCED_STATE | UNSTABLE_STATE);
    assert_eq!(d.interval_ticks, 7);
    assert_eq!((d.last_bounce_ticks, d.last_duration_ticks, d.state_changed_ticks), (0, 0, 0));
    assert!(!d.rose() && !d.fell());
    assert_eq!(DebouncerState::new(7, false).state, 0);
    assert_eq!(CHANGED_STATE, 4);
}

#[test]
fn settling_takes_exactly_the_interval() {
    let mut d = DebouncerState::new(INTERVAL, false);
    d.update(true, 100); // raw level changes: the interval restarts here
    assert_eq!(d.last_bounce_ticks, 100);
    assert!(!d.value());
    d.update(true, 100 + INTERVAL - 1);
    assert!(!d.value());
    d.update(true, 100 + INTERVAL);
    assert!(d.value() && d.rose() && !d.fell());
    assert_eq!(d.state_changed_ticks, 100 + INTERVAL);
    assert_eq!(d.last_duration_ticks, 100 + INTERVAL);
    d.update(true, 100 + INTERVAL + 1);
    assert!(d.value() && !d.rose());
    // Going back down reports a fall, once.
    d.update(false, 200);
    d.update(false, 200 + INTERVAL);
    assert!(!d.value() && d.fell() && !d.rose());
    assert_eq!(d.last_duration_ticks, 200 + INTERVAL - (100 + INTERVAL));
}

#[test]
fn spare_state_bits_are_kept() {
    let mut d = DebouncerState::new(INTERVAL, false);
    d.state |= 0x80;
    d.update(true, 1);
    d.update(true, 1 + INTERVAL);
    assert_eq!(d.state, 0x80 | DEBOUNCED_STATE | UNSTABLE_STATE | CHANGED_STATE);
}

#[test]
fn button_new_and_levels() {
    let b = ButtonState::new(3, false, 20, 50, true, 1234);
    assert_eq!(b.last_change_ms, 1234);
    assert_eq!(b.value_when_pressed, 1);
    assert_eq!((b.short_counter, b.short_to_show, b.long_registered, b.long_to_show), (0, 0, 0, 0));
    assert!(!b.pressed() && !b.released());
    assert_eq!(ButtonState::new(3, false, 20, 50, false, 0).value_when_pressed, 0);
}

#[test]
fn held_at_start_long_press_hands_on_minus_one() {
    // A button already held when created reports a long press with no
    // short press before it, so the count handed on is -1.
    let mut b = ButtonState::new(INTERVAL, false, 200, 500, false, 0);
    let mut c = Clock::new();
    let mut ev = Events::default();
    drive(&mut b, &mut c, false, 501, &mut ev);
    assert_eq!(ev.longs, 1);
    assert_eq!(b.long_registered, 1);
    assert_eq!(b.short_to_show, -1);
}

#[test]
fn reports_show_for_one_update() {
    // Active-low button with a one-tick interval and short duration.
    let mut b = ButtonState::new(1, true, 1, 100, false, 0);
    for (now, level) in [(1, false), (2, false), (3, true), (4, true), (5, true), (6, false)] {
        b.update(level, now);
    }
    // Released long enough after one click: the count is reported.
    assert_eq!(b.short_to_show, 1);
    assert!(!b.pressed());
    // The next update is a press; the earlier report is gone.
    b.update(false, 7);
    assert!(b.pressed());
    assert_eq!(b.short_to_show, 0);
    assert_eq!(b.long_to_show, 0);
    assert_eq!(b.short_counter, 1);
}

#[test]
fn long_report_clears_on_release() {
    let mut b = ButtonState::new(1, true, 1, 5, false, 0);
    b.update(false, 1);
    b.update(false, 2); // press
    assert!(b.pressed());
    // The raw level goes back up at 8; the hold has lasted longer than the
    // long duration, so this same update reports the long press.
    b.update(true, 8);
    assert_eq!(b.long_to_show, 1);
    assert_eq!(b.short_to_show, 0);
    // The release on the next update clears the report.
    b.update(true, 9);
    assert!(b.released());
    assert_eq!(b.long_to_show, 0);
    assert_eq!(b.long_registered, 0);
}
