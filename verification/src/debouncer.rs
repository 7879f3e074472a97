//! Switch debouncing and button gestures.
//!
//! Time is supplied by the caller rather than read here, so both machines are
//! pure: each `update` takes the raw reading and the current tick count.

use vstd::prelude::*;

verus! {

use crate::ticks::{tick_distance, ticks_diff};

/// Bit of `DebouncerState::state`: the debounced (reported) level.
pub const DEBOUNCED_STATE: u8 = 0x01;

/// Bit of `DebouncerState::state`: the last raw level seen.
pub const UNSTABLE_STATE: u8 = 0x02;

/// Bit of `DebouncerState::state`: the debounced level changed on the last update.
pub const CHANGED_STATE: u8 = 0x04;

/// The state of one debounced input.
#[derive(Clone, Copy, Debug, PartialEq, Eq, Structural)]
pub struct DebouncerState {
    pub last_bounce_ticks: i32,
    pub last_duration_ticks: i32,
    pub state_changed_ticks: i32,
    pub interval_ticks: i32,
    pub state: u8,
}

/// Facts about the three flag bits of a state byte under the updates that
/// `DebouncerState::update` applies to it.
proof fn lemma_state_bits(s: u8)
    by (bit_vector)
    ensures
        (s & 0xfb) & 0x01 == s & 0x01,
        (s & 0xfb) & 0x02 == s & 0x02,
        (s & 0xfb) & 0x04 == 0,
        (s & 0xfb) & 0xf8 == s & 0xf8,
        ((s & 0xfb) ^ 0x02) & 0x01 == s & 0x01,
        (((s & 0xfb) ^ 0x02) & 0x02 != 0) == (s & 0x02 == 0),
        ((s & 0xfb) ^ 0x02) & 0x04 == 0,
        ((s & 0xfb) ^ 0x02) & 0xf8 == s & 0xf8,
        ((((s & 0xfb) ^ 0x01) | 0x04) & 0x01 != 0) == (s & 0x01 == 0),
        (((s & 0xfb) ^ 0x01) | 0x04) & 0x02 == s & 0x02,
        (((s & 0xfb) ^ 0x01) | 0x04) & 0x04 != 0,
        (((s & 0xfb) ^ 0x01) | 0x04) & 0xf8 == s & 0xf8,
        !0x04u8 == 0xfbu8,
{
}

impl DebouncerState {
    /// The debounced level.
    pub open spec fn debounced(self) -> bool {
        self.state & DEBOUNCED_STATE != 0
    }

    /// The last raw level seen.
    pub open spec fn unstable(self) -> bool {
        self.state & UNSTABLE_STATE != 0
    }

    /// Whether the debounced level changed on the last update.
    pub open spec fn changed(self) -> bool {
        self.state & CHANGED_STATE != 0
    }

    /// The bits of `state` that carry no flag.
    pub open spec fn spare_bits(self) -> u8 {
        self.state & 0xf8
    }

    /// The reading `current` at `now` is accepted as the new debounced level:
    /// it equals the last raw level, that level has held for at least the
    /// interval, and it differs from the debounced level.
    pub open spec fn settles(self, current: bool, now: i32) -> bool {
        &&& current == self.unstable()
        &&& tick_distance(now as int, self.last_bounce_ticks as int) >= self.interval_ticks
        &&& current != self.debounced()
    }

    /// What `update(current, now)` makes of `self`: a change of the raw level
    /// restarts the interval; a reading that settles becomes the debounced
    /// level and records how long the previous level lasted; the changed flag
    /// is set exactly when the debounced level changes.
    pub open spec fn steps_to(self, next: Self, current: bool, now: i32) -> bool {
        &&& next.interval_ticks == self.interval_ticks
        &&& next.spare_bits() == self.spare_bits()
        &&& next.changed() == self.settles(current, now)
        &&& if current != self.unstable() {
            &&& next.unstable() == current
            &&& next.debounced() == self.debounced()
            &&& next.last_bounce_ticks == now
            &&& next.last_duration_ticks == self.last_duration_ticks
            &&& next.state_changed_ticks == self.state_changed_ticks
        } else if self.settles(current, now) {
            &&& next.unstable() == self.unstable()
            &&& next.debounced() == current
            &&& next.last_bounce_ticks == now
            &&& next.last_duration_ticks == tick_distance(
                now as int,
                self.state_changed_ticks as int,
            )
            &&& next.state_changed_ticks == now
        } else {
            &&& next.unstable() == self.unstable()
            &&& next.debounced() == self.debounced()
            &&& next.last_bounce_ticks == self.last_bounce_ticks
            &&& next.last_duration_ticks == self.last_duration_ticks
            &&& next.state_changed_ticks == self.state_changed_ticks
        }
    }

    /// A debouncer whose debounced and raw levels both start at `initial`.
    pub fn new(interval_ticks: i32, initial: bool) -> (r: Self)
        ensures
            r.last_bounce_ticks == 0,
            r.last_duration_ticks == 0,
            r.state_changed_ticks == 0,
            r.interval_ticks == interval_ticks,
            r.state == (if initial { 3u8 } else { 0u8 }),
            r.debounced() == initial,
            r.unstable() == initial,
            !r.changed(),
    {
        let r = Self {
            last_bounce_ticks: 0,
            last_duration_ticks: 0,
            state_changed_ticks: 0,
            interval_ticks,
            state: if initial {
                DEBOUNCED_STATE | UNSTABLE_STATE
            } else {
                0
            },
        };
        assert(0x01u8 | 0x02u8 == 3u8) by (bit_vector);
        assert(3u8 & 0x01 != 0 && 3u8 & 0x02 != 0 && 3u8 & 0x04 == 0) by (bit_vector);
        assert(0u8 & 0x01 == 0 && 0u8 & 0x02 == 0 && 0u8 & 0x04 == 0) by (bit_vector);
        r
    }

    fn get(&self, bits: u8) -> (r: bool)
        ensures
            r == (self.state & bits != 0),
    {
        self.state & bits != 0
    }

    /// Feeds one raw reading taken at `now_ticks`.
    pub fn update(&mut self, current: bool, now_ticks: i32)
        ensures
            old(self).steps_to(*final(self), current, now_ticks),
            final(self).risen() <==> (!old(self).debounced() && final(self).debounced()),
            final(self).fallen() <==> (old(self).debounced() && !final(self).debounced()),
    {
        let ghost s = self.state;
        proof {
            lemma_state_bits(s);
        }
        self.state = self.state & !CHANGED_STATE;
        if current != self.get(UNSTABLE_STATE) {
            self.last_bounce_ticks = now_ticks;
            self.state = self.state ^ UNSTABLE_STATE;
        } else if ticks_diff(now_ticks, self.last_bounce_ticks) >= self.interval_ticks && current
            != self.get(DEBOUNCED_STATE) {
            self.last_bounce_ticks = now_ticks;
            self.state = self.state ^ DEBOUNCED_STATE;
            self.state = self.state | CHANGED_STATE;
            self.last_duration_ticks = ticks_diff(now_ticks, self.state_changed_ticks);
            self.state_changed_ticks = now_ticks;
        }
    }

    /// The debounced level.
    pub fn value(&self) -> (r: bool)
        ensures
            r == self.debounced(),
    {
        self.get(DEBOUNCED_STATE)
    }

    /// The debounced level went from low to high on the last update.
    pub open spec fn risen(self) -> bool {
        self.debounced() && self.changed()
    }

    /// The debounced level went from high to low on the last update.
    pub open spec fn fallen(self) -> bool {
        !self.debounced() && self.changed()
    }

    /// True on the update that took the debounced level from low to high.
    pub fn rose(&self) -> (r: bool)
        ensures
            r == self.risen(),
    {
        self.get(DEBOUNCED_STATE) && self.get(CHANGED_STATE)
    }

    /// True on the update that took the debounced level from high to low.
    pub fn fell(&self) -> (r: bool)
        ensures
            r == self.fallen(),
    {
        !self.get(DEBOUNCED_STATE) && self.get(CHANGED_STATE)
    }
}

/// How a debouncer moves on one reading: the raw level always becomes the
/// reading, and a change of it restarts the interval at `now` without
/// touching the debounced level; the debounced level changes only to a
/// reading equal to the previous raw level that has held for at least the
/// interval since the last bounce, and then the change is time-stamped at
/// `now` and the previous level's duration recorded.
pub proof fn lemma_debounce_timing(d: DebouncerState, next: DebouncerState, current: bool, now: i32)
    requires
        d.steps_to(next, current, now),
    ensures
        next.unstable() == current,
        current != d.unstable() ==> next.last_bounce_ticks == now && next.debounced()
            == d.debounced(),
        next.debounced() != d.debounced() ==> {
            &&& current == d.unstable()
            &&& next.debounced() == current
            &&& tick_distance(now as int, d.last_bounce_ticks as int) >= d.interval_ticks
            &&& next.last_bounce_ticks == now
            &&& next.state_changed_ticks == now
            &&& next.last_duration_ticks == tick_distance(
                now as int,
                d.state_changed_ticks as int,
            )
        },
        next.debounced() == d.debounced() ==> {
            &&& next.state_changed_ticks == d.state_changed_ticks
            &&& next.last_duration_ticks == d.last_duration_ticks
            &&& !next.risen()
            &&& !next.fallen()
        },
        next.interval_ticks == d.interval_ticks,
{
}

/// A rise and a fall are never reported together.
pub proof fn lemma_rose_fell_exclusive(d: DebouncerState)
    ensures
        !(d.risen() && d.fallen()),
{
}

/// The state of one push button: a debouncer plus the timing that turns its
/// edges into presses, releases, short-press counts and long presses.
#[derive(Clone, Copy, Debug, PartialEq, Eq, Structural)]
pub struct ButtonState {
    pub debouncer: DebouncerState,
    pub last_change_ms: i32,
    pub short_duration_ms: i32,
    pub long_duration_ms: i32,
    pub short_counter: i32,
    pub short_to_show: i32,
    pub value_when_pressed: u8,
    pub long_registered: u8,
    pub long_to_show: u8,
}

impl ButtonState {
    /// The debounced level that means "pressed".
    pub open spec fn pressed_level(self) -> bool {
        self.value_when_pressed != 0
    }

    /// The last update took the button to its pressed level.
    pub open spec fn press_event(self) -> bool {
        if self.pressed_level() {
            self.debouncer.risen()
        } else {
            self.debouncer.fallen()
        }
    }

    /// The last update took the button away from its pressed level.
    pub open spec fn release_event(self) -> bool {
        if self.pressed_level() {
            self.debouncer.fallen()
        } else {
            self.debouncer.risen()
        }
    }

    /// A report is waiting to be read: a short-press count or a long press.
    pub open spec fn reporting(self) -> bool {
        self.short_to_show > 0 || self.long_to_show != 0
    }

    /// What every state reached from `new` through `update` keeps: the
    /// number of short presses waiting is never negative and the long-press
    /// flags are 0 or 1; a shown long press belongs to the hold it was
    /// registered for; and while a report shows, no presses are waiting and
    /// the button is either released or in a hold whose long press was
    /// already reported.
    pub open spec fn counters_valid(self) -> bool {
        &&& self.short_counter >= 0
        &&& self.long_registered <= 1
        &&& self.long_to_show <= 1
        &&& self.long_to_show != 0 ==> self.long_registered == 1
        &&& self.reporting() ==> {
            &&& self.short_counter == 0
            &&& (self.long_registered == 1 || self.debouncer.debounced() != self.pressed_level())
        }
    }

    /// The reading `current` at `now` makes the button pressed.
    pub open spec fn press_coming(self, current: bool, now: i32) -> bool {
        self.debouncer.settles(current, now) && current == self.pressed_level()
    }

    /// The reading `current` at `now` completes a long press: the button has
    /// been held longer than the long duration and no long press was
    /// reported for this hold yet.
    pub open spec fn long_press_coming(self, current: bool, now: i32) -> bool {
        &&& !self.debouncer.settles(current, now)
        &&& self.long_registered == 0
        &&& self.debouncer.debounced() == self.pressed_level()
        &&& tick_distance(now as int, self.last_change_ms as int) > self.long_duration_ms
    }

    /// A button idle since `now_ticks`, whose debouncer starts at `initial`.
    pub fn new(
        interval_ticks: i32,
        initial: bool,
        short_duration_ms: i32,
        long_duration_ms: i32,
        value_when_pressed: bool,
        now_ticks: i32,
    ) -> (r: Self)
        ensures
            r.debouncer.last_bounce_ticks == 0,
            r.debouncer.last_duration_ticks == 0,
            r.debouncer.state_changed_ticks == 0,
            r.debouncer.interval_ticks == interval_ticks,
            r.debouncer.state == (if initial { 3u8 } else { 0u8 }),
            r.debouncer.debounced() == initial,
            r.debouncer.unstable() == initial,
            !r.debouncer.changed(),
            r.last_change_ms == now_ticks,
            r.short_duration_ms == short_duration_ms,
            r.long_duration_ms == long_duration_ms,
            r.short_counter == 0,
            r.short_to_show == 0,
            r.value_when_pressed == (if value_when_pressed { 1u8 } else { 0u8 }),
            r.pressed_level() == value_when_pressed,
            r.long_registered == 0,
            r.long_to_show == 0,
            r.counters_valid(),
    {
        Self {
            debouncer: DebouncerState::new(interval_ticks, initial),
            last_change_ms: now_ticks,
            short_duration_ms,
            long_duration_ms,
            short_counter: 0,
            short_to_show: 0,
            value_when_pressed: if value_when_pressed { 1 } else { 0 },
            long_registered: 0,
            long_to_show: 0,
        }
    }

    fn value_when_pressed(&self) -> (r: bool)
        ensures
            r == self.pressed_level(),
    {
        self.value_when_pressed != 0
    }

    /// True on the update that took the button to its pressed level.
    pub fn pressed(&self) -> (r: bool)
        ensures
            r == self.press_event(),
    {
        if self.value_when_pressed() {
            self.debouncer.rose()
        } else {
            self.debouncer.fell()
        }
    }

    /// True on the update that took the button away from its pressed level.
    pub fn released(&self) -> (r: bool)
        ensures
            r == self.release_event(),
    {
        if self.value_when_pressed() {
            self.debouncer.fell()
        } else {
            self.debouncer.rose()
        }
    }

    /// What `update(current, now)` makes of `self`. The debouncer takes the
    /// reading. A press counts one more short press; a release ends the
    /// hold. Otherwise, holding longer than the long duration reports one
    /// long press (and hands on the count of presses before it), and staying
    /// released longer than the short duration after short presses reports
    /// their count. Every report shows for that one update only: any update
    /// that makes no report clears both.
    pub open spec fn steps_to(self, next: Self, current: bool, now: i32) -> bool {
        let duration = tick_distance(now as int, self.last_change_ms as int);
        &&& self.debouncer.steps_to(next.debouncer, current, now)
        &&& next.short_duration_ms == self.short_duration_ms
        &&& next.long_duration_ms == self.long_duration_ms
        &&& next.value_when_pressed == self.value_when_pressed
        &&& if self.press_coming(current, now) {
            &&& next.last_change_ms == now
            &&& next.short_counter == self.short_counter + 1
            &&& next.short_to_show == 0
            &&& next.long_registered == self.long_registered
            &&& next.long_to_show == 0
        } else if self.debouncer.settles(current, now) {
            &&& next.last_change_ms == now
            &&& next.short_counter == self.short_counter
            &&& next.short_to_show == 0
            &&& next.long_registered == 0
            &&& next.long_to_show == 0
        } else if self.long_press_coming(current, now) {
            &&& next.last_change_ms == self.last_change_ms
            &&& next.short_counter == 0
            &&& next.short_to_show == self.short_counter - 1
            &&& next.long_registered == 1
            &&& next.long_to_show == 1
        } else if self.short_counter > 0 && self.debouncer.debounced() != self.pressed_level()
            && duration > self.short_duration_ms {
            &&& next.last_change_ms == self.last_change_ms
            &&& next.short_counter == 0
            &&& next.short_to_show == self.short_counter
            &&& next.long_registered == self.long_registered
            &&& next.long_to_show == 0
        } else {
            &&& next.last_change_ms == self.last_change_ms
            &&& next.short_counter == self.short_counter
            &&& next.short_to_show == 0
            &&& next.long_registered == self.long_registered
            &&& next.long_to_show == 0
        }
    }

    /// Feeds one raw reading taken at `now_ticks`; see `steps_to`.
    pub fn update(&mut self, current: bool, now_ticks: i32)
        requires
            old(self).press_coming(current, now_ticks) ==> old(self).short_counter < i32::MAX,
            old(self).long_press_coming(current, now_ticks) ==> old(self).short_counter
                > i32::MIN,
        ensures
            old(self).steps_to(*final(self), current, now_ticks),
            final(self).press_event() == old(self).press_coming(current, now_ticks),
            final(self).release_event() == (old(self).debouncer.settles(current, now_ticks)
                && current != old(self).pressed_level()),
            old(self).counters_valid() ==> final(self).counters_valid(),
            old(self).counters_valid() && old(self).reporting() ==> !final(self).reporting(),
    {
        self.debouncer.update(current, now_ticks);
        if self.pressed() {
            self.last_change_ms = now_ticks;
            self.short_counter += 1;
            self.short_to_show = 0;
            self.long_to_show = 0;
        } else if self.released() {
            self.last_change_ms = now_ticks;
            self.long_registered = 0;
            self.short_to_show = 0;
            self.long_to_show = 0;
        } else {
            let duration = ticks_diff(now_ticks, self.last_change_ms);
            if self.long_registered == 0 && self.debouncer.value() == self.value_when_pressed()
                && duration > self.long_duration_ms {
                self.long_registered = 1;
                self.long_to_show = 1;
                self.short_to_show = self.short_counter - 1;
                self.short_counter = 0;
            } else if self.short_counter > 0 && self.debouncer.value()
                != self.value_when_pressed() && duration > self.short_duration_ms {
                self.short_to_show = self.short_counter;
                self.short_counter = 0;
                self.long_to_show = 0;
            } else {
                self.long_to_show = 0;
                self.short_to_show = 0;
            }
        }
    }
}

/// The update that reports a press starts the hold at its own tick and
/// counts one more click; it reports no long press. An update that reports a
/// long press reports no edge, and its hold, timed from the tick of the last
/// press or release, has lasted more than the long duration.
pub proof fn lemma_press_starts_hold(b: ButtonState, next: ButtonState, current: bool, now: i32)
    requires
        b.steps_to(next, current, now),
    ensures
        next.press_event() ==> {
            &&& next.last_change_ms == now
            &&& next.short_counter == b.short_counter + 1
            &&& next.long_to_show == 0
        },
        next.long_to_show != 0 ==> {
            &&& !next.press_event()
            &&& !next.release_event()
            &&& next.last_change_ms == b.last_change_ms
            &&& tick_distance(now as int, b.last_change_ms as int) > b.long_duration_ms
        },
        next.release_event() ==> {
            &&& next.last_change_ms == now
            &&& next.long_registered == 0
            &&& next.short_counter == b.short_counter
            &&& !next.reporting()
        },
        next.short_to_show > 0 && next.long_to_show == 0 ==> {
            &&& !next.press_event()
            &&& !next.release_event()
            &&& next.debouncer.debounced() != next.pressed_level()
            &&& tick_distance(now as int, b.last_change_ms as int) > b.short_duration_ms
            &&& next.short_to_show == b.short_counter
            &&& next.short_counter == 0
        },
        !next.press_event() && !next.release_event() ==> next.last_change_ms == b.last_change_ms,
        next.long_duration_ms == b.long_duration_ms,
        next.short_duration_ms == b.short_duration_ms,
{
}

proof fn lemma_hold_start_kept(
    states: Seq<ButtonState>,
    readings: Seq<(bool, i32)>,
    j: int,
    m: int,
)
    requires
        states.len() == readings.len() + 1,
        forall|k: int|
            0 <= k < readings.len() ==> #[trigger] states[k].steps_to(
                states[k + 1],
                readings[k].0,
                readings[k].1,
            ),
        0 <= j < m <= readings.len(),
        states[j + 1].press_event(),
        forall|k: int| j < k < m ==> !(#[trigger] states[k + 1]).press_event() && !states[k
            + 1].release_event(),
    ensures
        states[m].last_change_ms == readings[j].1,
        states[m].long_duration_ms == states[j].long_duration_ms,
    decreases m - j,
{
    lemma_press_starts_hold(states[j], states[j + 1], readings[j].0, readings[j].1);
    if m > j + 1 {
        lemma_hold_start_kept(states, readings, j, m - 1);
        let k = m - 1;
        assert(states[k].steps_to(states[k + 1], readings[k].0, readings[k].1));
        assert(!states[k + 1].press_event() && !states[k + 1].release_event());
        lemma_press_starts_hold(states[k], states[k + 1], readings[k].0, readings[k].1);
    }
}

/// Over any run of updates, a long press is timed from the press that began
/// the hold: if the update with reading `j` reports a press at tick `t`, and
/// no press or release is reported after it up to the update with reading
/// `m`, then that update reports a long press only if its tick is more than
/// the long duration after `t`.
pub proof fn lemma_long_press_timed_from_press(
    states: Seq<ButtonState>,
    readings: Seq<(bool, i32)>,
    j: int,
    m: int,
)
    requires
        states.len() == readings.len() + 1,
        forall|k: int|
            0 <= k < readings.len() ==> #[trigger] states[k].steps_to(
                states[k + 1],
                readings[k].0,
                readings[k].1,
            ),
        0 <= j < m < readings.len(),
        states[j + 1].press_event(),
        forall|k: int| j < k < m ==> !(#[trigger] states[k + 1]).press_event() && !states[k
            + 1].release_event(),
        states[m + 1].long_to_show != 0,
    ensures
        tick_distance(readings[m].1 as int, readings[j].1 as int) > states[j].long_duration_ms,
        states[m + 1].last_change_ms == readings[j].1,
{
    lemma_hold_start_kept(states, readings, j, m);
    assert(states[m].steps_to(states[m + 1], readings[m].0, readings[m].1));
    lemma_press_starts_hold(states[m], states[m + 1], readings[m].0, readings[m].1);
}

/// A short-press count or a long press shows for exactly one update: from
/// any state reached from `new`, the update after one that made a report
/// makes none, so a polling loop has to sample the reports after every
/// update.
pub proof fn lemma_reports_show_once(b: ButtonState, next: ButtonState, current: bool, now: i32)
    requires
        b.counters_valid(),
        b.reporting(),
        b.steps_to(next, current, now),
    ensures
        !next.reporting(),
        next.short_to_show <= 0,
        next.long_to_show == 0,
{
}

/// The states reached from `new` through `update` are those that
/// `counters_valid` describes: `new` gives one, and each step keeps it.
pub proof fn lemma_steps_keep_counters_valid(
    b: ButtonState,
    next: ButtonState,
    current: bool,
    now: i32,
)
    requires
        b.counters_valid(),
        b.steps_to(next, current, now),
    ensures
        next.counters_valid(),
{
}

/// A press and a release are never reported on the same update.
pub proof fn lemma_pressed_released_exclusive(b: ButtonState)
    ensures
        !(b.press_event() && b.release_event()),
{
}

} // verus!
