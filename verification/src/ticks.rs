//! Tick arithmetic that wraps at 2**29 ms.
//!
//! Tick values live in `[0, TICKS_PERIOD)`; a delta between two of them is
//! meaningful while it stays within +/- 2**28 ms.

use vstd::prelude::*;

verus! {

use vstd::arithmetic::div_mod::{
    lemma_add_mod_noop, lemma_fundamental_div_mod_converse_mod, lemma_small_mod,
};

/// Ticks wrap at 2**29 ms so that two values can always be added or subtracted
/// without allocating a long integer.
pub const TICKS_PERIOD: i32 = 1 << 29;

/// The largest tick value, and the mask that reduces a value into range.
pub const TICKS_MAX: i32 = 0x1fff_ffff;

/// Half a period: the bound on a meaningful delta.
pub const TICKS_HALFPERIOD: i32 = 1 << 28;

/// Operation completed successfully.
pub const TICKS_OK: i32 = 0;

/// The delta was outside +/- 2**28 ms.
pub const TICKS_ERR_OVERFLOW: i32 = -1;

/// A destination pointer was null.
pub const TICKS_ERR_BUFFER: i32 = -2;

/// The period as a mathematical integer.
pub open spec fn period() -> int {
    0x2000_0000
}

/// Half the period as a mathematical integer.
pub open spec fn half_period() -> int {
    0x1000_0000
}

/// The tick value that stands for the integer `t`: `t` reduced modulo the period
/// into `[0, period())` (floor modulo).
pub open spec fn wrap_ticks(t: int) -> int {
    t % period()
}

/// A delta that `ticks_add` accepts: strictly within half a period.
pub open spec fn delta_in_range(delta: int) -> bool {
    -half_period() < delta < half_period()
}

/// The signed distance from `t2` to `t1` on the tick circle, taken in
/// `[-half_period(), half_period())`.
pub open spec fn tick_distance(t1: int, t2: int) -> int {
    (t1 - t2 + half_period()) % period() - half_period()
}

proof fn lemma_constants()
    ensures
        TICKS_PERIOD == period(),
        TICKS_MAX == period() - 1,
        TICKS_HALFPERIOD == half_period(),
{
    assert(1i32 << 29u32 == 0x2000_0000i32) by (bit_vector);
    assert(1i32 << 28u32 == 0x1000_0000i32) by (bit_vector);
}

/// Masking an `i32` with `TICKS_MAX` reduces it modulo the period.
proof fn lemma_mask_is_mod(w: i32)
    ensures
        (w & 0x1fff_ffffi32) as int == (w as int) % period(),
{
    let u = w as u32;
    assert((w & 0x1fff_ffffi32) as int == (u & 0x1fff_ffffu32) as int) by (bit_vector)
        requires u == w as u32;
    assert((u & 0x1fff_ffffu32) == u % 0x2000_0000u32) by (bit_vector);
    assert(u as int == if w >= 0 { w as int } else { w as int + 0x1_0000_0000 }) by (bit_vector)
        requires u == w as u32;
    let r = (u as int) % period();
    assert(0 <= r < period());
    if w >= 0 {
    } else {
        let q = (u as int) / period();
        assert(u as int == q * period() + r) by {
            vstd::arithmetic::div_mod::lemma_fundamental_div_mod(u as int, period());
        }
        assert(w as int == (q - 8) * period() + r);
        lemma_fundamental_div_mod_converse_mod(w as int, period(), q - 8, r);
    }
}

/// Wrapping addition on `i32` agrees with exact addition modulo the period.
proof fn lemma_wrapping_add_mod(a: i32, b: i32)
    ensures
        (vstd::wrapping::i32_specs::wrapping_add(a, b) as int) % period() == (a + b) % period(),
{
    let s = a + b;
    let w = vstd::wrapping::i32_specs::wrapping_add(a, b) as int;
    if s > i32::MAX {
        assert(w == s - 0x1_0000_0000);
        lemma_shift_by_periods(s, -8);
    } else if s < i32::MIN {
        assert(w == s + 0x1_0000_0000);
        lemma_shift_by_periods(s, 8);
    }
}

/// Wrapping subtraction on `i32` agrees with exact subtraction modulo the period.
proof fn lemma_wrapping_sub_mod(a: i32, b: i32)
    ensures
        (vstd::wrapping::i32_specs::wrapping_sub(a, b) as int) % period() == (a - b) % period(),
{
    let s = a - b;
    let w = vstd::wrapping::i32_specs::wrapping_sub(a, b) as int;
    if s > i32::MAX {
        assert(w == s - 0x1_0000_0000);
        lemma_shift_by_periods(s, -8);
    } else if s < i32::MIN {
        assert(w == s + 0x1_0000_0000);
        lemma_shift_by_periods(s, 8);
    }
}

/// Adding whole periods does not change the reduced value.
proof fn lemma_shift_by_periods(s: int, k: int)
    ensures
        (s + k * period()) % period() == s % period(),
{
    vstd::arithmetic::div_mod::lemma_mod_multiples_vanish(k, s, period());
    assert(period() * k + s == s + k * period()) by (nonlinear_arith);
}

/// Adds a delta to a base tick count, wrapping at `TICKS_PERIOD`.
///
/// Returns `None` when the delta is not strictly within half a period;
/// otherwise the tick value of `ticks + delta`.
pub fn ticks_add(ticks: i32, delta: i32) -> (r: Option<i32>)
    ensures
        r is Some <==> delta_in_range(delta as int),
        r matches Some(v) ==> v as int == wrap_ticks(ticks + delta),
{
    proof {
        lemma_constants();
    }
    if delta > -TICKS_HALFPERIOD && delta < TICKS_HALFPERIOD {
        let w = ticks.wrapping_add(delta);
        proof {
            lemma_mask_is_mod(w);
            lemma_wrapping_add_mod(ticks, delta);
        }
        Some(w & TICKS_MAX)
    } else {
        None
    }
}

/// Signed difference between two tick values, assuming they are within 2**28.
///
/// The result is the distance from `ticks2` to `ticks1` around the tick
/// circle, in `[-2**28, 2**28)`.
pub fn ticks_diff(ticks1: i32, ticks2: i32) -> (r: i32)
    ensures
        r as int == tick_distance(ticks1 as int, ticks2 as int),
        -half_period() <= r < half_period(),
{
    proof {
        lemma_constants();
    }
    let w = ticks1.wrapping_sub(ticks2);
    proof {
        lemma_mask_is_mod(w);
        lemma_wrapping_sub_mod(ticks1, ticks2);
    }
    let diff = w & TICKS_MAX;
    assert(0 <= diff < period());
    let shifted = diff + TICKS_HALFPERIOD;
    proof {
        lemma_mask_is_mod(shifted);
        lemma_add_mod_noop(ticks1 - ticks2, half_period(), period());
        lemma_small_mod(half_period() as nat, period() as nat);
        vstd::arithmetic::div_mod::lemma_mod_twice(ticks1 - ticks2, period());
    }
    (shifted & TICKS_MAX) - TICKS_HALFPERIOD
}

/// True if `ticks1` is before `ticks2`, assuming they are within 2**28.
pub fn ticks_less(ticks1: i32, ticks2: i32) -> (r: bool)
    ensures
        r == (tick_distance(ticks1 as int, ticks2 as int) < 0),
{
    ticks_diff(ticks1, ticks2) < 0
}

/// Scheduling a deadline and measuring back to it gives the delta again:
/// for every base tick count and every delta that `ticks_add` accepts, the
/// distance from the base to the deadline is that delta.
pub proof fn lemma_diff_undoes_add(ticks: int, delta: int)
    requires
        delta_in_range(delta),
    ensures
        tick_distance(wrap_ticks(ticks + delta), ticks) == delta,
        delta > 0 ==> tick_distance(ticks, wrap_ticks(ticks + delta)) < 0,
{
    let s = ticks + delta;
    let q = s / period();
    vstd::arithmetic::div_mod::lemma_fundamental_div_mod(s, period());
    assert(wrap_ticks(s) - ticks + half_period() == (delta + half_period()) + (-q) * period())
        by (nonlinear_arith)
        requires
            s == period() * q + wrap_ticks(s),
            s == ticks + delta;
    lemma_shift_by_periods(delta + half_period(), -q);
    lemma_small_mod((delta + half_period()) as nat, period() as nat);
    assert(ticks - wrap_ticks(s) + half_period() == (half_period() - delta) + q * period())
        by (nonlinear_arith)
        requires
            s == period() * q + wrap_ticks(s),
            s == ticks + delta;
    lemma_shift_by_periods(half_period() - delta, q);
    if delta > 0 {
        lemma_small_mod((half_period() - delta) as nat, period() as nat);
    }
}

/// The distance depends on the two tick counts only through their values
/// modulo the period.
pub proof fn lemma_distance_ignores_wrapping(t1: int, t2: int)
    ensures
        tick_distance(wrap_ticks(t1), t2) == tick_distance(t1, t2),
        tick_distance(t1, wrap_ticks(t2)) == tick_distance(t1, t2),
{
    let q1 = t1 / period();
    let q2 = t2 / period();
    vstd::arithmetic::div_mod::lemma_fundamental_div_mod(t1, period());
    vstd::arithmetic::div_mod::lemma_fundamental_div_mod(t2, period());
    assert(t1 - t2 + half_period() == (wrap_ticks(t1) - t2 + half_period()) + q1 * period())
        by (nonlinear_arith)
        requires
            t1 == period() * q1 + wrap_ticks(t1);
    lemma_shift_by_periods(wrap_ticks(t1) - t2 + half_period(), q1);
    assert(t1 - t2 + half_period() == (t1 - wrap_ticks(t2) + half_period()) + (-q2) * period())
        by (nonlinear_arith)
        requires
            t2 == period() * q2 + wrap_ticks(t2);
    lemma_shift_by_periods(t1 - wrap_ticks(t2) + half_period(), -q2);
}

/// A tick count is at distance zero from itself, so no tick is before itself.
pub proof fn lemma_distance_to_self(t: int)
    ensures
        tick_distance(t, t) == 0,
{
    lemma_small_mod(half_period() as nat, period() as nat);
}

/// Swapping the two arguments negates the distance, except at the one
/// distance, minus half a period, whose negation is out of range.
pub proof fn lemma_distance_antisymmetric(t1: int, t2: int)
    requires
        tick_distance(t1, t2) != -half_period(),
    ensures
        tick_distance(t2, t1) == -tick_distance(t1, t2),
{
    let a = t1 - t2 + half_period();
    let q = a / period();
    vstd::arithmetic::div_mod::lemma_fundamental_div_mod(a, period());
    let r = a % period();
    assert(0 < r < period());
    assert(t2 - t1 + half_period() == (period() - r) + (-q) * period())
        by (nonlinear_arith)
        requires
            a == period() * q + r,
            a == t1 - t2 + half_period();
    lemma_shift_by_periods(period() - r, -q);
    lemma_small_mod((period() - r) as nat, period() as nat);
}

} // verus!
