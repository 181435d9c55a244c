//! Range transforms from raw hardware axis values to normalized levels.
//!
//! A stick axis is reported as an integer level in `-127..=127` (level / 127
//! is the normalized value in [-1.0, 1.0]); a trigger as a level in `0..=255`
//! (level / 255 is the normalized value in [0.0, 1.0]).
use vstd::prelude::*;

verus! {

/// The largest stick level (normalized 1.0).
pub const STICK_MAX: i32 = 127;

/// The largest trigger level (normalized 1.0).
pub const TRIGGER_MAX: i32 = 255;

/// Division that rounds toward zero, as Rust's `/` does on integers.
pub open spec fn trunc_div(a: int, b: int) -> int
    recommends
        b > 0,
{
    if a >= 0 {
        a / b
    } else {
        -((-a) / b)
    }
}

pub open spec fn clamp(v: int, lo: int, hi: int) -> int {
    if v < lo {
        lo
    } else if v > hi {
        hi
    } else {
        v
    }
}

/// Half of the raw range, rounded down.
pub open spec fn half_range(min: int, max: int) -> int {
    (max - min) / 2
}

/// Half-width of the dead band: a quarter of the half range, rounded down,
/// so the band covers an eighth of the raw range on each side of the centre.
pub open spec fn dead_width(min: int, max: int) -> int {
    half_range(min, max) / 4
}

/// The raw centre of the range.
pub open spec fn midpoint(min: int, max: int) -> int {
    min + half_range(min, max)
}

/// Offset from the centre with the dead band cut out: zero inside the band,
/// and moved toward the centre by the band's width outside it.
pub open spec fn dead_offset(min: int, max: int, val: int) -> int {
    let value = val - midpoint(min, max);
    let deadz = dead_width(min, max);
    if value < deadz {
        if value > -deadz {
            0
        } else {
            value + deadz
        }
    } else {
        value - deadz
    }
}

/// The extent that `dead_offset` spans on each side of the centre.
pub open spec fn live_extent(min: int, max: int) -> int {
    half_range(min, max) - dead_width(min, max)
}

/// A stick level: the offset past the dead band, scaled so that the live
/// extent maps to 127, and clamped to `-127..=127`.
pub open spec fn stick_level(min: int, max: int, val: int) -> int {
    clamp(trunc_div(dead_offset(min, max, val) * 127, live_extent(min, max)), -127, 127)
}

/// A trigger level: `[min, max]` mapped linearly onto `0..=255`, rounded
/// toward zero and clamped.
pub open spec fn trigger_level(min: int, max: int, val: int) -> int {
    if val <= min {
        0
    } else {
        clamp((val - min) * 255 / (max - min), 0, 255)
    }
}

/// A stick calibration that leaves a non-empty live range.
pub open spec fn stick_calibrated(min: int, max: int) -> bool {
    max - min >= 2
}

proof fn lemma_live_extent_positive(min: int, max: int)
    requires
        stick_calibrated(min, max),
    ensures
        live_extent(min, max) >= 1,
        dead_width(min, max) >= 0,
        live_extent(min, max) >= dead_width(min, max),
{
}

/// A raw value at the exact centre of the calibrated range reads as zero.
pub proof fn lemma_midpoint_is_zero(min: int, max: int, val: int)
    requires
        stick_calibrated(min, max),
        2 * val == min + max,
    ensures
        stick_level(min, max, val) == 0,
{
    assert(dead_offset(min, max, val) == 0);
}

/// The ends of the calibrated range read as -1.0 and 1.0 exactly, also on a
/// range that is not symmetric about zero.
pub proof fn lemma_extremes(min: int, max: int)
    requires
        stick_calibrated(min, max),
    ensures
        stick_level(min, max, min) == -127,
        stick_level(min, max, max) == 127,
{
    lemma_live_extent_positive(min, max);
    let full = live_extent(min, max);
    assert(dead_offset(min, max, min) == -full);
    assert(dead_offset(min, max, max) >= full);
    assert((-full * 127) == -(full * 127)) by (nonlinear_arith);
    assert((full * 127) / full == 127) by (nonlinear_arith)
        requires
            full >= 1,
    ;
    let hi = dead_offset(min, max, max);
    assert((hi * 127) / full >= 127) by (nonlinear_arith)
        requires
            full >= 1,
            hi >= full,
    {
        vstd::arithmetic::div_mod::lemma_div_is_ordered(full * 127, hi * 127, full);
    }
}

/// Raw values within the dead band around the centre read as exactly zero.
pub proof fn lemma_dead_band(min: int, max: int, val: int)
    requires
        stick_calibrated(min, max),
        -dead_width(min, max) <= val - midpoint(min, max) <= dead_width(min, max),
    ensures
        dead_offset(min, max, val) == 0,
        stick_level(min, max, val) == 0,
{
}

/// Outside the dead band the centred offset is strictly increasing in the raw
/// value.
pub proof fn lemma_offset_strictly_increasing(min: int, max: int, a: int, b: int)
    requires
        stick_calibrated(min, max),
        a < b,
        a - midpoint(min, max) > dead_width(min, max)
            || a - midpoint(min, max) < -dead_width(min, max),
        b - midpoint(min, max) > dead_width(min, max)
            || b - midpoint(min, max) < -dead_width(min, max),
    ensures
        dead_offset(min, max, a) < dead_offset(min, max, b),
{
}

proof fn lemma_trunc_div_monotonic(a: int, b: int, d: int)
    requires
        a <= b,
        d > 0,
    ensures
        trunc_div(a, d) <= trunc_div(b, d),
{
    if a >= 0 {
        vstd::arithmetic::div_mod::lemma_div_is_ordered(a, b, d);
    } else if b >= 0 {
        vstd::arithmetic::div_mod::lemma_div_pos_is_pos(-a, d);
        vstd::arithmetic::div_mod::lemma_div_pos_is_pos(b, d);
    } else {
        vstd::arithmetic::div_mod::lemma_div_is_ordered(-b, -a, d);
    }
}

/// Stick levels never decrease as the raw value grows.
pub proof fn lemma_stick_monotonic(min: int, max: int, a: int, b: int)
    requires
        stick_calibrated(min, max),
        a <= b,
    ensures
        stick_level(min, max, a) <= stick_level(min, max, b),
        -127 <= stick_level(min, max, a) <= 127,
{
    lemma_live_extent_positive(min, max);
    let oa = dead_offset(min, max, a);
    let ob = dead_offset(min, max, b);
    assert(oa <= ob);
    assert(oa * 127 <= ob * 127) by (nonlinear_arith)
        requires
            oa <= ob,
    ;
    lemma_trunc_div_monotonic(oa * 127, ob * 127, live_extent(min, max));
}

/// Trigger levels stay within `0..=255` and never decrease as the raw value
/// grows.
pub proof fn lemma_trigger_monotonic(min: int, max: int, a: int, b: int)
    requires
        min < max,
        a <= b,
    ensures
        0 <= trigger_level(min, max, a) <= trigger_level(min, max, b) <= 255,
{
    if a > min {
        vstd::arithmetic::div_mod::lemma_div_is_ordered((a - min) * 255, (b - min) * 255, max - min);
        vstd::arithmetic::div_mod::lemma_div_pos_is_pos((a - min) * 255, max - min);
    } else if b > min {
        vstd::arithmetic::div_mod::lemma_div_pos_is_pos((b - min) * 255, max - min);
    }
}

/// Centres the raw range and cuts out the dead band around the centre.
/// Returns the offset and the live extent that it spans on either side.
pub fn deadzone(min: i32, max: i32, val: i32) -> (r: (i64, i64))
    requires
        min <= max,
    ensures
        r.0 == dead_offset(min as int, max as int, val as int),
        r.1 == live_extent(min as int, max as int),
{
    let range: i64 = max as i64 - min as i64;
    let halfr: i64 = range / 2;
    let deadz: i64 = halfr / 4;
    let midpt: i64 = min as i64 + halfr;
    let value: i64 = val as i64 - midpt;
    let value: i64 = if value < deadz {
        if value > -deadz {
            0
        } else {
            value + deadz
        }
    } else {
        value - deadz
    };
    (value, halfr - deadz)
}

/// Rust's integer division on a divisor that is positive.
fn div_toward_zero(a: i64, b: i64) -> (r: i64)
    requires
        b > 0,
        -0x1_0000_0000_0000 <= a <= 0x1_0000_0000_0000,
    ensures
        r == trunc_div(a as int, b as int),
{
    if a >= 0 {
        a / b
    } else {
        let n: i64 = -a;
        -(n / b)
    }
}

/// The stick level of a raw value under calibration `[min, max]`.
pub fn transform(min: i32, max: i32, val: i32) -> (r: i32)
    requires
        stick_calibrated(min as int, max as int),
    ensures
        r == stick_level(min as int, max as int, val as int),
        -127 <= r <= 127,
{
    let (value, full) = deadzone(min, max, val);
    proof {
        lemma_live_extent_positive(min as int, max as int);
    }
    let scaled: i64 = div_toward_zero(value * 127, full);
    if scaled < -127 {
        -127
    } else if scaled > 127 {
        127
    } else {
        scaled as i32
    }
}

/// The trigger level of a raw value on the raw range `[min, max]`.
pub fn transform2(min: i32, max: i32, val: i32) -> (r: i32)
    requires
        min < max,
    ensures
        r == trigger_level(min as int, max as int, val as int),
        0 <= r <= 255,
{
    if val <= min {
        return 0;
    }
    let span: i64 = max as i64 - min as i64;
    let level: i64 = (val as i64 - min as i64) * 255 / span;
    if level > 255 {
        255
    } else {
        level as i32
    }
}

} // verus!
