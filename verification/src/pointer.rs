//! The pointer mapper: given a finished trackpad snapshot and the output
//! surface's resolution, select the dominant touch, normalize its raw
//! coordinates into the output space, and combine the result with the
//! physical-button state into one pointer command.

use vstd::prelude::*;

use vstd::arithmetic::div_mod::lemma_div_is_ordered;
use vstd::arithmetic::div_mod::lemma_div_multiples_vanish_fancy;
use vstd::arithmetic::div_mod::lemma_div_pos_is_pos;
use vstd::arithmetic::mul::lemma_mul_inequality;
use vstd::arithmetic::mul::lemma_mul_is_associative;
use vstd::arithmetic::mul::lemma_mul_nonnegative;

use crate::trackpad::TouchLimits;
use crate::trackpad::TrackedTouchState;
use crate::trackpad::TrackpadState;
use crate::trackpad::beats;
use crate::trackpad::in_range;
use crate::trackpad::is_selected;
use crate::trackpad::lemma_selected_unique;

verus! {

/// The fully resolved output of one frame: an absolute position to move
/// to, withheld when no touch qualifies, and the three button states,
/// asserted every frame.
#[derive(Clone, Copy, Debug, PartialEq, Eq)]
pub struct PointerCommand {
    pub movement: Option<(i32, i32)>,
    pub left: bool,
    pub right: bool,
    pub middle: bool,
}

/// `num / den` rounded to the nearest integer, halves away from zero;
/// meant for `num >= 0` and `den > 0`.
pub open spec fn round_ratio(num: int, den: int) -> int {
    (2 * num + den) / (2 * den)
}

/// Map `v` from the calibrated range `[lo, hi]` onto `[0, extent]`,
/// rounding to the nearest step. A zero-width range normalizes to 0
/// rather than dividing by zero.
pub open spec fn norm_axis(v: int, lo: int, hi: int, extent: int) -> int {
    if lo == hi {
        0
    } else {
        round_ratio((v - lo) * extent, hi - lo)
    }
}

/// The pressure above which a touch alone counts as a left click: a
/// quarter of the calibrated pressure range, rounded to nearest.
pub open spec fn pressure_threshold(limits: TouchLimits) -> int {
    round_ratio(limits.max_p - limits.min_p, 4)
}

/// The command a snapshot maps to: a pure function of the touch table,
/// the calibration limits, the button booleans, and the resolution.
pub open spec fn command_of(
    m: Map<i32, TrackedTouchState>,
    limits: TouchLimits,
    left: bool,
    right: bool,
    middle: bool,
    width: int,
    height: int,
) -> PointerCommand {
    if exists|k: i32| #[trigger] m.contains_key(k) && in_range(limits, m[k]) {
        let sel = choose|sel: i32| is_selected(m, limits, sel);
        PointerCommand {
            movement: Some(
                (
                    norm_axis(m[sel].x as int, limits.min_x as int, limits.max_x as int, width) as i32,
                    norm_axis(m[sel].y as int, limits.min_y as int, limits.max_y as int, height) as i32,
                ),
            ),
            left: left || m[sel].p as int >= pressure_threshold(limits),
            right,
            middle,
        }
    } else {
        PointerCommand { movement: None, left, right, middle }
    }
}

/// The command owed for a whole snapshot.
pub open spec fn spec_command(s: TrackpadState, width: int, height: int) -> PointerCommand {
    command_of(s.touches@, s.touch_limits, s.left, s.right, s.middle, width, height)
}

/// Law: normalization never leaves the output range; an in-range value
/// lands in `[0, extent]` whatever the calibration range is.
pub proof fn lemma_normalization_bounds(v: int, lo: int, hi: int, extent: int)
    requires
        lo <= v <= hi,
        0 <= extent,
    ensures
        0 <= norm_axis(v, lo, hi, extent) <= extent,
{
    if lo != hi {
        let den = hi - lo;
        let num = (v - lo) * extent;
        lemma_mul_nonnegative(v - lo, extent);
        lemma_div_pos_is_pos(2 * num + den, 2 * den);
        lemma_mul_inequality(v - lo, den, extent);
        assert(num <= den * extent);
        lemma_div_is_ordered(2 * num + den, 2 * (den * extent) + den, 2 * den);
        lemma_mul_is_associative(2, den, extent);
        assert(2 * (den * extent) + den == (2 * den) * extent + den);
        lemma_div_multiples_vanish_fancy(extent, den, 2 * den);
        assert(((2 * den) * extent + den) / (2 * den) == extent);
    }
}

/// Law: a zero-width calibration range normalizes to 0 instead of
/// faulting on a zero divisor.
pub proof fn lemma_zero_range_normalization(v: int, lo: int, extent: int)
    ensures
        norm_axis(v, lo, lo, extent) == 0,
{
}

/// Law: the mapper is a pure function of the snapshot and the
/// resolution; two snapshots that agree on the touch table, the limits
/// and the button states map to the same command.
pub proof fn lemma_mapper_deterministic(s1: TrackpadState, s2: TrackpadState, width: int, height: int)
    requires
        s1.touches@ == s2.touches@,
        s1.touch_limits == s2.touch_limits,
        s1.left == s2.left,
        s1.right == s2.right,
        s1.middle == s2.middle,
    ensures
        spec_command(s1, width, height) == spec_command(s2, width, height),
{
}

/// Law: the dominant touch has the greatest pressure of the in-range
/// records, and an out-of-range record is never the dominant touch.
pub proof fn lemma_selection_max_pressure(
    m: Map<i32, TrackedTouchState>,
    limits: TouchLimits,
    slot: i32,
    other: i32,
)
    requires
        is_selected(m, limits, slot),
        m.contains_key(other),
    ensures
        in_range(limits, m[slot]),
        in_range(limits, m[other]) ==> m[slot].p >= m[other].p,
        !in_range(limits, m[other]) ==> slot != other,
{
    assert(m.contains_key(other));
    if in_range(limits, m[other]) {
        assert(beats(slot, m[slot], other, m[other]));
    }
}

/// Normalize one coordinate, exactly as `norm_axis` states.
pub fn normalize_axis(v: i32, lo: i32, hi: i32, extent: i32) -> (r: i32)
    requires
        lo <= v <= hi,
        0 <= extent,
    ensures
        r as int == norm_axis(v as int, lo as int, hi as int, extent as int),
        0 <= r <= extent,
{
    proof {
        lemma_normalization_bounds(v as int, lo as int, hi as int, extent as int);
    }
    if lo == hi {
        return 0;
    }
    let dv: u64 = (v as i64 - lo as i64) as u64;
    let range: u64 = (hi as i64 - lo as i64) as u64;
    proof {
        assert(dv <= 0xFFFF_FFFFu64);
        assert(range <= 0xFFFF_FFFFu64);
        lemma_mul_inequality(dv as int, 0xFFFF_FFFF, extent as int);
        lemma_mul_inequality(extent as int, 0x7FFF_FFFF, 0xFFFF_FFFF);
        assert(0xFFFF_FFFF * (extent as int) == (extent as int) * 0xFFFF_FFFF);
        assert((dv as int) * (extent as int) <= 0x7FFF_FFFF * 0xFFFF_FFFF);
    }
    let num: u128 = (dv as u128) * (extent as u128);
    let den: u128 = range as u128;
    let q: u128 = (2 * num + den) / (2 * den);
    proof {
        assert(q as int == round_ratio((v as int - lo as int) * (extent as int), hi as int - lo as int));
        assert(q <= extent as u128);
    }
    q as i32
}

/// The left-click pressure threshold, exactly as `pressure_threshold`
/// states.
pub fn pressure_threshold_value(limits: TouchLimits) -> (r: i32)
    requires
        limits.min_p <= limits.max_p,
    ensures
        r as int == pressure_threshold(limits),
        0 <= r,
{
    let range: u64 = (limits.max_p as i64 - limits.min_p as i64) as u64;
    let q: u64 = (2 * range + 4) / 8;
    proof {
        lemma_div_pos_is_pos(2 * (range as int) + 4, 8);
        lemma_div_is_ordered(2 * (range as int) + 4, 8589934594, 8);
        lemma_div_multiples_vanish_fancy(1073741824, 2, 8);
        assert(8 * 1073741824 + 2 == 8589934594);
        assert(q <= 1073741824u64);
    }
    q as i32
}

/// Map a finished snapshot and the output resolution to the frame's
/// pointer command: the dominant touch's normalized position, if one
/// qualifies, and the button states, with firm pressure alone counting
/// as a left click.
pub fn map_state(state: &TrackpadState, width: i32, height: i32) -> (r: PointerCommand)
    requires
        0 <= width,
        0 <= height,
    ensures
        r == spec_command(*state, width as int, height as int),
        r.movement matches Some(mv) ==> 0 <= mv.0 <= width && 0 <= mv.1 <= height,
{
    let limits = state.touch_limits;
    let selection = state.touches.select_best(limits);
    match selection {
        None => {
            proof {
                let m = state.touches@;
                if exists|k: i32| #[trigger] m.contains_key(k) && in_range(limits, m[k]) {
                    let k = choose|k: i32| #[trigger] m.contains_key(k) && in_range(limits, m[k]);
                    assert(!in_range(limits, m[k]));
                }
            }
            PointerCommand { movement: None, left: state.left, right: state.right, middle: state.middle }
        },
        Some(sel) => {
            let slot = sel.0;
            let touch = sel.1;
            proof {
                let m = state.touches@;
                assert(m.contains_key(slot) && in_range(limits, m[slot]));
                let chosen = choose|s2: i32| is_selected(m, limits, s2);
                lemma_selected_unique(m, limits, chosen, slot);
            }
            let ax = normalize_axis(touch.x, limits.min_x, limits.max_x, width);
            let ay = normalize_axis(touch.y, limits.min_y, limits.max_y, height);
            let threshold = pressure_threshold_value(limits);
            let left = state.left || touch.p >= threshold;
            PointerCommand { movement: Some((ax, ay)), left, right: state.right, middle: state.middle }
        },
    }
}

} // verus!
