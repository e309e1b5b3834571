//! Gear selection of the drivetrain.
//!
//! Gear 0 is neutral, gears `1..=gear_count` are the forward gears.

use vstd::prelude::*;

verus! {

/// The gear kept within `0..=gear_count`.
pub open spec fn spec_manual_gear(current_gear: int, gear_count: int) -> int {
    if current_gear < 0 {
        0
    } else if current_gear > gear_count {
        gear_count
    } else {
        current_gear
    }
}

/// One gear up above the upshift speed unless in the top gear, else one
/// gear down below the downshift speed unless in first gear or lower.
pub open spec fn spec_automatic_gear(
    current_gear: int,
    gear_count: int,
    above_upshift: bool,
    below_downshift: bool,
) -> int {
    if above_upshift && current_gear < gear_count {
        current_gear + 1
    } else if below_downshift && current_gear > 1 {
        current_gear - 1
    } else {
        current_gear
    }
}

/// One gear up when asked and not in the top gear, then one gear down when
/// asked and above neutral.
pub open spec fn spec_shifted_gear(current_gear: int, gear_count: int, shift_up: bool, shift_down: bool) -> int {
    let up = if shift_up && current_gear < gear_count { current_gear + 1 } else { current_gear };
    if shift_down && up > 0 {
        up - 1
    } else {
        up
    }
}

/// Manual and sequential transmissions: the gear kept within `0..=gear_count`.
pub fn manual_gear(current_gear: i32, gear_count: usize) -> (r: i32)
    requires
        gear_count <= i32::MAX,
    ensures
        r == spec_manual_gear(current_gear as int, gear_count as int),
        0 <= r <= gear_count,
        0 <= current_gear <= gear_count ==> r == current_gear,
        current_gear < 0 ==> r == 0,
        current_gear > gear_count ==> r == gear_count,
{
    let max_gear = gear_count as i32;
    if current_gear < 0 {
        0
    } else if current_gear > max_gear {
        max_gear
    } else {
        current_gear
    }
}

/// Automatic transmission gear selection, given whether the engine speed is
/// above the upshift and below the downshift threshold.
pub fn automatic_gear(
    current_gear: i32,
    gear_count: usize,
    above_upshift: bool,
    below_downshift: bool,
) -> (r: i32)
    requires
        gear_count <= i32::MAX,
    ensures
        r == spec_automatic_gear(current_gear as int, gear_count as int, above_upshift, below_downshift),
        above_upshift && current_gear < gear_count ==> r == current_gear + 1,
        !(above_upshift && current_gear < gear_count) && below_downshift && current_gear > 1
            ==> r == current_gear - 1,
        !(above_upshift && current_gear < gear_count) && !(below_downshift && current_gear > 1)
            ==> r == current_gear,
        current_gear - 1 <= r <= current_gear + 1,
        r > current_gear ==> r <= gear_count,
        r < current_gear ==> r >= 1,
{
    if above_upshift && current_gear < gear_count as i32 {
        current_gear + 1
    } else if below_downshift && current_gear > 1 {
        current_gear - 1
    } else {
        current_gear
    }
}

/// Driver gear shifts.
pub fn shifted_gear(current_gear: i32, gear_count: usize, shift_up: bool, shift_down: bool) -> (r: i32)
    requires
        gear_count <= i32::MAX,
    ensures
        r == spec_shifted_gear(current_gear as int, gear_count as int, shift_up, shift_down),
        !shift_up && !shift_down ==> r == current_gear,
        shift_up && !shift_down ==> r == (if current_gear < gear_count { current_gear + 1 } else { current_gear as int }),
        !shift_up && shift_down ==> r == (if current_gear > 0 { current_gear - 1 } else { current_gear as int }),
        shift_up && shift_down && 0 <= current_gear < gear_count ==> r == current_gear,
        current_gear - 1 <= r <= current_gear + 1,
{
    let mut gear = current_gear;
    if shift_up && gear < gear_count as i32 {
        gear = gear + 1;
    }
    if shift_down && gear > 0 {
        gear = gear - 1;
    }
    gear
}

/// Index into the gear table of a forward gear; `None` in neutral, reverse,
/// or beyond the table.
pub fn drive_gear_index(current_gear: i32, gear_count: usize) -> (r: Option<usize>)
    ensures
        r == (if current_gear <= 0 || current_gear > gear_count {
            None::<usize>
        } else {
            Some((current_gear - 1) as usize)
        }),
{
    if current_gear <= 0 || current_gear as usize > gear_count {
        None
    } else {
        Some((current_gear - 1) as usize)
    }
}

/// The manual clamp always lands between neutral and the top gear; driver
/// shifts keep a gear in that range; the automatic transmission keeps a
/// forward gear a forward gear.
pub proof fn lemma_gear_stays_in_range(current_gear: int, gear_count: nat, a: bool, b: bool)
    ensures
        0 <= spec_manual_gear(current_gear, gear_count as int) <= gear_count,
        0 <= current_gear <= gear_count ==> 0 <= spec_shifted_gear(current_gear, gear_count as int, a, b)
            <= gear_count,
        1 <= current_gear <= gear_count ==> 1 <= spec_automatic_gear(current_gear, gear_count as int, a, b)
            <= gear_count,
{
}

} // verus!
