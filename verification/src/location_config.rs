//! The Auto location mode: switching between high and low accuracy by how
//! much the user moves.
//!
//! With record_count the number of locations logged in the past minute,
//! high -> low accuracy happens if record_count < THRESHOLD, and low -> high
//! accuracy if record_count >= THRESHOLD + HYSTERESIS.

use vstd::prelude::*;

verus! {

/// Records per minute below which a high-accuracy user counts as stopped.
pub const THRESHOLD: i32 = 6;
/// Extra records per minute a low-accuracy user needs to count as moving.
pub const HYSTERESIS: i32 = 1;

/// Accuracy of the standard location service.
#[derive(Debug, Clone, Copy, PartialEq, Eq, Structural)]
pub enum LocationAccuracyMode {
    Best,
    TenMeters,
    HundredMeters,
    Kilometer,
    ThreeKilometers,
}

/// What the auto mode does to its configuration.
#[derive(Debug, Clone, Copy, PartialEq, Eq, Structural)]
pub enum AutoAction {
    /// Nothing changes.
    Keep,
    /// Switch the auto mode's standard accuracy.
    SwitchTo(LocationAccuracyMode),
    /// The auto mode is in an unexpected state: reset it to its default.
    ResetToDefault,
}

/// Whether deciding needs the count of records in the past minute: only in
/// auto mode with the standard service at Best or HundredMeters accuracy.
pub fn auto_needs_count(auto_on: bool, auto_standard_on: bool, mode: LocationAccuracyMode) -> (needs: bool)
    ensures
        needs == (auto_on && auto_standard_on && (mode == LocationAccuracyMode::Best || mode
            == LocationAccuracyMode::HundredMeters)),
{
    auto_on && auto_standard_on && (mode == LocationAccuracyMode::Best || mode
        == LocationAccuracyMode::HundredMeters)
}

pub open spec fn auto_action_spec(auto_on: bool, auto_standard_on: bool, mode: LocationAccuracyMode, count: i32) -> AutoAction {
    if !auto_on {
        AutoAction::Keep
    } else if auto_standard_on && mode == LocationAccuracyMode::Best {
        if count < THRESHOLD { AutoAction::SwitchTo(LocationAccuracyMode::HundredMeters) } else { AutoAction::Keep }
    } else if auto_standard_on && mode == LocationAccuracyMode::HundredMeters {
        if count >= THRESHOLD + HYSTERESIS { AutoAction::SwitchTo(LocationAccuracyMode::Best) } else { AutoAction::Keep }
    } else {
        AutoAction::ResetToDefault
    }
}

/// The auto mode's step: from Best to HundredMeters when stopped (fewer
/// than THRESHOLD records in the past minute), from HundredMeters to Best
/// when moving (at least THRESHOLD + HYSTERESIS), nothing outside auto
/// mode, and a reset to the default in any other auto state. `count` is
/// read only when auto_needs_count holds.
pub fn update_auto_location_config(
    auto_on: bool,
    auto_standard_on: bool,
    mode: LocationAccuracyMode,
    count: i32,
) -> (action: AutoAction)
    ensures
        action == auto_action_spec(auto_on, auto_standard_on, mode, count),
{
    if !auto_on {
        return AutoAction::Keep;
    }
    if auto_standard_on && mode == LocationAccuracyMode::Best {
        if count < THRESHOLD { AutoAction::SwitchTo(LocationAccuracyMode::HundredMeters) } else { AutoAction::Keep }
    } else if auto_standard_on && mode == LocationAccuracyMode::HundredMeters {
        if count >= THRESHOLD + HYSTERESIS { AutoAction::SwitchTo(LocationAccuracyMode::Best) } else { AutoAction::Keep }
    } else {
        AutoAction::ResetToDefault
    }
}

/// The mode after an action.
pub open spec fn apply_action(mode: LocationAccuracyMode, action: AutoAction) -> LocationAccuracyMode {
    match action {
        AutoAction::SwitchTo(m) => m,
        _ => mode,
    }
}

/// No flapping: a switch made at some count is not undone at the same
/// count; with the switched mode, the same count keeps the mode.
pub proof fn auto_switch_is_stable(mode: LocationAccuracyMode, count: i32)
    ensures
        ({
            let a = auto_action_spec(true, true, mode, count);
            a is SwitchTo ==> auto_action_spec(true, true, apply_action(mode, a), count) == AutoAction::Keep
        }),
{
}

/// Switching to low accuracy and back takes at least HYSTERESIS more
/// records per minute than the switch down had.
pub proof fn auto_round_trip_needs_hysteresis(down_count: i32, up_count: i32)
    requires
        auto_action_spec(true, true, LocationAccuracyMode::Best, down_count)
            == AutoAction::SwitchTo(LocationAccuracyMode::HundredMeters),
        auto_action_spec(true, true, LocationAccuracyMode::HundredMeters, up_count)
            == AutoAction::SwitchTo(LocationAccuracyMode::Best),
    ensures
        up_count >= down_count + 1 + HYSTERESIS,
{
}

} // verus!
