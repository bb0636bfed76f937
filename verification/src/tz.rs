//! Which time zone the map's times are shown in.

use vstd::prelude::*;

verus! {

/// The user's time zone preference.
#[derive(Debug, Clone, Copy, PartialEq, Eq, Structural)]
pub enum TimeZonePreference {
    /// The time zone at the map's center.
    Localized,
    /// The device's time zone.
    Current,
    /// A fixed time zone chosen by name.
    Fixed,
}

/// Where the map's time zone comes from after a state change.
#[derive(Debug, Clone, PartialEq, Eq)]
pub enum TzSource {
    /// Nothing to update.
    Keep,
    /// The time zone at the map's center.
    MapCenter,
    /// The device's time zone.
    System,
    /// The fixed time zone of that name.
    Fixed(String),
}

/// The map time zone's source, given the preference now and before the
/// change, whether the map has a center and whether it moved: nothing
/// while a localized preference stays localized over the same center (or
/// there is no center), else by the preference.
pub fn update_map_tz(
    tz_pref: TimeZonePreference,
    fixed_tz: &str,
    old_tz_pref: Option<TimeZonePreference>,
    has_center: bool,
    center_unchanged: bool,
) -> (source: TzSource)
    ensures
        ({
            let same_localized = old_tz_pref == Some(tz_pref) && tz_pref == TimeZonePreference::Localized
                && center_unchanged;
            if same_localized {
                source == TzSource::Keep
            } else {
                match tz_pref {
                    TimeZonePreference::Localized => source == (if has_center { TzSource::MapCenter } else { TzSource::Keep }),
                    TimeZonePreference::Current => source == TzSource::System,
                    TimeZonePreference::Fixed => (source matches TzSource::Fixed(n) && n@ == fixed_tz@),
                }
            }
        }),
{
    let same_pref = match old_tz_pref {
        Some(p) => p == tz_pref,
        None => false,
    };
    if same_pref && tz_pref == TimeZonePreference::Localized && center_unchanged {
        return TzSource::Keep;
    }
    match tz_pref {
        TimeZonePreference::Localized => if has_center { TzSource::MapCenter } else { TzSource::Keep },
        TimeZonePreference::Current => TzSource::System,
        TimeZonePreference::Fixed => TzSource::Fixed(String::from_str(fixed_tz)),
    }
}

} // verus!
