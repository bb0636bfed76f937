use stem::basemap::{automap_is_on, content_type, fetch_is_disabled, is_image_ext, should_refresh_cache, REFRESH_CACHE_AFTER};
use stem::color::{field1_column, ColoredDataStream};
use stem::events::{handle_url_scheme, PendingEvents};
use stem::location_config::{auto_needs_count, update_auto_location_config, AutoAction, LocationAccuracyMode};
use stem::memory::{backend_backstop_points, db_cache_size_pragma, LastMapQuery};
use stem::server::FrontendKey;
use stem::tz::{update_map_tz, TimeZonePreference, TzSource};

#[test]
fn content_types() {
    assert_eq!(content_type(Some("json")), "application/json");
    assert_eq!(content_type(Some("pbf")), "application/x-protobuf");
    assert_eq!(content_type(Some("jpg")), "image/jpg");
    assert_eq!(content_type(Some("webp")), "image/webp");
    assert_eq!(content_type(Some("txt")), "txt");
    assert_eq!(content_type(None), "unknown");
    assert!(is_image_ext(Some("jpeg")));
    assert!(!is_image_ext(Some("pbf")));
    assert!(!is_image_ext(None));
}

#[test]
fn cache_refresh() {
    assert!(!should_refresh_cache(Some((REFRESH_CACHE_AFTER, 0)), false));
    assert!(should_refresh_cache(Some((REFRESH_CACHE_AFTER, 1)), false));
    assert!(!should_refresh_cache(Some((REFRESH_CACHE_AFTER + 1, 0)), true));
    assert!(!should_refresh_cache(None, false));
    assert!(!fetch_is_disabled(None));
    assert!(fetch_is_disabled(Some(true)));
    assert!(!automap_is_on(None));
    assert!(automap_is_on(Some(true)));
}

#[test]
fn field1_columns() {
    assert_eq!(field1_column(&ColoredDataStream::Uncolored), None);
    assert_eq!(field1_column(&ColoredDataStream::TimeOfDay), None);
    assert_eq!(field1_column(&ColoredDataStream::Speed), Some("speed"));
    assert_eq!(field1_column(&ColoredDataStream::DwellScore), Some("ellipsoid_altitude"));
}

#[test]
fn url_scheme_waits_for_frontend() {
    let mut pending: Option<PendingEvents> = None;
    let sent = handle_url_scheme(&mut pending, "scoria://place?name=a".into(), false);
    assert!(sent.is_none());
    assert_eq!(pending.as_ref().unwrap().opened_url.as_deref(), Some("scoria://place?name=a"));
    let sent = handle_url_scheme(&mut pending, "scoria://place?name=b".into(), true);
    assert_eq!(sent.unwrap().opened_url.as_deref(), Some("scoria://place?name=b"));
    assert!(pending.is_none());
}

#[test]
fn auto_accuracy_hysteresis() {
    assert!(auto_needs_count(true, true, LocationAccuracyMode::Best));
    assert!(!auto_needs_count(true, true, LocationAccuracyMode::TenMeters));
    assert!(!auto_needs_count(false, true, LocationAccuracyMode::Best));
    assert_eq!(update_auto_location_config(true, true, LocationAccuracyMode::Best, 5), AutoAction::SwitchTo(LocationAccuracyMode::HundredMeters));
    assert_eq!(update_auto_location_config(true, true, LocationAccuracyMode::Best, 6), AutoAction::Keep);
    assert_eq!(update_auto_location_config(true, true, LocationAccuracyMode::HundredMeters, 6), AutoAction::Keep);
    assert_eq!(update_auto_location_config(true, true, LocationAccuracyMode::HundredMeters, 7), AutoAction::SwitchTo(LocationAccuracyMode::Best));
    assert_eq!(update_auto_location_config(false, true, LocationAccuracyMode::Best, 0), AutoAction::Keep);
    assert_eq!(update_auto_location_config(true, false, LocationAccuracyMode::Best, 0), AutoAction::ResetToDefault);
    assert_eq!(update_auto_location_config(true, true, LocationAccuracyMode::Kilometer, 0), AutoAction::ResetToDefault);
}

#[test]
fn memory_budgets() {
    let gib: u64 = 1 << 30;
    // no measurement: 80 bytes per point
    assert_eq!(backend_backstop_points(None, 8 * gib, 1), 2 * gib / 80);
    assert_eq!(backend_backstop_points(None, 8 * gib, 2), 2 * gib / 80 / 2);
    assert_eq!(backend_backstop_points(None, 8 * gib, 0), 2 * gib / 80);
    // a measured rate above the fallback is used
    let last = Some(LastMapQuery { n_points: 1000, tileset_bytes: 200_000 });
    assert_eq!(backend_backstop_points(last, 8 * gib, 1), 2 * gib / 200);
    // too few points to measure
    let last = Some(LastMapQuery { n_points: 999, tileset_bytes: 200_000 });
    assert_eq!(backend_backstop_points(last, 8 * gib, 1), 2 * gib / 80);
    // the floor
    assert_eq!(backend_backstop_points(None, 1000, 1), 100_000);
    assert_eq!(db_cache_size_pragma(8 * gib), format!("-{}", 8 * gib / 16 / 10 / 1024));
    assert_eq!(db_cache_size_pragma(0), "-2000");
    assert_eq!(db_cache_size_pragma(u64::MAX), "-200000");
}

#[test]
fn map_time_zone() {
    assert_eq!(update_map_tz(TimeZonePreference::Localized, "", Some(TimeZonePreference::Localized), true, true), TzSource::Keep);
    assert_eq!(update_map_tz(TimeZonePreference::Localized, "", Some(TimeZonePreference::Localized), true, false), TzSource::MapCenter);
    assert_eq!(update_map_tz(TimeZonePreference::Localized, "", Some(TimeZonePreference::Current), true, true), TzSource::MapCenter);
    assert_eq!(update_map_tz(TimeZonePreference::Localized, "", None, false, false), TzSource::Keep);
    assert_eq!(update_map_tz(TimeZonePreference::Current, "", Some(TimeZonePreference::Current), true, true), TzSource::System);
    assert_eq!(update_map_tz(TimeZonePreference::Fixed, "Europe/Paris", None, true, true), TzSource::Fixed("Europe/Paris".into()));
}

#[test]
fn frontend_keys() {
    assert_eq!(FrontendKey::new_insecure().expose(), 123);
    let k = FrontendKey::new();
    assert_eq!(k.expose(), k.0);
}
