use stem::logs::{first_logged_error, has_logged_error, log_tail_text};
use stem::mounted::{db_debug_name, keep_mount, next_mount_id, parse_mount_id, sort_mount_dirs};
use stem::number::{parse_i64, parse_u32, parse_u64};
use stem::text::{i64_to_string, u64_to_string};
use stem::update::{available_after_check, clear_available_if_updated, parse_latest_version, AvailableVersion, VersionError};

#[test]
fn integers_parse_like_std() {
    for s in ["0", "+5", "-5", "12345678901234567890", "9223372036854775807", "-9223372036854775808",
        "9223372036854775808", "", "+", "-", "1a", " 1", "٣"] {
        assert_eq!(parse_i64(s), s.parse::<i64>().ok(), "{s}");
        assert_eq!(parse_u32(s), s.parse::<u32>().ok(), "{s}");
        assert_eq!(parse_u64(s), s.parse::<u64>().ok(), "{s}");
    }
    assert_eq!(parse_u64("18446744073709551615"), Some(u64::MAX));
    assert_eq!(parse_u64("18446744073709551616"), None);
    assert_eq!(parse_u32("4294967295"), Some(u32::MAX));
    assert_eq!(parse_u32("4294967296"), None);
    assert_eq!(parse_u32("-0"), None);
}

#[test]
fn integers_format_like_std() {
    for n in [0i64, 7, -7, 10, 1234, i64::MIN, i64::MAX] {
        assert_eq!(i64_to_string(n), n.to_string());
        assert_eq!(parse_i64(&i64_to_string(n)), Some(n));
    }
    assert_eq!(u64_to_string(u64::MAX), u64::MAX.to_string());
}

#[test]
fn latest_version_text() {
    let v = parse_latest_version("42,1.2.3").unwrap();
    assert_eq!((v.code, v.name.as_str()), (42, "1.2.3"));
    let v = parse_latest_version("42,1.2.3,extra").unwrap();
    assert_eq!(v.name, "1.2.3");
    assert!(matches!(parse_latest_version("42"), Err(VersionError::MissingFields)));
    assert!(matches!(parse_latest_version("x,1"), Err(VersionError::InvalidCode)));
    assert!(available_after_check(41, AvailableVersion { code: 42, name: "n".into() }).is_some());
    assert!(available_after_check(42, AvailableVersion { code: 42, name: "n".into() }).is_none());
    let mut available = Some(AvailableVersion { code: 42, name: "n".into() });
    clear_available_if_updated(&mut available, 41);
    assert!(available.is_some());
    clear_available_if_updated(&mut available, 42);
    assert!(available.is_none());
}

#[test]
fn mount_dirs() {
    assert_eq!(parse_mount_id("3"), Some(3));
    assert_eq!(parse_mount_id("x"), None);
    let names: Vec<String> = vec!["3".into(), "junk".into(), "1".into(), "".into()];
    let (ids, unknown) = sort_mount_dirs(&names);
    assert_eq!(ids, vec![3, 1]);
    assert_eq!(unknown, vec![1, 3]);
    assert_eq!(next_mount_id(&vec![]), 1);
    assert_eq!(next_mount_id(&vec![3, 1]), 4);
    assert!(keep_mount(0, &vec![]));
    assert!(keep_mount(3, &vec![1, 3]));
    assert!(!keep_mount(2, &vec![1, 3]));
    assert_eq!(db_debug_name(2, Some("Trip")), "Trip (2)");
    assert_eq!(db_debug_name(2, None), "2");
}

#[test]
fn log_review() {
    assert!(has_logged_error("2024-01-01T00:00:00.000Z ERROR stem: failed"));
    assert!(!has_logged_error("2024-01-01T00:00:00.000Z  INFO stem: ok"));
    let logs = vec!["ok".to_string(), "x Z ERROR y".to_string(), "Z ERROR ".to_string()];
    assert_eq!(first_logged_error(&logs), Some(1));
    assert_eq!(first_logged_error(&vec!["ok".to_string()]), None);
    assert_eq!(log_tail_text("partial line\nfull line\n", true), "[log truncated]\nfull line\n");
    assert_eq!(log_tail_text("no newline", true), "[log truncated]\nno newline");
    assert_eq!(log_tail_text("all\n", false), "all\n");
}
