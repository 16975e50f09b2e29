use cat_repo_auditor::fetch::{format_date_iso, relative_date, relative_date_at};
use chrono::{Duration, Utc};

#[test]
fn relative_date_invalid_input_returns_as_is() {
    let result = relative_date("not-a-date");
    assert_eq!(result, "not-a-date");
}

#[test]
fn relative_date_old_timestamp_returns_years() {
    let result = relative_date("2000-01-01T00:00:00Z");
    assert!(result.ends_with('y'), "expected year format, got: {result}");
}

#[test]
fn relative_date_today() {
    let ts = (Utc::now() - Duration::hours(1)).format("%Y-%m-%dT%H:%M:%SZ").to_string();
    assert_eq!(relative_date(&ts), "today");
}

#[test]
fn relative_date_days() {
    let ts = (Utc::now() - Duration::days(3)).format("%Y-%m-%dT%H:%M:%SZ").to_string();
    let result = relative_date(&ts);
    assert!(result.ends_with('d'), "expected Nd format, got: {result}");
}

#[test]
fn relative_date_weeks() {
    let ts = (Utc::now() - Duration::weeks(2)).format("%Y-%m-%dT%H:%M:%SZ").to_string();
    let result = relative_date(&ts);
    assert!(result.ends_with('w'), "expected Nw format, got: {result}");
}

#[test]
fn relative_date_months() {
    let ts = (Utc::now() - Duration::days(45)).format("%Y-%m-%dT%H:%M:%SZ").to_string();
    let result = relative_date(&ts);
    assert!(result.ends_with("mo"), "expected Nmo format, got: {result}");
}

#[test]
fn format_date_iso_roundtrips_valid_date() {
    let iso = "2024-03-15T10:30:00Z";
    assert_eq!(format_date_iso(iso), "2024-03-15T10:30:00Z");
}

#[test]
fn format_date_iso_returns_input_on_invalid() {
    let bad = "not-a-date";
    assert_eq!(format_date_iso(bad), bad);
}

#[test]
fn format_date_iso_normalises_offsets_to_utc() {
    assert_eq!(format_date_iso("2024-03-15T19:30:00+09:00"), "2024-03-15T10:30:00Z");
}

/// 2024-03-15T10:30:00Z in seconds since the epoch.
const T0: i64 = 1_710_498_600;

#[test]
fn relative_date_at_gives_exact_buckets() {
    let iso = "2024-03-15T10:30:00Z";
    assert_eq!(relative_date_at(iso, T0 + 3600, 0), "today");
    assert_eq!(relative_date_at(iso, T0 - 3600, 0), "today");
    assert_eq!(relative_date_at(iso, T0 + 86_400, 0), "1d");
    assert_eq!(relative_date_at(iso, T0 + 6 * 86_400 + 86_399, 0), "6d");
    assert_eq!(relative_date_at(iso, T0 + 7 * 86_400, 0), "1w");
    assert_eq!(relative_date_at(iso, T0 + 29 * 86_400, 0), "4w");
    assert_eq!(relative_date_at(iso, T0 + 45 * 86_400, 0), "1mo");
    assert_eq!(relative_date_at(iso, T0 + 364 * 86_400, 0), "12mo");
    assert_eq!(relative_date_at(iso, T0 + 800 * 86_400, 0), "2y");
    assert_eq!(relative_date_at("yesterday", T0, 0), "yesterday");
}
