//! Tests for the date and time rules, exercised against the real chrono
//! crate through the library's coercion functions.

use typecoerce::{coerce, coerce_date, coerce_timestamp, coerce_timestamptz, CellOut, DataType};

#[test]
fn timestamp_round_trips_canonical_form() {
    assert_eq!(
        coerce_timestamp("2024-01-15 10:30:00"),
        "2024-01-15 10:30:00".to_string()
    );
}

#[test]
fn timestamp_rejects_malformed_values() {
    assert_eq!(coerce_timestamp("2024-13-01 00:00:00"), "".to_string());
    assert_eq!(coerce_timestamp("2023-02-29 00:00:00"), "".to_string());
    assert_eq!(coerce_timestamp("2024-01-15"), "".to_string());
    assert_eq!(coerce_timestamp("not a time"), "".to_string());
}

#[test]
fn timestamptz_round_trips_zoned_form() {
    assert_eq!(
        coerce_timestamptz("2024-01-15 10:30:00 +05:30"),
        "2024-01-15 10:30:00 +05:30".to_string()
    );
    assert_eq!(
        coerce_timestamptz("2024-01-15 10:30:00.500 +00:00"),
        "2024-01-15 10:30:00.500 +00:00".to_string()
    );
}

#[test]
fn timestamptz_falls_back_to_epoch_seconds() {
    assert_eq!(
        coerce_timestamptz("1700000000"),
        "2023-11-14 22:13:20 +00:00".to_string()
    );
    assert_eq!(coerce_timestamptz("0"), "1970-01-01 00:00:00 +00:00".to_string());
    assert_eq!(coerce_timestamptz("-1"), "1969-12-31 23:59:59 +00:00".to_string());
}

#[test]
fn timestamptz_rejects_when_both_paths_fail() {
    assert_eq!(coerce_timestamptz("not a time"), "".to_string());
    assert_eq!(coerce_timestamptz("2024-01-15 10:30:00"), "".to_string());
    assert_eq!(coerce_timestamptz("12.5"), "".to_string());
}

#[test]
fn date_round_trips_canonical_form() {
    assert_eq!(coerce_date("2024-01-15"), "2024-01-15".to_string());
    assert_eq!(coerce_date("2024-02-29"), "2024-02-29".to_string());
}

#[test]
fn date_rejects_malformed_values() {
    assert_eq!(coerce_date("2024-13-01"), "".to_string());
    assert_eq!(coerce_date("2023-02-29"), "".to_string());
    assert_eq!(coerce_date("yesterday"), "".to_string());
}

#[test]
fn coerce_dispatches_time_rules() {
    assert_eq!(
        coerce(&DataType::Timestamp, "2024-01-15 10:30:00"),
        CellOut::Ready("2024-01-15 10:30:00".to_string())
    );
    assert_eq!(
        coerce(&DataType::Timestamptz, "1700000000"),
        CellOut::Ready("2023-11-14 22:13:20 +00:00".to_string())
    );
    assert_eq!(
        coerce(&DataType::Date, "2024-01-15"),
        CellOut::Ready("2024-01-15".to_string())
    );
}
