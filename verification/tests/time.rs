use onmsctl::provisioning::time::{civil_from_days, format_duration, format_unix_ts};

#[test]
fn format_unix_ts_known_values() {
    assert_eq!(format_unix_ts(0), "1970-01-01T00:00:00Z");
    assert_eq!(format_unix_ts(1_779_451_200), "2026-05-22T12:00:00Z");
    assert_eq!(format_unix_ts(1_709_164_800), "2024-02-29T00:00:00Z");
}

#[test]
fn format_duration_composes_compound_units() {
    assert_eq!(format_duration(5), "5s");
    assert_eq!(format_duration(300), "5m");
    assert_eq!(format_duration(3600), "1h");
    assert_eq!(format_duration(7200), "2h");
    assert_eq!(format_duration(86_400), "1d");
    assert_eq!(format_duration(90), "1m30s");
    assert_eq!(format_duration(7260), "2h1m");
    assert_eq!(format_duration(86_401), "1d1s");
    assert_eq!(format_duration(90_061), "1d1h1m1s");
    assert_eq!(format_duration(0), "0s");
    // A duration of 1.5 s is passed as its whole seconds.
    assert_eq!(format_duration(1), "1s");
}

#[test]
fn civil_dates_around_epoch_and_leap_days() {
    assert_eq!(civil_from_days(0), (1970, 1, 1));
    assert_eq!(civil_from_days(-1), (1969, 12, 31));
    assert_eq!(civil_from_days(59), (1970, 3, 1));
    assert_eq!(civil_from_days(11_016), (2000, 2, 29));
    assert_eq!(civil_from_days(19_782), (2024, 2, 29));
}

#[test]
fn unix_ts_before_epoch_and_last_second_of_day() {
    assert_eq!(format_unix_ts(-1), "1969-12-31T23:59:59Z");
    assert_eq!(format_unix_ts(86_399), "1970-01-01T23:59:59Z");
    assert_eq!(format_unix_ts(1_700_000_000), "2023-11-14T22:13:20Z");
}
