use clippo::time_format::format_timestamp_for_locale;
use clippo::types::TimestampMillis;

const JAN_02_2026_15_04_UTC: TimestampMillis = TimestampMillis(1_767_366_240_000);

#[test]
fn formats_us_locale_with_twelve_hour_clock() {
    let formatted = format_timestamp_for_locale(JAN_02_2026_15_04_UTC, "en-US", 0);

    assert_eq!(formatted, "Jan 2, 2026, 3:04 PM");
}

#[test]
fn formats_gb_locale_with_day_first_and_twenty_four_hour_clock() {
    let formatted = format_timestamp_for_locale(JAN_02_2026_15_04_UTC, "en-GB", 0);

    assert_eq!(formatted, "2 Jan 2026, 15:04");
}

#[test]
fn formats_japanese_locale_with_numeric_order() {
    let formatted = format_timestamp_for_locale(JAN_02_2026_15_04_UTC, "ja-JP", 540);

    assert_eq!(formatted, "2026/01/03 00:04");
}

#[test]
fn falls_back_to_iso_like_format_for_unknown_locale() {
    let formatted = format_timestamp_for_locale(JAN_02_2026_15_04_UTC, "de-DE", 60);

    assert_eq!(formatted, "2026-01-02 16:04");
}
