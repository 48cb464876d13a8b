use clippo::linux_history::{filter_history_for_search, LinuxHistoryItem};
use clippo::linux_shell::DesktopEnvironment;
use clippo::search::search_items;
use clippo::settings_search::search_settings;
use clippo::time_format::{format_timestamp_for_locale, DateTimeFormatStyle};
use clippo::types::{ClipboardContent, ClipboardItem, ItemId, TimestampMillis};

#[test]
fn size_counts_utf8_bytes() {
    let content = ClipboardContent::Text {
        text: "héllo ✓".to_string(),
    };
    assert_eq!(content.approximate_size_bytes(), 10);

    let url = ClipboardContent::Url {
        url: "https://e.x".to_string(),
        title: Some("é".to_string()),
    };
    assert_eq!(url.approximate_size_bytes(), 13);
}

#[test]
fn current_time_is_after_2020() {
    let now = TimestampMillis::now();
    assert!(now.0 > 1_577_836_800_000);
}

#[test]
fn desktop_detection_lowercases_unicode_names() {
    assert_eq!(
        DesktopEnvironment::from_env_values(Some("ubuntu:GNOME"), None),
        DesktopEnvironment::Gnome
    );
    assert_eq!(
        DesktopEnvironment::from_env_values(None, Some("PLASMA")),
        DesktopEnvironment::Kde
    );
}

#[test]
fn linux_search_lowercases_items_and_query() {
    let history = vec![
        LinuxHistoryItem::new("ÉCOLE"),
        LinuxHistoryItem::new("other"),
    ];

    let found = filter_history_for_search(&history, "  école ");

    assert_eq!(found.len(), 1);
    assert_eq!(found[0].text, "ÉCOLE");
}

#[test]
fn search_folds_compatibility_characters() {
    let items = vec![ClipboardItem::new(
        ItemId(1),
        ClipboardContent::Text {
            text: "ﬁle name".to_string(),
        },
        TimestampMillis(1),
        None,
    )];

    let matches = search_items(&items, "file");

    assert_eq!(matches.len(), 1);
    assert_eq!(matches[0].item_id, ItemId(1));
}

#[test]
fn settings_search_orders_equal_scores_by_title() {
    let keys: Vec<&str> = search_settings("Paste").iter().map(|r| r.key).collect();
    assert_eq!(
        keys,
        vec![
            "paste_automatically",
            "shortcuts.paste_selected",
            "shortcuts.paste_without_formatting"
        ]
    );

    let clipboard = search_settings("clipboard");
    assert_eq!(clipboard.len(), 8);
    assert_eq!(clipboard[0].key, "clipboard_check_interval_ms");
    assert_eq!(clipboard[7].key, "shortcuts.paste_without_formatting");
}

#[test]
fn locale_tags_choose_a_style() {
    assert_eq!(DateTimeFormatStyle::from_locale("EN-us"), DateTimeFormatStyle::EnUs);
    assert_eq!(DateTimeFormatStyle::from_locale("en-AU"), DateTimeFormatStyle::EnGb);
    assert_eq!(DateTimeFormatStyle::from_locale("ja"), DateTimeFormatStyle::JaJp);
    assert_eq!(DateTimeFormatStyle::from_locale("fr-FR"), DateTimeFormatStyle::Iso8601);
}

#[test]
fn formats_midnight_noon_and_negative_offsets() {
    // 2024-02-29 00:00 UTC
    let leap_midnight = TimestampMillis(1_709_164_800_000);
    assert_eq!(
        format_timestamp_for_locale(leap_midnight, "en-US", 0),
        "Feb 29, 2024, 12:00 AM"
    );
    assert_eq!(
        format_timestamp_for_locale(leap_midnight, "en-GB", -30),
        "28 Feb 2024, 23:30"
    );
    // 1970-01-01 12:00 UTC
    assert_eq!(
        format_timestamp_for_locale(TimestampMillis(43_200_000), "en-US", 0),
        "Jan 1, 1970, 12:00 PM"
    );
    // one minute before the epoch in local time
    assert_eq!(
        format_timestamp_for_locale(TimestampMillis(0), "xx", -1),
        "1969-12-31 23:59"
    );
}
