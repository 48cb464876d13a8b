use clippo::history::{ClipboardHistory, HistoryConfig, HistoryError};
use clippo::linux_files::{parse_history_file, parse_state_file, ShellFileError};
use clippo::platform::{history_error_message, lock_file_pid};
use clippo::settings::{ClippoSettings, SettingsError, SettingsImportError};
use clippo::types::{ClipboardContent, ItemId, TimestampMillis};

fn text(value: &str) -> ClipboardContent {
    ClipboardContent::Text {
        text: value.to_string(),
    }
}

#[test]
fn history_reports_missing_items() {
    let mut history = ClipboardHistory::default();

    assert_eq!(history.delete(ItemId(9)), Err(HistoryError::NotFound(ItemId(9))));
    assert_eq!(
        history.pin(ItemId(9), Some('1')),
        Err(HistoryError::NotFound(ItemId(9)))
    );
    assert_eq!(history.unpin(ItemId(9)), Err(HistoryError::NotFound(ItemId(9))));
}

#[test]
fn history_reports_oversized_items_by_byte_size() {
    let mut history = ClipboardHistory::new(HistoryConfig {
        max_items: 10,
        max_item_bytes: 5,
    });

    assert!(history.add_item(text("abcde"), TimestampMillis(1), None).is_ok());
    assert_eq!(
        history.add_item(text("héllo"), TimestampMillis(2), None),
        Err(HistoryError::ItemTooLarge {
            actual: 6,
            maximum: 5
        })
    );
    assert_eq!(history.items().len(), 1);
}

#[test]
fn history_error_messages_read_like_debug_output() {
    assert_eq!(
        history_error_message(&HistoryError::ItemTooLarge {
            actual: 12,
            maximum: 10
        }),
        "ItemTooLarge { actual: 12, maximum: 10 }"
    );
    assert_eq!(
        history_error_message(&HistoryError::NotFound(ItemId(42))),
        "NotFound(ItemId(42))"
    );
}

#[test]
fn settings_reject_zero_limits_and_fast_polling() {
    let mut settings = ClippoSettings::default();
    settings.history_limit = 0;
    assert_eq!(
        settings.validate().unwrap_err(),
        SettingsError::HistoryLimitMustBePositive
    );

    let mut settings = ClippoSettings::default();
    settings.max_item_bytes = 0;
    assert_eq!(
        settings.validate().unwrap_err(),
        SettingsError::MaxItemBytesMustBePositive
    );

    let mut settings = ClippoSettings::default();
    settings.clipboard_check_interval_ms = 99;
    assert_eq!(
        settings.validate().unwrap_err(),
        SettingsError::ClipboardCheckIntervalTooLow {
            minimum_ms: 100,
            actual_ms: 99
        }
    );
}

#[test]
fn settings_reject_empty_and_reserved_shortcuts() {
    let mut settings = ClippoSettings::default();
    settings.shortcuts.pin_selected = " + ".to_string();
    assert_eq!(
        settings.validate().unwrap_err(),
        SettingsError::EmptyShortcut {
            action: "pin_selected"
        }
    );

    let mut settings = ClippoSettings::default();
    settings.shortcuts.clear_all = "Alt + F4".to_string();
    assert_eq!(
        settings.validate().unwrap_err(),
        SettingsError::ReservedShortcut {
            action: "clear_all",
            shortcut: "Alt + F4".to_string()
        }
    );
}

#[test]
fn duplicate_shortcut_names_both_actions() {
    let mut settings = ClippoSettings::default();
    settings.shortcuts.open_preferences = "alt+ENTER".to_string();

    match settings.validate().unwrap_err() {
        SettingsError::DuplicateShortcut(conflict) => {
            assert_eq!(conflict.shortcut, "alt+enter");
            assert_eq!(conflict.first_action, "paste_selected");
            assert_eq!(conflict.second_action, "open_preferences");
        }
        other => panic!("unexpected error {other:?}"),
    }
}

#[test]
fn imported_settings_are_kept_only_when_valid() {
    let valid = ClippoSettings::default();
    assert_eq!(ClippoSettings::accept_import(valid.clone()), Ok(valid));

    let mut invalid = ClippoSettings::default();
    invalid.history_limit = 0;
    assert_eq!(
        ClippoSettings::accept_import(invalid),
        Err(SettingsImportError::Validation(
            SettingsError::HistoryLimitMustBePositive
        ))
    );
}

#[test]
fn history_file_rejects_bad_rows() {
    assert_eq!(
        parse_history_file("1\t-\ttext\textra\n"),
        Err(ShellFileError::InvalidData(
            "history row has invalid field count".to_string()
        ))
    );
    assert_eq!(
        parse_history_file("2\t-\ttext\n"),
        Err(ShellFileError::InvalidData(
            "history row has invalid pin flag".to_string()
        ))
    );
}

#[test]
fn state_file_rejects_non_boolean_values() {
    assert_eq!(
        parse_state_file("capture_paused=yes\n"),
        Err(ShellFileError::InvalidData(
            "invalid boolean value for capture_paused".to_string()
        ))
    );
    let state = parse_state_file("comment line\nignore_next_copy=true\n").unwrap();
    assert!(state.ignore_next_copy);
    assert!(!state.capture_paused);
}

#[test]
fn lock_file_pid_reads_trimmed_numbers_only() {
    assert_eq!(lock_file_pid(" 1234\n"), Some(1234));
    assert_eq!(lock_file_pid("4294967295"), Some(u32::MAX));
    assert_eq!(lock_file_pid("4294967296"), None);
    assert_eq!(lock_file_pid("12a"), None);
    assert_eq!(lock_file_pid(""), None);
}
