use std::time::{Duration, UNIX_EPOCH};

use clippo::commands::{PasteMode, PastePlan};
use clippo::platform::{decide_paste, PasteStep};
use clippo::history::{ClipboardHistory, HistoryConfig};
use clippo::linux_files::{
    escape_history_text, parse_history_file, parse_state_file, serialize_history_file,
    serialize_state_file, unescape_history_text, LinuxShellState,
};
use clippo::linux_history::{add_history_text, LinuxHistoryItem};
use clippo::onboarding::{OnboardingProgress, OnboardingStepId, OnboardingViewModel};
use clippo::platform::{
    default_paste_timing, ClipboardPollOutcome, ClipboardPollingSchedule, PlatformKind,
};
use clippo::selection::{SelectionMove, SelectionState, SelectionWrapMode};
use clippo::settings::ClippoSettings;
use clippo::types::{BoundedText, ClipboardContent, ItemId, TimestampMillis};

fn text(value: &str) -> ClipboardContent {
    ClipboardContent::Text {
        text: value.to_string(),
    }
}

#[test]
fn ignore_next_copy_skips_exactly_one_change() {
    let mut history = ClipboardHistory::default();
    history.ignore_next_copy();

    assert!(!history.should_capture_next_copy());
    assert!(history.should_capture_next_copy());
    assert!(history.should_capture_next_copy());
}

#[test]
fn paused_capture_keeps_pending_ignore() {
    let mut history = ClipboardHistory::default();
    history.ignore_next_copy();
    history.set_capture_enabled(false);

    assert!(!history.should_capture_next_copy());
    assert!(history.capture_state().ignore_next_copy);

    history.set_capture_enabled(true);
    assert!(!history.should_capture_next_copy());
    assert!(history.should_capture_next_copy());
}

#[test]
fn own_clipboard_write_is_skipped_once() {
    let mut history = ClipboardHistory::default();
    history.mark_internal_clipboard_write(&text("written by us"));

    assert!(!history.should_capture_content(&text("written by us")));
    assert!(history.should_capture_content(&text("written by us")));
}

#[test]
fn own_clipboard_write_does_not_hide_other_content() {
    let mut history = ClipboardHistory::default();
    history.mark_internal_clipboard_write(&text("written by us"));

    assert!(history.should_capture_content(&text("copied elsewhere")));
    assert!(!history.should_capture_content(&text("written by us")));
}

#[test]
fn pinned_items_lead_after_every_change() {
    let mut history = ClipboardHistory::new(HistoryConfig {
        max_items: 3,
        max_item_bytes: 1024,
    });
    let a = history.add_item(text("a"), TimestampMillis(1), None).unwrap();
    history.add_item(text("b"), TimestampMillis(2), None).unwrap();
    history.pin(a, None).unwrap();
    history.add_item(text("c"), TimestampMillis(3), None).unwrap();
    history.add_item(text("d"), TimestampMillis(4), None).unwrap();
    history.add_item(text("e"), TimestampMillis(5), None).unwrap();

    let items = history.items();
    assert_eq!(items[0].id, a);
    assert!(items[0].pinned);
    assert!(items[1..].iter().all(|item| !item.pinned));
    assert_eq!(items.iter().filter(|item| !item.pinned).count(), 3);
}

#[test]
fn bounded_text_stays_within_its_limit() {
    let cut = BoundedText::new("abcdefghij".to_string(), 6);
    assert_eq!(cut.text, "abc...");
    assert!(cut.truncated);

    let short = BoundedText::new("abc".to_string(), 3);
    assert_eq!(short.text, "abc");
    assert!(!short.truncated);

    let tiny = BoundedText::new("abcdef".to_string(), 2);
    assert_eq!(tiny.text, "ab");
    assert!(tiny.truncated);
}

#[test]
fn escaping_history_text_round_trips() {
    let raw = "line one\nline\ttwo \\ back\rslash";
    let escaped = escape_history_text(raw);

    assert!(!escaped.contains('\n'));
    assert!(!escaped.contains('\t'));
    assert_eq!(unescape_history_text(&escaped), raw);
}

#[test]
fn history_file_round_trips_pins_and_shortcuts() {
    let history = vec![
        LinuxHistoryItem {
            text: "pinned\twith tab".to_string(),
            pinned: true,
            pinned_shortcut: Some('a'),
        },
        LinuxHistoryItem {
            text: "plain".to_string(),
            pinned: false,
            pinned_shortcut: None,
        },
    ];

    let parsed = parse_history_file(&serialize_history_file(&history)).unwrap();

    assert_eq!(parsed, history);
}

#[test]
fn state_file_round_trips_every_state() {
    for capture_paused in [false, true] {
        for ignore_next_copy in [false, true] {
            let state = LinuxShellState {
                capture_paused,
                ignore_next_copy,
            };
            assert_eq!(parse_state_file(&serialize_state_file(state)).unwrap(), state);
        }
    }
}

#[test]
fn added_text_is_listed_once_after_pins() {
    let history = vec![
        LinuxHistoryItem {
            text: "pinned".to_string(),
            pinned: true,
            pinned_shortcut: Some('a'),
        },
        LinuxHistoryItem {
            text: "older".to_string(),
            pinned: false,
            pinned_shortcut: None,
        },
        LinuxHistoryItem {
            text: "again".to_string(),
            pinned: false,
            pinned_shortcut: None,
        },
    ];

    let updated = add_history_text(&history, "again");

    assert_eq!(updated.len(), 3);
    assert_eq!(updated[0].text, "pinned");
    assert_eq!(updated[1].text, "again");
    assert!(!updated[1].pinned);
    assert_eq!(updated[2].text, "older");
    assert_eq!(updated.iter().filter(|item| item.text == "again").count(), 1);
}

#[test]
fn linux_history_keeps_at_most_fifty_items() {
    let mut history = Vec::new();
    for index in 0..60 {
        history = add_history_text(&history, &format!("item {index}"));
    }

    assert_eq!(history.len(), 50);
    assert_eq!(history[0].text, "item 59");
    assert_eq!(history[49].text, "item 10");
}

#[test]
fn onboarding_completes_once_required_steps_are_done() {
    let settings = ClippoSettings::default();
    let mut done = vec![
        OnboardingStepId::ClipboardAccess,
        OnboardingStepId::GlobalShortcut,
        OnboardingStepId::PrivacyDefaults,
    ];

    let pending = OnboardingViewModel::from_progress(
        &settings,
        &OnboardingProgress {
            completed_steps: done.clone(),
        },
    );
    assert!(!pending.complete);
    assert_eq!(pending.current_step, Some(OnboardingStepId::PasteAutomation));

    done.push(OnboardingStepId::PasteAutomation);
    let finished = OnboardingViewModel::from_progress(
        &settings,
        &OnboardingProgress {
            completed_steps: done,
        },
    );
    assert!(finished.complete);
    assert_eq!(finished.current_step, Some(OnboardingStepId::Complete));
}

#[test]
fn polling_schedule_stays_between_floor_and_ceiling() {
    let mut schedule = ClipboardPollingSchedule::new(10, 50);
    assert_eq!(schedule.current_interval_ms(), 100);

    for _ in 0..10 {
        schedule.observe(&ClipboardPollOutcome::NoChange);
        assert_eq!(schedule.current_interval_ms(), 100);
    }

    let mut wide = ClipboardPollingSchedule::new(150, 1000);
    for _ in 0..10 {
        wide.observe(&ClipboardPollOutcome::NoChange);
        let current = wide.current_interval_ms();
        assert!((150..=1000).contains(&current));
    }
    assert_eq!(wide.current_interval_ms(), 1000);
    wide.observe(&ClipboardPollOutcome::IgnoredInternalWrite);
    assert_eq!(wide.current_interval_ms(), 150);
    wide.observe(&ClipboardPollOutcome::Captured(ItemId(7)));
    assert_eq!(wide.current_interval_ms(), 150);
}

#[test]
fn paste_timing_grows_from_macos_to_linux() {
    let mac = default_paste_timing(PlatformKind::MacOs);
    let windows = default_paste_timing(PlatformKind::Windows);
    let linux = default_paste_timing(PlatformKind::Linux);

    assert!(mac.clipboard_settle_ms <= windows.clipboard_settle_ms);
    assert!(windows.clipboard_settle_ms <= linux.clipboard_settle_ms);
    assert!(mac.focus_restore_ms <= windows.focus_restore_ms);
    assert!(windows.focus_restore_ms <= linux.focus_restore_ms);
}

#[test]
fn wrapping_moves_undo_each_other() {
    let start = SelectionState::new(4, SelectionWrapMode::Wrap);
    let down = start.move_selection(SelectionMove::Next);
    let back = down.move_selection(SelectionMove::Previous);
    assert_eq!(back, start);

    let up = start.move_selection(SelectionMove::Previous);
    assert_eq!(up.move_selection(SelectionMove::Next), start);
}

#[test]
fn paste_decisions_follow_focus_permission_and_mode() {
    let plain = Some(PastePlan {
        item_id: ItemId(1),
        mode: PasteMode::PlainText,
        clipboard_content: text("hello"),
    });
    let formatted = Some(PastePlan {
        item_id: ItemId(1),
        mode: PasteMode::PreserveFormatting,
        clipboard_content: text("hello"),
    });

    assert_eq!(decide_paste(false, &plain, true), PasteStep::FocusUnavailable);
    assert_eq!(decide_paste(true, &None, true), PasteStep::MissingItem);
    assert_eq!(decide_paste(true, &plain, false), PasteStep::OpenPermissionHelp);
    assert_eq!(
        decide_paste(true, &plain, true),
        PasteStep::TypeText("hello".to_string())
    );
    assert_eq!(decide_paste(true, &formatted, true), PasteStep::PasteClipboard);
}

#[test]
fn time_before_the_epoch_counts_as_zero() {
    assert_eq!(TimestampMillis::from_system_time(UNIX_EPOCH).0, 0);
    assert_eq!(
        TimestampMillis::from_system_time(UNIX_EPOCH + Duration::from_millis(1_500)).0,
        1_500
    );
    assert_eq!(
        TimestampMillis::from_system_time(UNIX_EPOCH - Duration::from_secs(5)).0,
        0
    );
}
