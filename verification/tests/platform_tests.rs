use std::cell::{Cell, RefCell};
use std::rc::Rc;

use clippo::commands::PasteMode;
use clippo::history::ClipboardHistory;
use clippo::platform::{
    default_paste_timing, ClipboardActionController, ClipboardActionOutcome, ClipboardPollOutcome,
    ClipboardPoller, ClipboardPollingSchedule, ClipboardService, ClipboardSnapshot, FocusService,
    PasteService, PermissionService, PlatformKind, PlatformResult,
};
use clippo::types::{ClipboardContent, ItemId, TimestampMillis};

#[derive(Clone, Default)]
struct FakeClipboard {
    content: Rc<RefCell<Option<ClipboardContent>>>,
    snapshot: Rc<RefCell<Option<ClipboardSnapshot>>>,
}

impl ClipboardService for FakeClipboard {
    fn read_clipboard(&self) -> PlatformResult<Option<ClipboardSnapshot>> {
        Ok(self.snapshot.borrow().clone())
    }

    fn write_clipboard(&self, content: &ClipboardContent) -> PlatformResult<()> {
        self.content.replace(Some(content.clone()));
        Ok(())
    }
}

#[derive(Default)]
struct FakePaste {
    active_count: Cell<usize>,
    plain_text: RefCell<Option<String>>,
}

impl PasteService for FakePaste {
    fn paste_active_clipboard(&self) -> PlatformResult<()> {
        self.active_count.set(self.active_count.get() + 1);
        Ok(())
    }

    fn paste_plain_text(&self, text: &str) -> PlatformResult<()> {
        self.plain_text.replace(Some(text.to_string()));
        Ok(())
    }
}

struct FakeFocus(bool);

impl FocusService for FakeFocus {
    fn target_application_available(&self) -> PlatformResult<bool> {
        Ok(self.0)
    }
}

struct FakePermissions {
    allowed: bool,
    help_opened: Cell<bool>,
}

impl PermissionService for FakePermissions {
    fn paste_automation_allowed(&self) -> PlatformResult<bool> {
        Ok(self.allowed)
    }

    fn open_permission_help(&self) -> PlatformResult<()> {
        self.help_opened.set(true);
        Ok(())
    }
}

#[derive(Default)]
struct BatchClipboard {
    snapshots: RefCell<Vec<ClipboardSnapshot>>,
}

impl ClipboardService for BatchClipboard {
    fn read_clipboard(&self) -> PlatformResult<Option<ClipboardSnapshot>> {
        Ok(self.snapshots.borrow().last().cloned())
    }

    fn read_clipboard_batch(&self) -> PlatformResult<Vec<ClipboardSnapshot>> {
        Ok(self.snapshots.borrow().clone())
    }

    fn write_clipboard(&self, _content: &ClipboardContent) -> PlatformResult<()> {
        Ok(())
    }
}

fn seeded_history() -> (ClipboardHistory, ItemId) {
    let mut history = ClipboardHistory::default();
    let id = history
        .add_item(
            ClipboardContent::Text {
                text: "hello".to_string(),
            },
            TimestampMillis(1),
            None,
        )
        .unwrap();
    (history, id)
}

#[test]
fn defines_platform_paste_timing_profiles() {
    let mac = default_paste_timing(PlatformKind::MacOs);
    let windows = default_paste_timing(PlatformKind::Windows);
    let linux = default_paste_timing(PlatformKind::Linux);

    assert!(mac.clipboard_settle_ms > 0);
    assert!(windows.focus_restore_ms >= mac.focus_restore_ms);
    assert!(linux.permission_help_delay_ms >= windows.permission_help_delay_ms);
}

#[test]
fn polling_schedule_backs_off_and_resets_after_activity() {
    let mut schedule = ClipboardPollingSchedule::new(100, 800);

    schedule.observe(&ClipboardPollOutcome::NoChange);
    assert_eq!(schedule.current_interval_ms(), 200);

    schedule.observe(&ClipboardPollOutcome::NoChange);
    schedule.observe(&ClipboardPollOutcome::NoChange);
    schedule.observe(&ClipboardPollOutcome::NoChange);
    assert_eq!(schedule.current_interval_ms(), 800);

    schedule.observe(&ClipboardPollOutcome::Captured(ItemId(1)));
    assert_eq!(schedule.current_interval_ms(), 100);
}

#[test]
fn copy_selected_writes_item_to_clipboard() {
    let (mut history, item_id) = seeded_history();
    let controller = ClipboardActionController::new(
        FakeClipboard::default(),
        FakePaste::default(),
        FakeFocus(true),
        FakePermissions {
            allowed: true,
            help_opened: Cell::new(false),
        },
    );

    let outcome = controller.copy_selected(&mut history, item_id).unwrap();

    assert_eq!(outcome, ClipboardActionOutcome::Copied { item_id });
}

#[test]
fn paste_selected_uses_plain_text_path() {
    let (mut history, item_id) = seeded_history();
    let controller = ClipboardActionController::new(
        FakeClipboard::default(),
        FakePaste::default(),
        FakeFocus(true),
        FakePermissions {
            allowed: true,
            help_opened: Cell::new(false),
        },
    );

    let outcome = controller
        .paste_selected(&mut history, item_id, PasteMode::PlainText)
        .unwrap();

    assert_eq!(
        outcome,
        ClipboardActionOutcome::Pasted {
            item_id,
            mode: PasteMode::PlainText
        }
    );
}

#[test]
fn paste_selected_leaves_selected_item_on_clipboard() {
    let (mut history, item_id) = seeded_history();
    let clipboard = FakeClipboard::default();
    let written_content = Rc::clone(&clipboard.content);
    let controller = ClipboardActionController::new(
        clipboard,
        FakePaste::default(),
        FakeFocus(true),
        FakePermissions {
            allowed: true,
            help_opened: Cell::new(false),
        },
    );

    let outcome = controller
        .paste_selected(&mut history, item_id, PasteMode::PreserveFormatting)
        .unwrap();

    assert_eq!(
        outcome,
        ClipboardActionOutcome::Pasted {
            item_id,
            mode: PasteMode::PreserveFormatting
        }
    );
    assert_eq!(
        *written_content.borrow(),
        Some(ClipboardContent::Text {
            text: "hello".to_string()
        })
    );
}

#[test]
fn paste_selected_returns_permission_fallback() {
    let (mut history, item_id) = seeded_history();
    let controller = ClipboardActionController::new(
        FakeClipboard::default(),
        FakePaste::default(),
        FakeFocus(true),
        FakePermissions {
            allowed: false,
            help_opened: Cell::new(false),
        },
    );

    let outcome = controller
        .paste_selected(&mut history, item_id, PasteMode::PreserveFormatting)
        .unwrap();

    assert_eq!(
        outcome,
        ClipboardActionOutcome::PasteUnavailable {
            item_id,
            reason: "paste automation permission is not granted".to_string()
        }
    );
    assert_eq!(
        outcome.fallback_guidance().unwrap().body_key,
        "paste.unavailable.permission.body"
    );
}

#[test]
fn paste_selected_detects_missing_focus() {
    let (mut history, item_id) = seeded_history();
    let controller = ClipboardActionController::new(
        FakeClipboard::default(),
        FakePaste::default(),
        FakeFocus(false),
        FakePermissions {
            allowed: true,
            help_opened: Cell::new(false),
        },
    );

    let outcome = controller
        .paste_selected(&mut history, item_id, PasteMode::PreserveFormatting)
        .unwrap();

    assert_eq!(
        outcome,
        ClipboardActionOutcome::PasteUnavailable {
            item_id,
            reason: "target application focus is unavailable".to_string()
        }
    );
}

#[test]
fn poller_captures_only_changed_clipboard_sequences() {
    let mut history = ClipboardHistory::default();
    let clipboard = FakeClipboard::default();
    clipboard.snapshot.replace(Some(ClipboardSnapshot {
        content: ClipboardContent::Text {
            text: "copy".to_string(),
        },
        source_application: Some("Example".to_string()),
        sequence: Some(1),
    }));
    let mut poller = ClipboardPoller::default();

    let first = poller
        .poll(&clipboard, &mut history, TimestampMillis(1))
        .unwrap();
    let second = poller
        .poll(&clipboard, &mut history, TimestampMillis(2))
        .unwrap();

    assert_eq!(first, ClipboardPollOutcome::Captured(ItemId(1)));
    assert_eq!(second, ClipboardPollOutcome::NoChange);
}

#[test]
fn poller_uses_adaptive_interval() {
    let mut history = ClipboardHistory::default();
    let clipboard = FakeClipboard::default();
    let mut poller = ClipboardPoller::with_schedule(ClipboardPollingSchedule::new(100, 400));

    assert_eq!(poller.next_interval_ms(), 100);
    let no_change = poller
        .poll(&clipboard, &mut history, TimestampMillis(1))
        .unwrap();
    assert_eq!(no_change, ClipboardPollOutcome::NoChange);
    assert_eq!(poller.next_interval_ms(), 200);

    clipboard.snapshot.replace(Some(ClipboardSnapshot {
        content: ClipboardContent::Text {
            text: "copy".to_string(),
        },
        source_application: None,
        sequence: Some(1),
    }));
    let captured = poller
        .poll(&clipboard, &mut history, TimestampMillis(2))
        .unwrap();
    assert_eq!(captured, ClipboardPollOutcome::Captured(ItemId(1)));
    assert_eq!(poller.next_interval_ms(), 100);
}

#[test]
fn poller_captures_rapid_clipboard_sequence_batches_in_order() {
    let mut history = ClipboardHistory::default();
    let clipboard = BatchClipboard::default();
    clipboard.snapshots.replace(vec![
        ClipboardSnapshot {
            content: ClipboardContent::Text {
                text: "first".to_string(),
            },
            source_application: None,
            sequence: Some(1),
        },
        ClipboardSnapshot {
            content: ClipboardContent::Text {
                text: "second".to_string(),
            },
            source_application: None,
            sequence: Some(2),
        },
    ]);
    let mut poller = ClipboardPoller::default();

    let batch = poller
        .poll_all(&clipboard, &mut history, TimestampMillis(10))
        .unwrap();
    let second_batch = poller
        .poll_all(&clipboard, &mut history, TimestampMillis(11))
        .unwrap();

    assert_eq!(batch.captured_item_ids, vec![ItemId(1), ItemId(2)]);
    assert_eq!(second_batch.captured_item_ids, Vec::<ItemId>::new());
    assert_eq!(second_batch.unchanged_snapshots, 2);
    assert_eq!(history.items()[0].preview_text, "second");
    assert_eq!(history.items()[1].preview_text, "first");
}

#[test]
fn poller_treats_repeated_unsequenced_content_as_unchanged() {
    let mut history = ClipboardHistory::default();
    let clipboard = FakeClipboard::default();
    clipboard.snapshot.replace(Some(ClipboardSnapshot {
        content: ClipboardContent::Text {
            text: "copy".to_string(),
        },
        source_application: None,
        sequence: None,
    }));
    let mut poller = ClipboardPoller::default();

    let first = poller
        .poll(&clipboard, &mut history, TimestampMillis(1))
        .unwrap();
    let second = poller
        .poll(&clipboard, &mut history, TimestampMillis(2))
        .unwrap();

    assert_eq!(first, ClipboardPollOutcome::Captured(ItemId(1)));
    assert_eq!(second, ClipboardPollOutcome::NoChange);
    assert_eq!(history.items()[0].last_used_at, TimestampMillis(1));
}
