use clippo::history::{ClipboardHistory, HistoryConfig, HistoryError};
use clippo::types::{ClipboardContent, TimestampMillis};

fn text(value: &str) -> ClipboardContent {
    ClipboardContent::Text {
        text: value.to_string(),
    }
}

#[test]
fn adds_and_orders_items_by_last_use() {
    let mut history = ClipboardHistory::default();

    let first = history
        .add_item(text("first"), TimestampMillis(1), None)
        .unwrap();
    let second = history
        .add_item(text("second"), TimestampMillis(2), None)
        .unwrap();

    assert_eq!(history.items()[0].id, second);
    assert_eq!(history.items()[1].id, first);
}

#[test]
fn deduplicates_existing_content() {
    let mut history = ClipboardHistory::default();

    let first = history
        .add_item(text("same"), TimestampMillis(1), None)
        .unwrap();
    let second = history
        .add_item(text("other"), TimestampMillis(2), None)
        .unwrap();
    let duplicate = history
        .add_item(text("same"), TimestampMillis(3), None)
        .unwrap();

    assert_eq!(first, duplicate);
    assert_eq!(history.items().len(), 2);
    assert_eq!(history.items()[0].id, first);
    assert_eq!(history.items()[1].id, second);
}

#[test]
fn keeps_pinned_items_above_regular_items() {
    let mut history = ClipboardHistory::default();

    let pinned = history
        .add_item(text("pinned"), TimestampMillis(1), None)
        .unwrap();
    let regular = history
        .add_item(text("regular"), TimestampMillis(2), None)
        .unwrap();
    history.pin(pinned, Some('1')).unwrap();

    assert_eq!(history.items()[0].id, pinned);
    assert_eq!(history.items()[1].id, regular);
}

#[test]
fn clears_only_unpinned_items() {
    let mut history = ClipboardHistory::default();

    let pinned = history
        .add_item(text("pinned"), TimestampMillis(1), None)
        .unwrap();
    history
        .add_item(text("regular"), TimestampMillis(2), None)
        .unwrap();
    history.pin(pinned, None).unwrap();

    history.clear_unpinned();

    assert_eq!(history.items().len(), 1);
    assert_eq!(history.items()[0].id, pinned);
}

#[test]
fn deletes_items_by_id() {
    let mut history = ClipboardHistory::default();

    let first = history
        .add_item(text("first"), TimestampMillis(1), None)
        .unwrap();
    history
        .add_item(text("second"), TimestampMillis(2), None)
        .unwrap();

    history.delete(first).unwrap();

    assert_eq!(history.items().len(), 1);
    assert_ne!(history.items()[0].id, first);
}

#[test]
fn unpins_items() {
    let mut history = ClipboardHistory::default();

    let id = history
        .add_item(text("clip"), TimestampMillis(1), None)
        .unwrap();
    history.pin(id, Some('4')).unwrap();
    history.unpin(id).unwrap();

    assert!(!history.items()[0].pinned);
    assert_eq!(history.items()[0].pinned_shortcut, None);
}

#[test]
fn enforces_regular_item_limit() {
    let mut history = ClipboardHistory::new(HistoryConfig {
        max_items: 2,
        max_item_bytes: 1024,
    });

    history
        .add_item(text("one"), TimestampMillis(1), None)
        .unwrap();
    history
        .add_item(text("two"), TimestampMillis(2), None)
        .unwrap();
    history
        .add_item(text("three"), TimestampMillis(3), None)
        .unwrap();

    assert_eq!(history.items().len(), 2);
    assert_eq!(history.items()[0].preview_text, "three");
    assert_eq!(history.items()[1].preview_text, "two");
}

#[test]
fn rejects_items_above_size_limit() {
    let mut history = ClipboardHistory::new(HistoryConfig {
        max_items: 10,
        max_item_bytes: 3,
    });

    let error = history
        .add_item(text("large"), TimestampMillis(1), None)
        .unwrap_err();

    assert_eq!(
        error,
        HistoryError::ItemTooLarge {
            actual: 5,
            maximum: 3
        }
    );
}

#[test]
fn supports_index_and_pinned_shortcut_selection() {
    let mut history = ClipboardHistory::default();

    let first = history
        .add_item(text("first"), TimestampMillis(1), None)
        .unwrap();
    history.pin(first, Some('7')).unwrap();

    assert_eq!(history.item_at_index(0).map(|item| item.id), Some(first));
    assert_eq!(
        history.item_by_pinned_shortcut('7').map(|item| item.id),
        Some(first)
    );
}

#[test]
fn ignore_next_copy_is_consumed_once() {
    let mut history = ClipboardHistory::default();

    history.ignore_next_copy();

    assert!(!history.should_capture_next_copy());
    assert!(history.should_capture_next_copy());
}

#[test]
fn suppresses_clippo_internal_clipboard_write_once() {
    let mut history = ClipboardHistory::default();
    let content = text("from clippo");

    history.mark_internal_clipboard_write(&content);

    assert!(!history.should_capture_content(&content));
    assert!(history.should_capture_content(&content));
}

#[test]
fn accepts_unsupported_clipboard_content_as_metadata() {
    let mut history = ClipboardHistory::default();

    history
        .add_item(
            ClipboardContent::Unsupported {
                format_names: vec!["custom/type".to_string()],
            },
            TimestampMillis(1),
            None,
        )
        .unwrap();

    assert_eq!(history.items()[0].preview_text, "custom/type");
}
