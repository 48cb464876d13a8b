use clippo::history::ClipboardHistory;
use clippo::types::{ClipboardContent, TimestampMillis, FULL_PREVIEW_TEXT_LIMIT};
use clippo::view_model::PopupViewModel;

#[test]
fn view_model_groups_pinned_rows_above_history_rows() {
    let mut history = ClipboardHistory::default();
    let regular = history
        .add_item(
            ClipboardContent::Text {
                text: "regular".to_string(),
            },
            TimestampMillis(1),
            None,
        )
        .unwrap();
    let pinned = history
        .add_item(
            ClipboardContent::Text {
                text: "pinned".to_string(),
            },
            TimestampMillis(2),
            None,
        )
        .unwrap();
    history.pin(pinned, Some('7')).unwrap();

    let view_model = PopupViewModel::from_history(&history, "");

    assert_eq!(view_model.sections[0].title_key, "history.section.pinned");
    assert_eq!(view_model.sections[0].rows[0].item_id, pinned);
    assert_eq!(view_model.sections[0].rows[0].visible_shortcut, "7");
    assert_eq!(view_model.sections[1].rows[0].item_id, regular);
}

#[test]
fn view_model_resolves_visible_shortcuts_to_items() {
    let mut history = ClipboardHistory::default();
    let regular = history
        .add_item(
            ClipboardContent::Text {
                text: "regular".to_string(),
            },
            TimestampMillis(1),
            None,
        )
        .unwrap();
    let pinned = history
        .add_item(
            ClipboardContent::Text {
                text: "pinned".to_string(),
            },
            TimestampMillis(2),
            None,
        )
        .unwrap();
    history.pin(pinned, Some('7')).unwrap();

    let view_model = PopupViewModel::from_history(&history, "");

    assert_eq!(view_model.item_id_for_visible_shortcut('7'), Some(pinned));
    assert_eq!(view_model.item_id_for_visible_shortcut('2'), Some(regular));
    assert_eq!(view_model.item_id_for_visible_shortcut('9'), None);
}

#[test]
fn view_model_omits_unusable_number_shortcuts_after_nine_items() {
    let mut history = ClipboardHistory::default();

    for index in 1..=10 {
        history
            .add_item(
                ClipboardContent::Text {
                    text: format!("item {index}"),
                },
                TimestampMillis(index),
                None,
            )
            .unwrap();
    }

    let view_model = PopupViewModel::from_history(&history, "");
    let rows = &view_model.sections[0].rows;

    assert_eq!(rows[8].visible_shortcut, "9");
    assert_eq!(rows[9].visible_shortcut, "");
    assert_eq!(
        view_model.item_id_for_visible_shortcut('9'),
        Some(rows[8].item_id)
    );
}

#[test]
fn view_model_reports_empty_state() {
    let history = ClipboardHistory::default();

    let view_model = PopupViewModel::from_history(&history, "");

    assert!(view_model.state.empty);
    assert!(view_model.sections.is_empty());
}

#[test]
fn view_model_reports_paused_and_ignore_next_state() {
    let mut history = ClipboardHistory::default();
    history.set_capture_enabled(false);
    history.ignore_next_copy();

    let view_model = PopupViewModel::from_history(&history, "");

    assert!(view_model.state.paused);
    assert!(view_model.state.ignore_next_copy);
}

#[test]
fn view_model_includes_full_preview_text() {
    let mut history = ClipboardHistory::default();
    let id = history
        .add_item(
            ClipboardContent::Html {
                plain_text: "Example".to_string(),
                html: "<strong>Example</strong>".to_string(),
            },
            TimestampMillis(1),
            None,
        )
        .unwrap();

    let view_model = PopupViewModel::from_history(&history, "");
    let full_preview = PopupViewModel::full_preview_for_item(&history, id).unwrap();

    assert!(view_model.sections[0].rows[0].full_preview_available);
    assert_eq!(full_preview.text, "<strong>Example</strong>");
    assert!(!full_preview.truncated);
}

#[test]
fn view_model_does_not_embed_large_full_preview_in_rows() {
    let mut history = ClipboardHistory::default();
    let id = history
        .add_item(
            ClipboardContent::Html {
                plain_text: "Example".to_string(),
                html: "<p>".to_string() + &"a".repeat(FULL_PREVIEW_TEXT_LIMIT + 100),
            },
            TimestampMillis(1),
            None,
        )
        .unwrap();

    let view_model = PopupViewModel::from_history(&history, "");
    let row = &view_model.sections[0].rows[0];
    let full_preview = PopupViewModel::full_preview_for_item(&history, id).unwrap();

    assert_eq!(row.preview_text, "Example");
    assert!(row.full_preview_available);
    assert!(full_preview.truncated);
    assert!(full_preview.text.len() < FULL_PREVIEW_TEXT_LIMIT + 100);
}
