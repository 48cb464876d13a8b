use clippo::commands::{ClippoCommand, CommandDecision, CommandRouter, PasteMode};
use clippo::history::ClipboardHistory;
use clippo::types::{ClipboardContent, ItemId, TimestampMillis};

fn seed_history() -> (ClipboardHistory, ItemId) {
    let mut history = ClipboardHistory::default();
    let id = history
        .add_item(
            ClipboardContent::Text {
                text: "hello".to_string(),
            },
            TimestampMillis(1),
            None,
        )
        .unwrap();
    (history, id)
}

#[test]
fn routes_copy_without_mutating_history() {
    let (mut history, id) = seed_history();

    let decision =
        CommandRouter::apply(&mut history, ClippoCommand::CopySelected { item_id: id })
            .unwrap();

    assert_eq!(decision, CommandDecision::CopyToClipboard { item_id: id });
    assert_eq!(history.items().len(), 1);
}

#[test]
fn routes_plain_text_paste() {
    let (mut history, id) = seed_history();

    let decision = CommandRouter::apply(
        &mut history,
        ClippoCommand::PasteSelected {
            item_id: id,
            mode: PasteMode::PlainText,
        },
    )
    .unwrap();

    assert_eq!(
        decision,
        CommandDecision::Paste {
            item_id: id,
            mode: PasteMode::PlainText
        }
    );
}

#[test]
fn plans_plain_text_paste_without_formatting() {
    let mut history = ClipboardHistory::default();
    let id = history
        .add_item(
            ClipboardContent::RichText {
                plain_text: "hello\n  world".to_string(),
                rtf: Some(vec![1, 2, 3]),
                html: Some("<p>hello<br>  world</p>".to_string()),
            },
            TimestampMillis(1),
            None,
        )
        .unwrap();

    let plan = CommandRouter::plan_paste(&history, id, PasteMode::PlainText).unwrap();

    assert_eq!(
        plan.clipboard_content,
        ClipboardContent::Text {
            text: "hello\n  world".to_string()
        }
    );
}

#[test]
fn emergency_clear_removes_all_history() {
    let (mut history, _) = seed_history();

    let decision =
        CommandRouter::apply(&mut history, ClippoCommand::EmergencyClearHistoryAndQuit)
            .unwrap();

    assert_eq!(decision, CommandDecision::QuitAfterClearingHistory);
    assert!(history.items().is_empty());
}
