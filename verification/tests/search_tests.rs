use clippo::search::search_items;
use clippo::types::{ClipboardContent, ClipboardItem, ItemId, TimestampMillis};

fn item(id: u64, text: &str) -> ClipboardItem {
    ClipboardItem::new(
        ItemId(id),
        ClipboardContent::Text {
            text: text.to_string(),
        },
        TimestampMillis(1),
        None,
    )
}

#[test]
fn empty_query_returns_all_items() {
    let items = vec![item(1, "alpha"), item(2, "beta")];

    let matches = search_items(&items, "");

    assert_eq!(matches.len(), 2);
    assert_eq!(matches[0].item_id, ItemId(1));
}

#[test]
fn ranks_prefix_matches_before_contains_matches() {
    let items = vec![item(1, "copy alpha"), item(2, "alpha copy")];

    let matches = search_items(&items, "alpha");

    assert_eq!(matches[0].item_id, ItemId(2));
    assert_eq!(matches[1].item_id, ItemId(1));
}

#[test]
fn preserves_input_order_for_equal_scores() {
    let items = vec![item(1, "alpha one"), item(2, "alpha two")];

    let matches = search_items(&items, "alpha");

    assert_eq!(matches[0].item_id, ItemId(1));
    assert_eq!(matches[1].item_id, ItemId(2));
}

#[test]
fn normalizes_unicode_for_search() {
    let items = vec![item(1, "Cafe\u{301}")];

    let matches = search_items(&items, "Café");

    assert_eq!(matches[0].item_id, ItemId(1));
}
