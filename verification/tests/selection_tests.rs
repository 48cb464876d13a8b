use clippo::selection::{SelectionMove, SelectionState, SelectionWrapMode};

#[test]
fn starts_at_first_item_when_items_exist() {
    let selection = SelectionState::new(3, SelectionWrapMode::Wrap);

    assert_eq!(selection.selected_index, Some(0));
}

#[test]
fn has_no_selection_when_empty() {
    let selection = SelectionState::new(0, SelectionWrapMode::Wrap);

    assert_eq!(selection.selected_index, None);
}

#[test]
fn wraps_forward_and_backward() {
    let selection =
        SelectionState::new(2, SelectionWrapMode::Wrap).move_selection(SelectionMove::Previous);

    assert_eq!(selection.selected_index, Some(1));
    assert_eq!(
        selection.move_selection(SelectionMove::Next).selected_index,
        Some(0)
    );
}

#[test]
fn clamps_forward_and_backward() {
    let selection = SelectionState::new(2, SelectionWrapMode::Clamp)
        .move_selection(SelectionMove::Previous);

    assert_eq!(selection.selected_index, Some(0));
    assert_eq!(
        selection
            .move_selection(SelectionMove::Next)
            .move_selection(SelectionMove::Next)
            .selected_index,
        Some(1)
    );
}

#[test]
fn clears_selection_when_list_becomes_empty() {
    let selection = SelectionState::new(2, SelectionWrapMode::Wrap).update_item_count(0);

    assert_eq!(selection.selected_index, None);
}
