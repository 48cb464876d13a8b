//! User commands applied to the history, and the plan for pasting an item.
use crate::history::{
    holds_id, pinned_only, pinned_view, unpinned_view, CaptureState, ClipboardHistory,
    HistoryError,
};
use crate::types::{ClipboardContent, ContentView, ItemId};
use vstd::prelude::*;

verus! {

#[derive(Debug, Clone, Copy, PartialEq, Eq, Structural)]
pub enum PasteMode {
    PreserveFormatting,
    PlainText,
}

#[derive(Debug, Clone, Copy, PartialEq, Eq, Structural)]
pub enum ClippoCommand {
    CopySelected { item_id: ItemId },
    PasteSelected { item_id: ItemId, mode: PasteMode },
    DeleteSelected { item_id: ItemId },
    TogglePin { item_id: ItemId, shortcut: Option<char> },
    ClearUnpinned,
    ClearAll,
    PauseCapture,
    ResumeCapture,
    IgnoreNextCopy,
    OpenPreferences,
    EmergencyClearHistoryAndQuit,
}

#[derive(Debug, Clone, Copy, PartialEq, Eq, Structural)]
pub enum CommandDecision {
    CopyToClipboard { item_id: ItemId },
    Paste { item_id: ItemId, mode: PasteMode },
    OpenPreferences,
    QuitAfterClearingHistory,
    Nothing,
}

#[derive(Debug, Clone, PartialEq, Eq)]
pub struct PastePlan {
    pub item_id: ItemId,
    pub mode: PasteMode,
    pub clipboard_content: ClipboardContent,
}

#[derive(Debug, Default)]
pub struct CommandRouter;

/// The content placed on the clipboard to paste content in a mode.
pub open spec fn paste_content(c: ContentView, mode: PasteMode) -> ContentView {
    match mode {
        PasteMode::PreserveFormatting => c,
        PasteMode::PlainText => ContentView::Text { text: c.plain_text_for_paste() },
    }
}

/// Pasting without formatting pastes plain text and nothing else: text is pasted as
/// it is, rich text and HTML give their plain text whatever markup they carry, a URL
/// gives the URL itself, and the result never depends on the formatted payload.
/// Pasting with formatting pastes the content unchanged.
pub proof fn lemma_plain_paste_drops_formatting(c: ContentView)
    ensures
        paste_content(c, PasteMode::PreserveFormatting) == c,
        (paste_content(c, PasteMode::PlainText) is Text),
        (c matches ContentView::Text { text } ==> paste_content(c, PasteMode::PlainText)
            == (ContentView::Text { text })),
        (c matches ContentView::Html { plain_text, html } ==> paste_content(c, PasteMode::PlainText)
            == (ContentView::Text { text: plain_text }) && paste_content(c, PasteMode::PlainText)
            == paste_content((ContentView::Html { plain_text, html: Seq::empty() }), PasteMode::PlainText)),
        (c matches ContentView::RichText { plain_text, rtf, html } ==> paste_content(
            c,
            PasteMode::PlainText,
        ) == (ContentView::Text { text: plain_text }) && paste_content(c, PasteMode::PlainText)
            == paste_content(
            (ContentView::RichText { plain_text, rtf: None, html: None }),
            PasteMode::PlainText,
        )),
        (c matches ContentView::Url { url, title } ==> paste_content(c, PasteMode::PlainText)
            == (ContentView::Text { text: url })),
{
}

/// Nothing in the history changed.
pub open spec fn unchanged(a: &ClipboardHistory, b: &ClipboardHistory) -> bool {
    &&& a.items_view() == b.items_view()
    &&& a.same_settings(b)
}

/// Only the items changed.
pub open spec fn only_items_changed(a: &ClipboardHistory, b: &ClipboardHistory) -> bool {
    a.same_settings(b)
}

/// Only the capture state changed, to `cap`.
pub open spec fn only_capture_changed(
    a: &ClipboardHistory,
    b: &ClipboardHistory,
    cap: CaptureState,
) -> bool {
    &&& a.items_view() == b.items_view()
    &&& a.config_view() == b.config_view()
    &&& a.next_id_view() == b.next_id_view()
    &&& a.marker_view() == b.marker_view()
    &&& a.capture_view() == cap
}

impl CommandRouter {
    /// Applies a command to the history and tells the caller what to do next.
    pub fn apply(history: &mut ClipboardHistory, command: ClippoCommand) -> (r: Result<
        CommandDecision,
        HistoryError,
    >)
        requires
            old(history).wf(),
        ensures
            final(history).wf(),
            ({
                let h0 = *old(history);
                let h1 = *final(history);
                let items = h0.items_view();
                match command {
                    ClippoCommand::CopySelected { item_id } => unchanged(&h1, &h0) && if holds_id(
                        items,
                        item_id.0,
                    ) {
                        r == Ok::<CommandDecision, HistoryError>(
                            CommandDecision::CopyToClipboard { item_id },
                        )
                    } else {
                        r == Err::<CommandDecision, HistoryError>(HistoryError::NotFound(item_id))
                    },
                    ClippoCommand::PasteSelected { item_id, mode } => unchanged(&h1, &h0) && if holds_id(
                        items,
                        item_id.0,
                    ) {
                        r == Ok::<CommandDecision, HistoryError>(
                            CommandDecision::Paste { item_id, mode },
                        )
                    } else {
                        r == Err::<CommandDecision, HistoryError>(HistoryError::NotFound(item_id))
                    },
                    ClippoCommand::DeleteSelected { item_id } => only_items_changed(&h1, &h0) && if holds_id(
                        items,
                        item_id.0,
                    ) {
                        &&& r == Ok::<CommandDecision, HistoryError>(CommandDecision::Nothing)
                        &&& exists|i: int|
                            0 <= i < items.len() && items[i].id == item_id.0
                                && h1.items_view() == items.remove(i)
                    } else {
                        &&& r == Err::<CommandDecision, HistoryError>(
                            HistoryError::NotFound(item_id),
                        )
                        &&& h1.items_view() == items
                    },
                    ClippoCommand::TogglePin { item_id, shortcut } => only_items_changed(&h1, &h0)
                        && if holds_id(items, item_id.0) {
                        &&& r == Ok::<CommandDecision, HistoryError>(CommandDecision::Nothing)
                        &&& exists|i: int|
                            0 <= i < items.len() && items[i].id == item_id.0
                                && h1.items_view().to_multiset() == items.update(
                                i,
                                if items[i].pinned {
                                    unpinned_view(items[i])
                                } else {
                                    pinned_view(items[i], shortcut)
                                },
                            ).to_multiset()
                    } else {
                        &&& r == Err::<CommandDecision, HistoryError>(
                            HistoryError::NotFound(item_id),
                        )
                        &&& h1.items_view() == items
                    },
                    ClippoCommand::ClearUnpinned => {
                        &&& r == Ok::<CommandDecision, HistoryError>(CommandDecision::Nothing)
                        &&& only_items_changed(&h1, &h0)
                        &&& h1.items_view() == pinned_only(items)
                    },
                    ClippoCommand::ClearAll => {
                        &&& r == Ok::<CommandDecision, HistoryError>(CommandDecision::Nothing)
                        &&& only_items_changed(&h1, &h0)
                        &&& h1.items_view().len() == 0
                    },
                    ClippoCommand::PauseCapture => {
                        &&& r == Ok::<CommandDecision, HistoryError>(CommandDecision::Nothing)
                        &&& only_capture_changed(
                            &h1,
                            &h0,
                            CaptureState {
                                enabled: false,
                                ignore_next_copy: h0.capture_view().ignore_next_copy,
                            },
                        )
                    },
                    ClippoCommand::ResumeCapture => {
                        &&& r == Ok::<CommandDecision, HistoryError>(CommandDecision::Nothing)
                        &&& only_capture_changed(
                            &h1,
                            &h0,
                            CaptureState {
                                enabled: true,
                                ignore_next_copy: h0.capture_view().ignore_next_copy,
                            },
                        )
                    },
                    ClippoCommand::IgnoreNextCopy => {
                        &&& r == Ok::<CommandDecision, HistoryError>(CommandDecision::Nothing)
                        &&& only_capture_changed(
                            &h1,
                            &h0,
                            CaptureState {
                                enabled: h0.capture_view().enabled,
                                ignore_next_copy: true,
                            },
                        )
                    },
                    ClippoCommand::OpenPreferences => {
                        &&& r == Ok::<CommandDecision, HistoryError>(
                            CommandDecision::OpenPreferences,
                        )
                        &&& unchanged(&h1, &h0)
                    },
                    ClippoCommand::EmergencyClearHistoryAndQuit => {
                        &&& r == Ok::<CommandDecision, HistoryError>(
                            CommandDecision::QuitAfterClearingHistory,
                        )
                        &&& only_items_changed(&h1, &h0)
                        &&& h1.items_view().len() == 0
                    },
                }
            }),
    {
        match command {
            ClippoCommand::CopySelected { item_id } => {
                ensure_item_exists(history, item_id)?;
                Ok(CommandDecision::CopyToClipboard { item_id })
            },
            ClippoCommand::PasteSelected { item_id, mode } => {
                ensure_item_exists(history, item_id)?;
                Ok(CommandDecision::Paste { item_id, mode })
            },
            ClippoCommand::DeleteSelected { item_id } => {
                match history.delete(item_id) {
                    Ok(()) => Ok(CommandDecision::Nothing),
                    Err(e) => Err(e),
                }
            },
            ClippoCommand::TogglePin { item_id, shortcut } => {
                match history.position_of(item_id) {
                    None => Err(HistoryError::NotFound(item_id)),
                    Some(i) => {
                        let ghost items = history.items_view();
                        let pinned = history.items()[i].pinned;
                        let res = if pinned {
                            history.unpin(item_id)
                        } else {
                            history.pin(item_id, shortcut)
                        };
                        match res {
                            Ok(()) => {
                                proof {
                                    assert forall|j: int|
                                        0 <= j < items.len() && items[j].id == item_id.0 implies j
                                        == i by {}
                                }
                                Ok(CommandDecision::Nothing)
                            },
                            Err(e) => Err(e),
                        }
                    },
                }
            },
            ClippoCommand::ClearUnpinned => {
                history.clear_unpinned();
                Ok(CommandDecision::Nothing)
            },
            ClippoCommand::ClearAll => {
                history.clear_all();
                Ok(CommandDecision::Nothing)
            },
            ClippoCommand::PauseCapture => {
                history.set_capture_enabled(false);
                Ok(CommandDecision::Nothing)
            },
            ClippoCommand::ResumeCapture => {
                history.set_capture_enabled(true);
                Ok(CommandDecision::Nothing)
            },
            ClippoCommand::IgnoreNextCopy => {
                history.ignore_next_copy();
                Ok(CommandDecision::Nothing)
            },
            ClippoCommand::OpenPreferences => Ok(CommandDecision::OpenPreferences),
            ClippoCommand::EmergencyClearHistoryAndQuit => {
                history.clear_all();
                Ok(CommandDecision::QuitAfterClearingHistory)
            },
        }
    }

    /// What to put on the clipboard to paste the item in the mode.
    pub fn plan_paste(history: &ClipboardHistory, item_id: ItemId, mode: PasteMode) -> (r: Result<
        PastePlan,
        HistoryError,
    >)
        ensures
            match r {
                Ok(plan) => {
                    &&& plan.item_id == item_id
                    &&& plan.mode == mode
                    &&& exists|i: int|
                        0 <= i < history.items_view().len() && history.items_view()[i].id
                            == item_id.0 && plan.clipboard_content@ == paste_content(
                            history.items_view()[i].content,
                            mode,
                        ) && forall|j: int|
                            0 <= j < i ==> history.items_view()[j].id != item_id.0
                },
                Err(e) => e == HistoryError::NotFound(item_id) && !holds_id(
                    history.items_view(),
                    item_id.0,
                ),
            },
    {
        let i = match history.position_of(item_id) {
            Some(i) => i,
            None => {
                return Err(HistoryError::NotFound(item_id));
            },
        };
        let item = &history.items()[i];
        let clipboard_content = match mode {
            PasteMode::PreserveFormatting => item.content.duplicate(),
            PasteMode::PlainText => ClipboardContent::Text { text: item.content.plain_text_for_paste() },
        };
        Ok(PastePlan { item_id, mode, clipboard_content })
    }
}

/// `Ok` exactly when the history holds an item with the id.
fn ensure_item_exists(history: &ClipboardHistory, item_id: ItemId) -> (r: Result<(), HistoryError>)
    ensures
        r is Ok <==> holds_id(history.items_view(), item_id.0),
        r is Err ==> r == Err::<(), HistoryError>(HistoryError::NotFound(item_id)),
{
    match history.position_of(item_id) {
        Some(_) => Ok(()),
        None => Err(HistoryError::NotFound(item_id)),
    }
}

} // verus!
