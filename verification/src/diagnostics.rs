//! Diagnostic records that never carry clipboard contents.
use crate::history::ClipboardHistory;
use crate::text::owned;
use vstd::prelude::*;

verus! {

#[derive(Debug, Clone, PartialEq, Eq)]
pub struct DiagnosticEvent {
    pub category: String,
    pub message: String,
    pub clipboard_contents_redacted: bool,
}

#[derive(Debug, Clone, Copy, PartialEq, Eq, Structural)]
pub struct DiagnosticSnapshot {
    pub history_item_count: usize,
    pub capture_enabled: bool,
    pub ignore_next_copy: bool,
    pub clipboard_contents_redacted: bool,
}

impl DiagnosticEvent {
    /// An event whose clipboard contents are marked as redacted.
    pub fn redacted(category: &str, message: &str) -> (r: Self)
        ensures
            r.category@ == category@,
            r.message@ == message@,
            r.clipboard_contents_redacted,
    {
        DiagnosticEvent {
            category: owned(category),
            message: owned(message),
            clipboard_contents_redacted: true,
        }
    }
}

impl DiagnosticSnapshot {
    /// Counts and flags of the history, and nothing of what the items hold.
    pub fn from_history(history: &ClipboardHistory) -> (r: Self)
        ensures
            r.history_item_count == history.items_view().len(),
            r.capture_enabled == history.capture_view().enabled,
            r.ignore_next_copy == history.capture_view().ignore_next_copy,
            r.clipboard_contents_redacted,
    {
        let capture_state = history.capture_state();
        DiagnosticSnapshot {
            history_item_count: history.items().len(),
            capture_enabled: capture_state.enabled,
            ignore_next_copy: capture_state.ignore_next_copy,
            clipboard_contents_redacted: true,
        }
    }
}

} // verus!
