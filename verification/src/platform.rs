//! What the core asks of a desktop platform, and the logic that drives it:
//! copying and pasting history items, and polling the clipboard for changes.
use crate::commands::{paste_content, CommandRouter, PasteMode, PastePlan};
use crate::history::{holds_id, item_added, ClipboardHistory, HistoryError, marker_of};
use crate::text::{contains, contains_text, owned, push_decimal, push_str};
use crate::types::{
    copy_string, text_size_is_addressable, ClipboardContent, ClipboardSource, ContentView, ItemId, ItemView,
    SourceView, TimestampMillis,
};
use vstd::prelude::*;

verus! {

#[derive(Debug, Clone, PartialEq, Eq)]
pub struct PlatformError {
    pub code: PlatformErrorCode,
    pub message: String,
}

#[derive(Debug, Clone, Copy, PartialEq, Eq, Structural)]
pub enum PlatformErrorCode {
    PermissionDenied,
    Unsupported,
    Unavailable,
    Conflict,
    Unknown,
}

pub type PlatformResult<T> = Result<T, PlatformError>;

impl PlatformError {
    pub fn new(code: PlatformErrorCode, message: &str) -> (r: Self)
        ensures
            r.code == code,
            r.message@ == message@,
    {
        PlatformError { code, message: owned(message) }
    }
}

/// The error for an item id that the history does not hold.
pub open spec fn is_missing_item_error(e: PlatformError) -> bool {
    e.code == PlatformErrorCode::Unavailable && e.message@ == "history item not found"@
}

#[derive(Debug, Clone, PartialEq, Eq)]
pub struct ClipboardSnapshot {
    pub content: ClipboardContent,
    pub source_application: Option<String>,
    pub sequence: Option<u64>,
}

/// Reads and writes the system clipboard.
pub trait ClipboardService {
    fn read_clipboard(&self) -> PlatformResult<Option<ClipboardSnapshot>>;

    /// Every snapshot available since the last read; by default the current one, if any.
    fn read_clipboard_batch(&self) -> (r: PlatformResult<Vec<ClipboardSnapshot>>)
        default_ensures
            r matches Ok(batch) ==> batch@.len() <= 1,
    {
        match self.read_clipboard() {
            Ok(Some(snapshot)) => {
                let mut batch: Vec<ClipboardSnapshot> = Vec::new();
                batch.push(snapshot);
                Ok(batch)
            },
            Ok(None) => Ok(Vec::new()),
            Err(e) => Err(e),
        }
    }

    fn write_clipboard(&self, content: &ClipboardContent) -> PlatformResult<()>;
}

/// Sends paste keystrokes to the focused application.
pub trait PasteService {
    fn paste_active_clipboard(&self) -> PlatformResult<()>;

    fn paste_plain_text(&self, text: &str) -> PlatformResult<()>;
}

/// Tells whether an application is focused to receive a paste.
pub trait FocusService {
    fn target_application_available(&self) -> PlatformResult<bool>;
}

/// Registers system-wide shortcuts.
pub trait GlobalShortcutService {
    fn register(&mut self, action: ShortcutAction, shortcut: &str) -> PlatformResult<()>;

    fn unregister(&mut self, action: ShortcutAction) -> PlatformResult<()>;
}

#[derive(Debug, Clone, Copy, PartialEq, Eq, Hash, Structural)]
pub enum ShortcutAction {
    OpenHistory,
    PasteSelected,
    PasteWithoutFormatting,
    DeleteSelected,
    PinSelected,
    ClearUnpinned,
    ClearAll,
    OpenPreferences,
    PauseCapture,
    IgnoreNextCopy,
}

/// Shows desktop notifications.
pub trait NotificationService {
    fn notify(&self, title: &str, body: &str) -> PlatformResult<()>;
}

/// Controls the tray or menu-bar icon.
pub trait TrayMenuService {
    fn set_visible(&self, visible: bool) -> PlatformResult<()>;

    fn set_paused(&self, paused: bool) -> PlatformResult<()>;

    fn show_menu(&self) -> PlatformResult<()>;
}

/// Starts the application at login.
pub trait AutostartService {
    fn is_enabled(&self) -> PlatformResult<bool>;

    fn set_enabled(&self, enabled: bool) -> PlatformResult<()>;
}

/// Checks and explains the permission to send paste keystrokes.
pub trait PermissionService {
    fn paste_automation_allowed(&self) -> PlatformResult<bool>;

    fn open_permission_help(&self) -> PlatformResult<()>;
}

#[derive(Debug, Clone, Copy, PartialEq, Eq, Structural)]
pub enum PlatformKind {
    MacOs,
    Windows,
    Linux,
}

#[derive(Debug, Clone, Copy, PartialEq, Eq, Structural)]
pub struct PasteTimingProfile {
    pub clipboard_settle_ms: u64,
    pub focus_restore_ms: u64,
    pub paste_keystroke_gap_ms: u64,
    pub permission_help_delay_ms: u64,
}

pub open spec fn timing(settle: u64, focus: u64, gap: u64, help: u64) -> PasteTimingProfile {
    PasteTimingProfile {
        clipboard_settle_ms: settle,
        focus_restore_ms: focus,
        paste_keystroke_gap_ms: gap,
        permission_help_delay_ms: help,
    }
}

/// The delays used around a paste on each platform.
pub open spec fn paste_timing_of(platform: PlatformKind) -> PasteTimingProfile {
    match platform {
        PlatformKind::MacOs => timing(60, 90, 20, 250),
        PlatformKind::Windows => timing(80, 120, 30, 300),
        PlatformKind::Linux => timing(100, 150, 35, 350),
    }
}

pub fn default_paste_timing(platform: PlatformKind) -> (r: PasteTimingProfile)
    ensures
        r == paste_timing_of(platform),
{
    match platform {
        PlatformKind::MacOs => PasteTimingProfile {
            clipboard_settle_ms: 60,
            focus_restore_ms: 90,
            paste_keystroke_gap_ms: 20,
            permission_help_delay_ms: 250,
        },
        PlatformKind::Windows => PasteTimingProfile {
            clipboard_settle_ms: 80,
            focus_restore_ms: 120,
            paste_keystroke_gap_ms: 30,
            permission_help_delay_ms: 300,
        },
        PlatformKind::Linux => PasteTimingProfile {
            clipboard_settle_ms: 100,
            focus_restore_ms: 150,
            paste_keystroke_gap_ms: 35,
            permission_help_delay_ms: 350,
        },
    }
}

/// Slower platforms never get shorter delays: Windows waits at least as long as macOS
/// and Linux at least as long as Windows, at every step.
pub proof fn lemma_paste_timing_grows_across_platforms()
    ensures
        ({
            let mac = paste_timing_of(PlatformKind::MacOs);
            let win = paste_timing_of(PlatformKind::Windows);
            let linux = paste_timing_of(PlatformKind::Linux);
            &&& mac.clipboard_settle_ms > 0
            &&& mac.clipboard_settle_ms <= win.clipboard_settle_ms <= linux.clipboard_settle_ms
            &&& mac.focus_restore_ms <= win.focus_restore_ms <= linux.focus_restore_ms
            &&& mac.paste_keystroke_gap_ms <= win.paste_keystroke_gap_ms
                <= linux.paste_keystroke_gap_ms
            &&& mac.permission_help_delay_ms <= win.permission_help_delay_ms
                <= linux.permission_help_delay_ms
        }),
{
}

#[derive(Debug, Clone, PartialEq, Eq)]
pub struct ShortcutMapping {
    pub action: ShortcutAction,
    pub shortcut: String,
    pub display_label: String,
}

/// The name of the platform's meta key.
pub open spec fn meta_key_name(platform: PlatformKind) -> Seq<char> {
    match platform {
        PlatformKind::MacOs => "Command"@,
        PlatformKind::Windows => "Windows"@,
        PlatformKind::Linux => "Super"@,
    }
}

/// The default shortcuts as (action, shortcut, label shown to the user); in labels
/// `Meta` reads as the platform's meta key.
pub open spec fn default_mapping_views(platform: PlatformKind) -> Seq<
    (ShortcutAction, Seq<char>, Seq<char>),
> {
    let meta = meta_key_name(platform);
    seq![
        (ShortcutAction::OpenHistory, "Shift+Meta+C"@, "Shift+"@ + meta + "+C"@),
        (ShortcutAction::PasteSelected, "Alt+Enter"@, "Alt+Enter"@),
        (ShortcutAction::PasteWithoutFormatting, "Alt+Shift+Enter"@, "Alt+Shift+Enter"@),
        (ShortcutAction::DeleteSelected, "Alt+Delete"@, "Alt+Delete"@),
        (ShortcutAction::PinSelected, "Alt+P"@, "Alt+P"@),
        (ShortcutAction::ClearUnpinned, "Alt+Meta+Delete"@, "Alt+"@ + meta + "+Delete"@),
        (ShortcutAction::ClearAll, "Shift+Alt+Meta+Delete"@, "Shift+Alt+"@ + meta + "+Delete"@),
        (ShortcutAction::OpenPreferences, "Meta+Comma"@, meta + "+Comma"@),
        (ShortcutAction::PauseCapture, "Alt+MenuIcon"@, "Alt+Menu Icon"@),
        (ShortcutAction::IgnoreNextCopy, "Alt+Shift+MenuIcon"@, "Alt+Shift+Menu Icon"@),
    ]
}

impl ShortcutMapping {
    pub open spec fn view_mapping(self) -> (ShortcutAction, Seq<char>, Seq<char>) {
        (self.action, self.shortcut@, self.display_label@)
    }
}

fn mapping(action: ShortcutAction, shortcut: &str, display_label: String) -> (r: ShortcutMapping)
    ensures
        r.view_mapping() == (action, shortcut@, display_label@),
{
    ShortcutMapping { action, shortcut: owned(shortcut), display_label }
}

/// `before`, the meta key's name, then `after`.
fn with_meta(before: &str, meta: &str, after: &str) -> (r: String)
    ensures
        r@ == before@ + meta@ + after@,
{
    let mut label = owned(before);
    push_str(&mut label, meta);
    push_str(&mut label, after);
    label
}

pub fn default_shortcut_mappings(platform: PlatformKind) -> (r: Vec<ShortcutMapping>)
    ensures
        r@.map_values(|m: ShortcutMapping| m.view_mapping()) == default_mapping_views(platform),
{
    let meta = match platform {
        PlatformKind::MacOs => "Command",
        PlatformKind::Windows => "Windows",
        PlatformKind::Linux => "Super",
    };
    let mut v: Vec<ShortcutMapping> = Vec::new();
    v.push(mapping(ShortcutAction::OpenHistory, "Shift+Meta+C", with_meta("Shift+", meta, "+C")));
    v.push(mapping(ShortcutAction::PasteSelected, "Alt+Enter", owned("Alt+Enter")));
    v.push(
        mapping(ShortcutAction::PasteWithoutFormatting, "Alt+Shift+Enter", owned("Alt+Shift+Enter")),
    );
    v.push(mapping(ShortcutAction::DeleteSelected, "Alt+Delete", owned("Alt+Delete")));
    v.push(mapping(ShortcutAction::PinSelected, "Alt+P", owned("Alt+P")));
    v.push(
        mapping(ShortcutAction::ClearUnpinned, "Alt+Meta+Delete", with_meta("Alt+", meta, "+Delete")),
    );
    v.push(
        mapping(
            ShortcutAction::ClearAll,
            "Shift+Alt+Meta+Delete",
            with_meta("Shift+Alt+", meta, "+Delete"),
        ),
    );
    v.push(mapping(ShortcutAction::OpenPreferences, "Meta+Comma", with_meta("", meta, "+Comma")));
    v.push(mapping(ShortcutAction::PauseCapture, "Alt+MenuIcon", owned("Alt+Menu Icon")));
    v.push(
        mapping(ShortcutAction::IgnoreNextCopy, "Alt+Shift+MenuIcon", owned("Alt+Shift+Menu Icon")),
    );
    proof {
        reveal_strlit("");
        assert(v@.map_values(|m: ShortcutMapping| m.view_mapping()) =~= default_mapping_views(
            platform,
        ));
    }
    v
}


#[derive(Debug, Clone, PartialEq, Eq)]
pub enum ClipboardActionOutcome {
    Copied { item_id: ItemId },
    Pasted { item_id: ItemId, mode: PasteMode },
    PasteUnavailable { item_id: ItemId, reason: String },
}

#[derive(Debug, Clone, PartialEq, Eq)]
pub struct PasteFallbackGuidance {
    pub title_key: String,
    pub body_key: String,
    pub primary_action_label_key: String,
}

/// The explanation shown when a paste could not happen for the given reason.
pub open spec fn fallback_body_key(reason: Seq<char>) -> Seq<char> {
    if contains(reason, "permission"@) {
        "paste.unavailable.permission.body"@
    } else if contains(reason, "focus"@) {
        "paste.unavailable.focus.body"@
    } else {
        "paste.unavailable.generic.body"@
    }
}

impl ClipboardActionOutcome {
    /// Guidance for a paste that could not happen; none for other outcomes.
    pub fn fallback_guidance(&self) -> (r: Option<PasteFallbackGuidance>)
        ensures
            match self {
                ClipboardActionOutcome::PasteUnavailable { reason, .. } => (r matches Some(g) && {
                    &&& g.title_key@ == "paste.unavailable.title"@
                    &&& g.body_key@ == fallback_body_key(reason@)
                    &&& g.primary_action_label_key@ == "paste.unavailable.manual_action"@
                }),
                _ => r is None,
            },
    {
        let reason = match self {
            ClipboardActionOutcome::PasteUnavailable { reason, .. } => reason,
            _ => {
                return None;
            },
        };
        let body_key = if contains_text(reason.as_str(), "permission") {
            "paste.unavailable.permission.body"
        } else if contains_text(reason.as_str(), "focus") {
            "paste.unavailable.focus.body"
        } else {
            "paste.unavailable.generic.body"
        };
        Some(
            PasteFallbackGuidance {
                title_key: owned("paste.unavailable.title"),
                body_key: owned(body_key),
                primary_action_label_key: owned("paste.unavailable.manual_action"),
            },
        )
    }
}

pub struct ClipboardActionController<C, P, F, Perm> {
    clipboard: C,
    paste: P,
    focus: F,
    permissions: Perm,
}

/// The first item with the id, if any.
pub open spec fn first_with_id(history: &ClipboardHistory, item_id: ItemId, i: int) -> bool {
    &&& 0 <= i < history.items_view().len()
    &&& history.items_view()[i].id == item_id.0
    &&& forall|j: int| 0 <= j < i ==> history.items_view()[j].id != item_id.0
}

/// `after` remembers, as its own clipboard write, the content that pasting the item
/// with the id in the mode puts on the clipboard.
pub open spec fn marked_for_paste(
    before: &ClipboardHistory,
    after: &ClipboardHistory,
    item_id: ItemId,
    mode: PasteMode,
) -> bool {
    exists|k: int|
        first_with_id(before, item_id, k) && after.marker_view() == Some(
            marker_of(paste_content(before.items_view()[k].content, mode)),
        )
}

/// Remembers the planned paste content as the application's own clipboard write.
fn remember_paste(
    history: &mut ClipboardHistory,
    content: &ClipboardContent,
    item_id: ItemId,
    mode: PasteMode,
)
    requires
        old(history).wf(),
        exists|k: int|
            first_with_id(old(history), item_id, k) && content@ == paste_content(
                old(history).items_view()[k].content,
                mode,
            ),
    ensures
        final(history).wf(),
        same_but_marker(final(history), old(history)),
        marked_for_paste(old(history), final(history), item_id, mode),
{
    let ghost before = *history;
    let ghost k = choose|k: int|
        first_with_id(&before, item_id, k) && content@ == paste_content(
            before.items_view()[k].content,
            mode,
        );
    assert(before.items_view()[k].content.size() <= before.config_view().max_item_bytes);
    match content {
        ClipboardContent::Text { text } => {
            text_size_is_addressable(text);
        },
        _ => {},
    }
    history.mark_internal_clipboard_write(content);
    assert(first_with_id(&before, item_id, k));
}

/// What pasting does once the focus and permission services have answered.
#[derive(Debug, Clone, PartialEq, Eq)]
pub enum PasteStep {
    /// No application has focus: nothing is written and nothing is pasted.
    FocusUnavailable,
    /// The history holds no item with the id.
    MissingItem,
    /// Paste automation is not allowed: the permission help is opened and the
    /// content stays on the clipboard for a manual paste.
    OpenPermissionHelp,
    /// The text is typed into the focused application.
    TypeText(String),
    /// The clipboard is pasted into the focused application.
    PasteClipboard,
}

/// A paste step as plain values.
pub enum PasteStepView {
    FocusUnavailable,
    MissingItem,
    OpenPermissionHelp,
    TypeText(Seq<char>),
    PasteClipboard,
}

impl PasteStep {
    pub open spec fn view_step(self) -> PasteStepView {
        match self {
            PasteStep::FocusUnavailable => PasteStepView::FocusUnavailable,
            PasteStep::MissingItem => PasteStepView::MissingItem,
            PasteStep::OpenPermissionHelp => PasteStepView::OpenPermissionHelp,
            PasteStep::TypeText(t) => PasteStepView::TypeText(t@),
            PasteStep::PasteClipboard => PasteStepView::PasteClipboard,
        }
    }
}

/// The step for the focus answer, the planned clipboard content and mode (none when
/// the item is missing) and the permission answer: without focus nothing happens;
/// a missing item is an error; without permission the help is opened; otherwise a
/// plain-text paste of text types the text and anything else pastes the clipboard.
pub open spec fn paste_step(focus: bool, plan: Option<(ContentView, PasteMode)>, allowed: bool) -> PasteStepView {
    if !focus {
        PasteStepView::FocusUnavailable
    } else {
        match plan {
            None => PasteStepView::MissingItem,
            Some((content, mode)) => if !allowed {
                PasteStepView::OpenPermissionHelp
            } else {
                match content {
                    ContentView::Text { text } => if mode == PasteMode::PlainText {
                        PasteStepView::TypeText(text)
                    } else {
                        PasteStepView::PasteClipboard
                    },
                    _ => PasteStepView::PasteClipboard,
                }
            },
        }
    }
}

pub open spec fn plan_view(plan: Option<PastePlan>) -> Option<(ContentView, PasteMode)> {
    match plan {
        Some(p) => Some((p.clipboard_content@, p.mode)),
        None => None,
    }
}

/// Decides the paste step from the focus answer, the paste plan (none when the
/// item is missing) and the permission answer (see `paste_step`).
pub fn decide_paste(focus: bool, plan: &Option<PastePlan>, allowed: bool) -> (r: PasteStep)
    ensures
        r.view_step() == paste_step(focus, plan_view(*plan), allowed),
{
    if !focus {
        return PasteStep::FocusUnavailable;
    }
    match plan {
        None => PasteStep::MissingItem,
        Some(p) => {
            if !allowed {
                return PasteStep::OpenPermissionHelp;
            }
            match &p.clipboard_content {
                ClipboardContent::Text { text } => {
                    if p.mode == PasteMode::PlainText {
                        PasteStep::TypeText(copy_string(text))
                    } else {
                        PasteStep::PasteClipboard
                    }
                },
                _ => PasteStep::PasteClipboard,
            }
        },
    }
}

/// The content and mode that pasting the item plans: the first item with the id,
/// in the mode's form; none when the history holds no such item.
pub open spec fn planned_paste(h: &ClipboardHistory, item_id: ItemId, mode: PasteMode) -> Option<
    (ContentView, PasteMode),
> {
    if holds_id(h.items_view(), item_id.0) {
        let k = choose|k: int| first_with_id(h, item_id, k);
        Some((paste_content(h.items_view()[k].content, mode), mode))
    } else {
        None
    }
}

/// `r` and `after` are what pasting the item from `before` gives when the focus
/// service answered `focus` and the permission service `allowed` (see `paste_step`),
/// each later service call either succeeding or failing with its own error.
pub open spec fn paste_followed(
    before: &ClipboardHistory,
    after: &ClipboardHistory,
    item_id: ItemId,
    mode: PasteMode,
    focus: bool,
    allowed: bool,
    r: PlatformResult<ClipboardActionOutcome>,
) -> bool {
    let unchanged = after.marker_view() == before.marker_view();
    let marked = marked_for_paste(before, after, item_id, mode);
    match paste_step(focus, planned_paste(before, item_id, mode), allowed) {
        PasteStepView::FocusUnavailable => unchanged && (r matches Ok(
            ClipboardActionOutcome::PasteUnavailable { item_id: i, reason },
        ) && i == item_id && reason@ == "target application focus is unavailable"@),
        PasteStepView::MissingItem => unchanged && (r matches Err(e) && is_missing_item_error(e)),
        PasteStepView::OpenPermissionHelp => (r is Err && unchanged) || (marked && (r is Err || (
        r matches Ok(ClipboardActionOutcome::PasteUnavailable { item_id: i, reason }) && i
            == item_id && reason@ == "paste automation permission is not granted"@))),
        _ => (r is Err && unchanged) || (marked && (r is Err || r == Ok::<
            ClipboardActionOutcome,
            PlatformError,
        >(ClipboardActionOutcome::Pasted { item_id, mode }))),
    }
}

/// The first index with an id is unique.
proof fn lemma_first_with_id_unique(h: &ClipboardHistory, item_id: ItemId, i: int, j: int)
    requires
        first_with_id(h, item_id, i),
        first_with_id(h, item_id, j),
    ensures
        i == j,
{
}

/// Only the marker of the last own clipboard write may differ.
pub open spec fn same_but_marker(a: &ClipboardHistory, b: &ClipboardHistory) -> bool {
    &&& a.items_view() == b.items_view()
    &&& a.config_view() == b.config_view()
    &&& a.next_id_view() == b.next_id_view()
    &&& a.capture_view() == b.capture_view()
}

impl<C, P, F, Perm> ClipboardActionController<C, P, F, Perm> {
    /// The clipboard, paste, focus and permission services it drives.
    pub closed spec fn services(&self) -> (C, P, F, Perm) {
        (self.clipboard, self.paste, self.focus, self.permissions)
    }
}

impl<C: ClipboardService, P: PasteService, F: FocusService, Perm: PermissionService> ClipboardActionController<C, P, F, Perm> {
    pub fn new(clipboard: C, paste: P, focus: F, permissions: Perm) -> (r: Self)
        ensures
            r.services() == (clipboard, paste, focus, permissions),
    {
        ClipboardActionController { clipboard, paste, focus, permissions }
    }

    /// Writes the item's content to the clipboard and remembers the write as the
    /// application's own, so that the next poll does not capture it again.
    pub fn copy_selected(&self, history: &mut ClipboardHistory, item_id: ItemId) -> (r: PlatformResult<
        ClipboardActionOutcome,
    >)
        requires
            old(history).wf(),
        ensures
            final(history).wf(),
            same_but_marker(final(history), old(history)),
            !holds_id(old(history).items_view(), item_id.0) ==> (r matches Err(e)
                && is_missing_item_error(e)),
            match r {
                Ok(outcome) => {
                    &&& outcome == ClipboardActionOutcome::Copied { item_id }
                    &&& exists|i: int|
                        first_with_id(old(history), item_id, i) && final(history).marker_view()
                            == Some(marker_of(old(history).items_view()[i].content))
                },
                Err(_) => final(history).marker_view() == old(history).marker_view(),
            },
    {
        let i = match history.position_of(item_id) {
            Some(i) => i,
            None => {
                return Err(PlatformError::new(PlatformErrorCode::Unavailable, "history item not found"));
            },
        };
        let ghost before = *history;
        let content = history.items()[i].content.duplicate();
        assert(content@ == before.items_view()[i as int].content);
        assert(first_with_id(&before, item_id, i as int));
        match self.clipboard.write_clipboard(&content) {
            Ok(()) => {},
            Err(e) => {
                return Err(e);
            },
        }
        history.mark_internal_clipboard_write(&content);
        Ok(ClipboardActionOutcome::Copied { item_id })
    }

    /// Pastes the item into the focused application. The focus service is asked
    /// first; with focus, the planned content (the item's content, or its plain text)
    /// is written to the clipboard, remembered as the application's own write, and the
    /// permission service is asked. What follows is decided by `decide_paste`: no
    /// focus reports the paste unavailable, a missing item is an error, no permission
    /// opens the permission help, a plain-text paste of text types the text, and
    /// anything else pastes the clipboard. A failing service call ends with its error.
    #[verifier::rlimit(40)]
    #[verifier::spinoff_prover]
    pub fn paste_selected(
        &self,
        history: &mut ClipboardHistory,
        item_id: ItemId,
        mode: PasteMode,
    ) -> (r: PlatformResult<ClipboardActionOutcome>)
        requires
            old(history).wf(),
        ensures
            final(history).wf(),
            same_but_marker(final(history), old(history)),
            (r is Err && final(history).marker_view() == old(history).marker_view())
                || exists|focus: bool, allowed: bool|
                #[trigger] paste_followed(old(history), final(history), item_id, mode, focus, allowed, r),
    {
        let ghost before = *history;
        let focus = match self.focus.target_application_available() {
            Ok(f) => f,
            Err(e) => {
                return Err(e);
            },
        };
        let plan: Option<PastePlan> = if focus {
            match CommandRouter::plan_paste(history, item_id, mode) {
                Ok(p) => Some(p),
                Err(_) => None,
            }
        } else {
            None
        };
        proof {
            if focus {
                match plan {
                    Some(ref p) => {
                        let k = choose|k: int|
                            0 <= k < before.items_view().len() && before.items_view()[k].id
                                == item_id.0 && p.clipboard_content@ == paste_content(
                                before.items_view()[k].content,
                                mode,
                            ) && forall|j: int| 0 <= j < k ==> before.items_view()[j].id != item_id.0;
                        assert(first_with_id(&before, item_id, k));
                        let c = choose|c: int| first_with_id(&before, item_id, c);
                        lemma_first_with_id_unique(&before, item_id, k, c);
                        assert(plan_view(plan) == planned_paste(&before, item_id, mode));
                    },
                    None => {
                        assert(plan_view(plan) == planned_paste(&before, item_id, mode));
                    },
                }
            }
        }
        let mut allowed = false;
        match &plan {
            Some(p) => {
                match self.clipboard.write_clipboard(&p.clipboard_content) {
                    Ok(()) => {},
                    Err(e) => {
                        assert(paste_followed(&before, history, item_id, mode, true, false, Err(e)));
                        return Err(e);
                    },
                }
                proof {
                    let k = choose|k: int|
                        0 <= k < before.items_view().len() && before.items_view()[k].id
                            == item_id.0 && p.clipboard_content@ == paste_content(
                            before.items_view()[k].content,
                            mode,
                        ) && forall|j: int| 0 <= j < k ==> before.items_view()[j].id != item_id.0;
                    assert(first_with_id(history, item_id, k));
                }
                remember_paste(history, &p.clipboard_content, item_id, mode);
                allowed = match self.permissions.paste_automation_allowed() {
                    Ok(a) => a,
                    Err(e) => {
                        assert(paste_followed(&before, history, item_id, mode, true, false, Err(e)));
                        return Err(e);
                    },
                };
            },
            None => {},
        }
        let step = decide_paste(focus, &plan, allowed);
        match step {
            PasteStep::FocusUnavailable => {
                let r = Ok(
                    ClipboardActionOutcome::PasteUnavailable {
                        item_id,
                        reason: owned("target application focus is unavailable"),
                    },
                );
                assert(paste_followed(&before, history, item_id, mode, focus, allowed, r));
                r
            },
            PasteStep::MissingItem => {
                let r = Err(PlatformError::new(PlatformErrorCode::Unavailable, "history item not found"));
                assert(paste_followed(&before, history, item_id, mode, focus, allowed, r));
                r
            },
            PasteStep::OpenPermissionHelp => {
                match self.permissions.open_permission_help() {
                    Ok(()) => {},
                    Err(e) => {
                        assert(paste_followed(&before, history, item_id, mode, focus, allowed, Err(e)));
                        return Err(e);
                    },
                }
                let r = Ok(
                    ClipboardActionOutcome::PasteUnavailable {
                        item_id,
                        reason: owned("paste automation permission is not granted"),
                    },
                );
                assert(paste_followed(&before, history, item_id, mode, focus, allowed, r));
                r
            },
            PasteStep::TypeText(text) => {
                let r = match self.paste.paste_plain_text(text.as_str()) {
                    Ok(()) => Ok(ClipboardActionOutcome::Pasted { item_id, mode }),
                    Err(e) => Err(e),
                };
                assert(paste_followed(&before, history, item_id, mode, focus, allowed, r));
                r
            },
            PasteStep::PasteClipboard => {
                let r = match self.paste.paste_active_clipboard() {
                    Ok(()) => Ok(ClipboardActionOutcome::Pasted { item_id, mode }),
                    Err(e) => Err(e),
                };
                assert(paste_followed(&before, history, item_id, mode, focus, allowed, r));
                r
            },
        }
    }
}



#[derive(Debug, Clone, Copy, PartialEq, Eq, Structural)]
pub enum ClipboardPollOutcome {
    NoChange,
    IgnoredInternalWrite,
    Captured(ItemId),
}

#[derive(Debug, Clone, PartialEq, Eq)]
pub struct ClipboardPollBatchOutcome {
    pub captured_item_ids: Vec<ItemId>,
    pub ignored_internal_writes: usize,
    pub unchanged_snapshots: usize,
}

impl Default for ClipboardPollBatchOutcome {
    fn default() -> (r: Self)
        ensures
            r.captured_item_ids@ == Seq::<ItemId>::empty(),
            r.ignored_internal_writes == 0,
            r.unchanged_snapshots == 0,
    {
        ClipboardPollBatchOutcome {
            captured_item_ids: Vec::new(),
            ignored_internal_writes: 0,
            unchanged_snapshots: 0,
        }
    }
}

/// The outcome a batch reports: the last captured item, else an ignored own write,
/// else no change.
pub open spec fn batch_outcome(
    captured: Seq<ItemId>,
    ignored_internal_writes: nat,
) -> ClipboardPollOutcome {
    if captured.len() > 0 {
        ClipboardPollOutcome::Captured(captured.last())
    } else if ignored_internal_writes > 0 {
        ClipboardPollOutcome::IgnoredInternalWrite
    } else {
        ClipboardPollOutcome::NoChange
    }
}

fn outcome_of_batch(batch: &ClipboardPollBatchOutcome) -> (r: ClipboardPollOutcome)
    ensures
        r == batch_outcome(batch.captured_item_ids@, batch.ignored_internal_writes as nat),
{
    let n = batch.captured_item_ids.len();
    if n > 0 {
        ClipboardPollOutcome::Captured(batch.captured_item_ids[n - 1])
    } else if batch.ignored_internal_writes > 0 {
        ClipboardPollOutcome::IgnoredInternalWrite
    } else {
        ClipboardPollOutcome::NoChange
    }
}

/// How often to poll the clipboard: back to the floor after activity, doubling up to
/// the ceiling while nothing changes.
#[derive(Debug, Clone, Copy, PartialEq, Eq)]
pub struct ClipboardPollingSchedule {
    floor: u64,
    ceiling: u64,
    current_interval_ms: u64,
}

/// The shortest interval a schedule allows.
pub const MIN_POLL_INTERVAL_MS: u64 = 100;

/// A schedule's floor, ceiling and current interval.
pub struct ScheduleView {
    pub floor: u64,
    pub ceiling: u64,
    pub current: u64,
}

/// The interval after an outcome was observed.
pub open spec fn observed(s: ScheduleView, outcome: ClipboardPollOutcome) -> ScheduleView {
    match outcome {
        ClipboardPollOutcome::NoChange => ScheduleView {
            current: if s.current * 2 > u64::MAX {
                s.ceiling
            } else if s.current * 2 < s.ceiling {
                (s.current * 2) as u64
            } else {
                s.ceiling
            },
            ..s
        },
        _ => ScheduleView { current: s.floor, ..s },
    }
}

impl ClipboardPollingSchedule {
    pub closed spec fn view_schedule(&self) -> ScheduleView {
        ScheduleView { floor: self.floor, ceiling: self.ceiling, current: self.current_interval_ms }
    }

    /// The interval lies between the floor and the ceiling, and the floor is at
    /// least the minimum.
    pub open spec fn wf(&self) -> bool {
        MIN_POLL_INTERVAL_MS <= self.view_schedule().floor <= self.view_schedule().current
            <= self.view_schedule().ceiling
    }

    /// A schedule between the given bounds, raised to the minimum, starting at its floor.
    pub fn new(min_interval_ms: u64, max_interval_ms: u64) -> (r: Self)
        ensures
            r.wf(),
            r.view_schedule().floor == if min_interval_ms < MIN_POLL_INTERVAL_MS {
                MIN_POLL_INTERVAL_MS
            } else {
                min_interval_ms
            },
            r.view_schedule().ceiling == if max_interval_ms < r.view_schedule().floor {
                r.view_schedule().floor
            } else {
                max_interval_ms
            },
            r.view_schedule().current == r.view_schedule().floor,
    {
        let min_interval_ms = if min_interval_ms < MIN_POLL_INTERVAL_MS {
            MIN_POLL_INTERVAL_MS
        } else {
            min_interval_ms
        };
        let max_interval_ms = if max_interval_ms < min_interval_ms {
            min_interval_ms
        } else {
            max_interval_ms
        };
        ClipboardPollingSchedule {
            floor: min_interval_ms,
            ceiling: max_interval_ms,
            current_interval_ms: min_interval_ms,
        }
    }

    pub fn current_interval_ms(&self) -> (r: u64)
        ensures
            r == self.view_schedule().current,
    {
        self.current_interval_ms
    }

    /// Resets to the floor after a capture or an own write; doubles, up to the
    /// ceiling, after no change.
    pub fn observe(&mut self, outcome: &ClipboardPollOutcome)
        requires
            old(self).wf(),
        ensures
            final(self).wf(),
            final(self).view_schedule() == observed(old(self).view_schedule(), *outcome),
    {
        match outcome {
            ClipboardPollOutcome::Captured(_) | ClipboardPollOutcome::IgnoredInternalWrite => {
                self.current_interval_ms = self.floor;
            },
            ClipboardPollOutcome::NoChange => {
                let doubled = match self.current_interval_ms.checked_mul(2) {
                    Some(d) => d,
                    None => u64::MAX,
                };
                self.current_interval_ms = if doubled < self.ceiling {
                    doubled
                } else {
                    self.ceiling
                };
            },
        }
    }
}

impl Default for ClipboardPollingSchedule {
    fn default() -> (r: Self)
        ensures
            r.wf(),
            r.view_schedule() == (ScheduleView { floor: 250, ceiling: 2_000, current: 250 }),
    {
        Self::new(250, 2_000)
    }
}

/// Whatever the outcomes, the interval stays between floor and ceiling; activity
/// brings it back to the floor, and quiet never shortens it.
pub proof fn lemma_schedule_stays_in_bounds(s: ScheduleView, outcome: ClipboardPollOutcome)
    requires
        MIN_POLL_INTERVAL_MS <= s.floor <= s.current <= s.ceiling,
    ensures
        MIN_POLL_INTERVAL_MS <= observed(s, outcome).floor <= observed(s, outcome).current
            <= observed(s, outcome).ceiling,
        observed(s, outcome).floor == s.floor,
        observed(s, outcome).ceiling == s.ceiling,
        outcome != ClipboardPollOutcome::NoChange ==> observed(s, outcome).current == s.floor,
        outcome == ClipboardPollOutcome::NoChange ==> observed(s, outcome).current >= s.current,
{
}


/// A clipboard snapshot as plain values.
pub struct SnapshotView {
    pub content: ContentView,
    pub source_application: Option<Seq<char>>,
    pub sequence: Option<u64>,
}

impl ClipboardSnapshot {
    pub open spec fn view_snapshot(self) -> SnapshotView {
        SnapshotView {
            content: self.content@,
            source_application: match self.source_application {
                Some(s) => Some(s@),
                None => None,
            },
            sequence: self.sequence,
        }
    }
}

pub open spec fn snapshot_views(s: Seq<ClipboardSnapshot>) -> Seq<SnapshotView> {
    s.map_values(|x: ClipboardSnapshot| x.view_snapshot())
}

/// Snapshots are ordered by sequence number; those without one come last.
pub open spec fn sequence_key(s: SnapshotView) -> u64 {
    match s.sequence {
        Some(q) => q,
        None => u64::MAX,
    }
}

/// `x` placed into the key-ordered `s` after every element whose key is not larger.
pub open spec fn insert_by_key(s: Seq<SnapshotView>, x: SnapshotView) -> Seq<SnapshotView>
    decreases s.len(),
{
    if s.len() == 0 {
        seq![x]
    } else if sequence_key(s.last()) <= sequence_key(x) {
        s.push(x)
    } else {
        insert_by_key(s.drop_last(), x).push(s.last())
    }
}

/// The snapshots in the order of a stable sort by sequence key.
pub open spec fn sorted_by_sequence(s: Seq<SnapshotView>) -> Seq<SnapshotView>
    decreases s.len(),
{
    if s.len() == 0 {
        s
    } else {
        insert_by_key(sorted_by_sequence(s.drop_last()), s.last())
    }
}

/// What a poller and a history remember while a batch is processed, and what it
/// has counted so far.
pub struct PollState {
    pub last_sequence: Option<u64>,
    pub last_unsequenced: Option<ContentView>,
    pub capture: crate::history::CaptureState,
    pub marker: Option<crate::history::MarkerView>,
    pub captured: nat,
    /// The snapshots captured so far, in order.
    pub captured_snaps: Seq<SnapshotView>,
    pub ignored: nat,
    pub unchanged: nat,
    /// The size of the content that the history refused, which ends the batch.
    pub refused: Option<nat>,
}

/// Whether the snapshot is new: a higher sequence number than the last one seen, or,
/// without a number, other content than the last unnumbered snapshot.
pub open spec fn is_fresh(st: PollState, snap: SnapshotView) -> bool {
    fresh_for(st.last_sequence, st.last_unsequenced, snap)
}

pub open spec fn fresh_for(
    last_sequence: Option<u64>,
    last_unsequenced: Option<ContentView>,
    snap: SnapshotView,
) -> bool {
    match snap.sequence {
        Some(q) => !(last_sequence matches Some(l) && q <= l),
        None => last_unsequenced != Some(snap.content),
    }
}

/// One snapshot of a batch: stale ones are counted unchanged; fresh ones are
/// remembered, then skipped when capture is off or they are the application's own
/// write, refused when too large, and captured otherwise.
pub open spec fn poll_step(st: PollState, snap: SnapshotView, max_item_bytes: nat) -> PollState {
    if st.refused is Some {
        st
    } else if !is_fresh(st, snap) {
        PollState { unchanged: st.unchanged + 1, ..st }
    } else {
        let remembered = match snap.sequence {
            Some(q) => PollState { last_sequence: Some(q), ..st },
            None => PollState { last_unsequenced: Some(snap.content), ..st },
        };
        let allowed = st.capture.enabled && !st.capture.ignore_next_copy;
        let own = st.marker == Some(marker_of(snap.content));
        let checked = PollState {
            capture: crate::history::CaptureState {
                enabled: st.capture.enabled,
                ignore_next_copy: st.capture.ignore_next_copy && !st.capture.enabled,
            },
            marker: if allowed && own {
                None
            } else {
                st.marker
            },
            ..remembered
        };
        if !(allowed && !own) {
            PollState { ignored: checked.ignored + 1, ..checked }
        } else if snap.content.size() > max_item_bytes {
            PollState { refused: Some(snap.content.size()), ..checked }
        } else {
            PollState {
                captured: checked.captured + 1,
                captured_snaps: checked.captured_snaps.push(snap),
                ..checked
            }
        }
    }
}

/// The state after the snapshots, in order.
pub open spec fn poll_run(st: PollState, snaps: Seq<SnapshotView>, max_item_bytes: nat) -> PollState
    decreases snaps.len(),
{
    if snaps.len() == 0 {
        st
    } else {
        poll_step(poll_run(st, snaps.drop_last(), max_item_bytes), snaps.last(), max_item_bytes)
    }
}

/// The snapshots a state has counted: captured, ignored and unchanged.
pub open spec fn counted(st: PollState) -> nat {
    st.captured + st.ignored + st.unchanged
}

/// A snapshot is handled once: read again right after, it counts as unchanged.
pub proof fn lemma_repeated_snapshot_unchanged(st: PollState, snap: SnapshotView, max_item_bytes: nat)
    requires
        poll_step(st, snap, max_item_bytes).refused is None,
    ensures
        ({
            let once = poll_step(st, snap, max_item_bytes);
            poll_step(once, snap, max_item_bytes) == PollState { unchanged: once.unchanged + 1, ..once }
        }),
{
}

/// Unless the history refused one, every snapshot of a batch is counted exactly once,
/// as captured, ignored or unchanged.
pub proof fn lemma_poll_counts_every_snapshot(st: PollState, snaps: Seq<SnapshotView>, max_item_bytes: nat)
    requires
        poll_run(st, snaps, max_item_bytes).refused is None,
    ensures
        counted(poll_run(st, snaps, max_item_bytes)) == counted(st) + snaps.len(),
    decreases snaps.len(),
{
    if snaps.len() > 0 {
        lemma_poll_counts_every_snapshot(st, snaps.drop_last(), max_item_bytes);
    }
}

/// The `Debug` text of a history error.
pub open spec fn history_error_text(e: HistoryError) -> Seq<char> {
    match e {
        HistoryError::ItemTooLarge { actual, maximum } => "ItemTooLarge { actual: "@ + crate::text::decimal(
            actual as nat,
        ) + ", maximum: "@ + crate::text::decimal(maximum as nat) + " }"@,
        HistoryError::NotFound(id) => "NotFound(ItemId("@ + crate::text::decimal(id.0 as nat)
            + "))"@,
    }
}

/// The `Debug` text of a history error.
pub fn history_error_message(e: &HistoryError) -> (r: String)
    ensures
        r@ == history_error_text(*e),
{
    let mut out = String::new();
    match e {
        HistoryError::ItemTooLarge { actual, maximum } => {
            push_str(&mut out, "ItemTooLarge { actual: ");
            push_decimal(&mut out, *actual as u128);
            push_str(&mut out, ", maximum: ");
            push_decimal(&mut out, *maximum as u128);
            push_str(&mut out, " }");
        },
        HistoryError::NotFound(id) => {
            push_str(&mut out, "NotFound(ItemId(");
            push_decimal(&mut out, id.0 as u128);
            push_str(&mut out, "))");
        },
    }
    assert(out@ =~= history_error_text(*e));
    out
}


proof fn lemma_insert_by_key_at(s: Seq<SnapshotView>, x: SnapshotView, p: int)
    requires
        0 <= p <= s.len(),
        p > 0 ==> sequence_key(s[p - 1]) <= sequence_key(x),
        forall|j: int| p <= j < s.len() ==> sequence_key(#[trigger] s[j]) > sequence_key(x),
    ensures
        insert_by_key(s, x) == s.insert(p, x),
    decreases s.len(),
{
    if s.len() == 0 {
        assert(s.insert(p, x) =~= seq![x]);
    } else if p == s.len() {
        assert(s.insert(p, x) =~= s.push(x));
    } else {
        assert(sequence_key(s[s.len() - 1]) > sequence_key(x));
        let t = s.drop_last();
        assert forall|j: int| p <= j < t.len() implies sequence_key(#[trigger] t[j]) > sequence_key(
            x,
        ) by {
            assert(t[j] == s[j]);
        }
        lemma_insert_by_key_at(t, x, p);
        assert(t.insert(p, x).push(s.last()) =~= s.insert(p, x));
    }
}

proof fn lemma_insert_by_key_from(s: Seq<SnapshotView>, x: SnapshotView)
    ensures
        forall|j: int|
            0 <= j < insert_by_key(s, x).len() ==> #[trigger] insert_by_key(s, x)[j] == x || exists|m: int|
                0 <= m < s.len() && insert_by_key(s, x)[j] == s[m],
        insert_by_key(s, x).len() == s.len() + 1,
    decreases s.len(),
{
    if s.len() > 0 && sequence_key(s.last()) > sequence_key(x) {
        let t = s.drop_last();
        lemma_insert_by_key_from(t, x);
        let r = insert_by_key(s, x);
        assert forall|j: int| 0 <= j < r.len() implies #[trigger] r[j] == x || exists|m: int|
            0 <= m < s.len() && r[j] == s[m] by {
            if j == r.len() - 1 {
                assert(r[j] == s[s.len() - 1]);
            } else {
                assert(r[j] == insert_by_key(t, x)[j]);
                if r[j] != x {
                    let m = choose|m: int| 0 <= m < t.len() && insert_by_key(t, x)[j] == t[m];
                    assert(r[j] == s[m]);
                }
            }
        }
    } else if s.len() > 0 {
        let r = insert_by_key(s, x);
        assert forall|j: int| 0 <= j < r.len() implies #[trigger] r[j] == x || exists|m: int|
            0 <= m < s.len() && r[j] == s[m] by {
            if j < s.len() {
                assert(r[j] == s[j]);
            }
        }
    }
}

/// Sorting only reorders: every sorted snapshot is one of the input.
proof fn lemma_sorted_from(s: Seq<SnapshotView>)
    ensures
        sorted_by_sequence(s).len() == s.len(),
        forall|j: int|
            0 <= j < sorted_by_sequence(s).len() ==> exists|m: int|
                0 <= m < s.len() && #[trigger] sorted_by_sequence(s)[j] == s[m],
    decreases s.len(),
{
    if s.len() > 0 {
        let t = s.drop_last();
        lemma_sorted_from(t);
        lemma_insert_by_key_from(sorted_by_sequence(t), s.last());
        let r = sorted_by_sequence(s);
        assert forall|j: int| 0 <= j < r.len() implies exists|m: int|
            0 <= m < s.len() && #[trigger] r[j] == s[m] by {
            if r[j] == s.last() {
                assert(r[j] == s[s.len() - 1]);
            } else {
                let m1 = choose|m: int|
                    0 <= m < sorted_by_sequence(t).len() && r[j] == sorted_by_sequence(t)[m];
                let m2 = choose|m: int| 0 <= m < t.len() && sorted_by_sequence(t)[m1] == t[m];
                assert(r[j] == s[m2]);
            }
        }
    }
}

fn sequence_key_of(s: &ClipboardSnapshot) -> (r: u64)
    ensures
        r == sequence_key(s.view_snapshot()),
{
    match s.sequence {
        Some(q) => q,
        None => u64::MAX,
    }
}

/// The snapshots stably sorted by sequence number, unnumbered ones last.
fn sort_by_sequence(snapshots: Vec<ClipboardSnapshot>) -> (r: Vec<ClipboardSnapshot>)
    ensures
        snapshot_views(r@) == sorted_by_sequence(snapshot_views(snapshots@)),
{
    let ghost orig = snapshot_views(snapshots@);
    let mut input = snapshots;
    let mut out: Vec<ClipboardSnapshot> = Vec::new();
    let ghost mut k: int = 0;
    assert(orig.skip(0) =~= orig);
    assert(orig.take(0) =~= Seq::<SnapshotView>::empty());
    while input.len() > 0
        invariant
            0 <= k <= orig.len(),
            snapshot_views(input@) == orig.skip(k),
            snapshot_views(out@) == sorted_by_sequence(orig.take(k)),
        decreases input.len(),
    {
        let ghost before_in = input@;
        assert(snapshot_views(before_in).len() == before_in.len());
        assert(k < orig.len());
        let x = input.remove(0);
        let ghost xv = x.view_snapshot();
        assert(xv == snapshot_views(before_in)[0]);
        assert(xv == orig[k]);
        assert(input@ =~= before_in.remove(0));
        assert forall|j: int| 0 <= j < input.len() implies #[trigger] snapshot_views(input@)[j]
            == orig.skip(k + 1)[j] by {
            assert(input@[j] == before_in[j + 1]);
            assert(snapshot_views(before_in)[j + 1] == orig.skip(k)[j + 1]);
        }
        assert(snapshot_views(input@) =~= orig.skip(k + 1));
        let key = sequence_key_of(&x);
        let ghost sv = snapshot_views(out@);
        let mut p = out.len();
        while p > 0 && sequence_key_of(&out[p - 1]) > key
            invariant
                p <= out.len(),
                sv == snapshot_views(out@),
                key == sequence_key(xv),
                forall|j: int| p <= j < sv.len() ==> sequence_key(#[trigger] sv[j]) > key,
            decreases p,
        {
            assert(sv[p - 1] == out@[p - 1].view_snapshot());
            p = p - 1;
        }
        if p > 0 {
            assert(sv[p - 1] == out@[p - 1].view_snapshot());
        }
        proof {
            lemma_insert_by_key_at(sv, xv, p as int);
        }
        out.insert(p, x);
        proof {
            assert(snapshot_views(out@) =~= sv.insert(p as int, xv));
            assert(orig.take(k + 1).drop_last() =~= orig.take(k));
            assert(orig.take(k + 1).last() == xv);
            k = k + 1;
        }
    }
    assert(orig.take(k) =~= orig) by {
        assert(orig.skip(k).len() == 0);
    }
    out
}


/// Watches the clipboard: remembers the last sequence number and the last unnumbered
/// content it saw, and adapts its polling interval.
#[derive(Debug)]
pub struct ClipboardPoller {
    last_sequence: Option<u64>,
    last_unsequenced_content: Option<ClipboardContent>,
    schedule: ClipboardPollingSchedule,
}

/// The history's items and next id before and after each captured snapshot, in
/// turn: the `k`-th captured snapshot was added at `now + k` and received `ids[k]`.
#[verifier::opaque]
pub open spec fn added_in_turn(
    chain: Seq<(Seq<ItemView>, u64)>,
    ids: Seq<u64>,
    snaps: Seq<SnapshotView>,
    max_items: nat,
    now: u128,
) -> bool {
    &&& chain.len() == snaps.len() + 1
    &&& ids.len() == snaps.len()
    &&& forall|k: int|
        0 <= k < snaps.len() ==> #[trigger] item_added(
            chain[k].0,
            chain[k].1,
            chain[k + 1].0,
            chain[k + 1].1,
            max_items,
            snaps[k].content,
            (now + k) as u128,
            snapshot_source(snaps[k]),
            ids[k],
        )
}

/// One more captured snapshot extends the chain of histories.
proof fn lemma_chain_extends(
    chain: Seq<(Seq<ItemView>, u64)>,
    ids: Seq<u64>,
    snaps: Seq<SnapshotView>,
    max_items: nat,
    now: u128,
    new_items: Seq<ItemView>,
    new_next: u64,
    snap: SnapshotView,
    id: u64,
)
    requires
        added_in_turn(chain, ids, snaps, max_items, now),
        item_added(
            chain.last().0,
            chain.last().1,
            new_items,
            new_next,
            max_items,
            snap.content,
            (now + snaps.len()) as u128,
            snapshot_source(snap),
            id,
        ),
    ensures
        added_in_turn(
            chain.push((new_items, new_next)),
            ids.push(id),
            snaps.push(snap),
            max_items,
            now,
        ),
{
    reveal(added_in_turn);
    let c2 = chain.push((new_items, new_next));
    let i2 = ids.push(id);
    let s2 = snaps.push(snap);
    assert forall|j: int| 0 <= j < s2.len() implies #[trigger] item_added(
        c2[j].0,
        c2[j].1,
        c2[j + 1].0,
        c2[j + 1].1,
        max_items,
        s2[j].content,
        (now + j) as u128,
        snapshot_source(s2[j]),
        i2[j],
    ) by {
        if j < snaps.len() {
            assert(c2[j] == chain[j]);
            assert(c2[j + 1] == chain[j + 1]);
            assert(s2[j] == snaps[j]);
            assert(i2[j] == ids[j]);
        } else {
            assert(c2[j] == chain.last());
        }
    }
}

/// What processing the snapshots `snaps` from `old_poller` and `old_history` at `now`
/// gives: the state after `poll_run` over them in sequence order decides the capture
/// state, the remembered own write, the last snapshot seen and the result, and the
/// history's items follow from adding each captured snapshot in turn.
pub open spec fn batch_processed(
    old_poller: ClipboardPoller,
    old_history: ClipboardHistory,
    new_poller: ClipboardPoller,
    new_history: ClipboardHistory,
    snaps: Seq<SnapshotView>,
    now: u128,
    r: PlatformResult<ClipboardPollBatchOutcome>,
) -> bool {
    let fin = poll_run(
        start_state(&old_poller, &old_history),
        sorted_by_sequence(snaps),
        old_history.config_view().max_item_bytes as nat,
    );
    &&& exists|chain: Seq<(Seq<ItemView>, u64)>, ids: Seq<u64>|
        {
            &&& #[trigger] added_in_turn(
                chain,
                ids,
                fin.captured_snaps,
                old_history.config_view().max_items as nat,
                now,
            )
            &&& chain[0] == (old_history.items_view(), old_history.next_id_view())
            &&& chain.last() == (new_history.items_view(), new_history.next_id_view())
            &&& (r matches Ok(batch) ==> ids == batch.captured_item_ids@.map_values(
                |i: ItemId| i.0,
            ))
        }
    &&& new_history.capture_view() == fin.capture
    &&& new_history.marker_view() == fin.marker
    &&& new_poller.last_sequence_view() == fin.last_sequence
    &&& new_poller.last_unsequenced_view() == fin.last_unsequenced
    &&& match r {
        Ok(batch) => {
            &&& fin.refused is None
            &&& batch.captured_item_ids.len() == fin.captured
            &&& batch.ignored_internal_writes == fin.ignored
            &&& batch.unchanged_snapshots == fin.unchanged
            &&& new_poller.schedule_view() == observed(
                old_poller.schedule_view(),
                batch_outcome(
                    batch.captured_item_ids@,
                    batch.ignored_internal_writes as nat,
                ),
            )
        },
        Err(e) => {
            &&& fin.refused is Some
            &&& e.code == PlatformErrorCode::Unknown
            &&& e.message@ == history_error_text(
                HistoryError::ItemTooLarge {
                    actual: fin.refused.unwrap() as usize,
                    maximum: old_history.config_view().max_item_bytes,
                },
            )
            &&& new_poller.schedule_view() == old_poller.schedule_view()
        },
    }
}

/// Whether processing the snapshots keeps item ids and capture times in range, and
/// every content's size fits in a `usize`.
pub open spec fn batch_fits(snaps: Seq<SnapshotView>, next_id: u64, now: u128) -> bool {
    &&& next_id + snaps.len() <= u64::MAX
    &&& now + snaps.len() <= u128::MAX
    &&& forall|i: int| 0 <= i < snaps.len() ==> (#[trigger] snaps[i]).content.size() <= usize::MAX
}

/// A batch that fits is processed as `batch_processed` says; any other is refused
/// with the out-of-range error, and nothing changes.
pub open spec fn batch_handled(
    old_poller: ClipboardPoller,
    old_history: ClipboardHistory,
    new_poller: ClipboardPoller,
    new_history: ClipboardHistory,
    snaps: Seq<SnapshotView>,
    now: u128,
    r: PlatformResult<ClipboardPollBatchOutcome>,
) -> bool {
    if batch_fits(snaps, old_history.next_id_view(), now) {
        batch_processed(old_poller, old_history, new_poller, new_history, snaps, now, r)
    } else {
        &&& new_poller == old_poller
        &&& new_history == old_history
        &&& r matches Err(e)
        &&& e.code == PlatformErrorCode::Unknown
        &&& e.message@ == "clipboard batch is out of range"@
    }
}

/// The state a batch starts from.
pub open spec fn start_state(poller: &ClipboardPoller, history: &ClipboardHistory) -> PollState {
    PollState {
        last_sequence: poller.last_sequence_view(),
        last_unsequenced: poller.last_unsequenced_view(),
        capture: history.capture_view(),
        marker: history.marker_view(),
        captured: 0,
        captured_snaps: Seq::empty(),
        ignored: 0,
        unchanged: 0,
        refused: None,
    }
}

impl Default for ClipboardPoller {
    fn default() -> (r: Self)
        ensures
            r.wf(),
            r.last_sequence_view() is None,
            r.last_unsequenced_view() is None,
            r.schedule_view() == (ScheduleView { floor: 250, ceiling: 2_000, current: 250 }),
    {
        ClipboardPoller {
            last_sequence: None,
            last_unsequenced_content: None,
            schedule: ClipboardPollingSchedule::default(),
        }
    }
}


/// The next snapshot of the rest of a batch.
fn take_next(rest: &mut Vec<ClipboardSnapshot>, sv: Ghost<Seq<SnapshotView>>, i: Ghost<int>) -> (r:
    ClipboardSnapshot)
    requires
        0 <= i@ < sv@.len(),
        snapshot_views(old(rest)@) == sv@.skip(i@),
    ensures
        r.view_snapshot() == sv@[i@],
        snapshot_views(final(rest)@) == sv@.skip(i@ + 1),
        final(rest).len() == old(rest).len() - 1,
{
    let ghost before_rest = rest@;
    assert(snapshot_views(before_rest).len() == before_rest.len());
    let snap = rest.remove(0);
    assert(snap.view_snapshot() == snapshot_views(before_rest)[0]);
    assert(rest@ =~= before_rest.remove(0));
    assert forall|j: int| 0 <= j < rest.len() implies #[trigger] snapshot_views(rest@)[j]
        == sv@.skip(i@ + 1)[j] by {
        assert(rest@[j] == before_rest[j + 1]);
        assert(snapshot_views(before_rest)[j + 1] == sv@.skip(i@)[j + 1]);
    }
    assert(snapshot_views(rest@) =~= sv@.skip(i@ + 1));
    snap
}

/// The source recorded for a snapshot: its application, if it names one.
pub open spec fn snapshot_source(snap: SnapshotView) -> Option<SourceView> {
    match snap.source_application {
        Some(name) => Some(SourceView::Source { application_name: Some(name), bundle_or_process_id: None }),
        None => None,
    }
}

/// Adds a captured snapshot's content, with its source application, to the history.
fn capture_snapshot(
    history: &mut ClipboardHistory,
    snap: ClipboardSnapshot,
    time: TimestampMillis,
) -> (r: Result<ItemId, HistoryError>)
    requires
        old(history).wf(),
        old(history).next_id_view() < u64::MAX,
        snap.content@.size() <= usize::MAX,
    ensures
        final(history).wf(),
        final(history).config_view() == old(history).config_view(),
        final(history).capture_view() == old(history).capture_view(),
        final(history).marker_view() == old(history).marker_view(),
        final(history).next_id_view() <= old(history).next_id_view() + 1,
        match r {
            Ok(id) => snap.content@.size() <= old(history).config_view().max_item_bytes
                && item_added(
                old(history).items_view(),
                old(history).next_id_view(),
                final(history).items_view(),
                final(history).next_id_view(),
                old(history).config_view().max_items as nat,
                snap.content@,
                time.0,
                snapshot_source(snap.view_snapshot()),
                id.0,
            ),
            Err(e) => final(history).items_view() == old(history).items_view()
                && final(history).next_id_view() == old(history).next_id_view()
                && snap.content@.size() > old(history).config_view().max_item_bytes
                && e == HistoryError::ItemTooLarge {
                actual: snap.content@.size() as usize,
                maximum: old(history).config_view().max_item_bytes,
            },
        },
{
    let source = match snap.source_application {
        Some(name) => Some(
            ClipboardSource { application_name: Some(name), bundle_or_process_id: None },
        ),
        None => None,
    };
    history.add_item(snap.content, time, source)
}

impl ClipboardPoller {
    /// Whether the snapshot is fresh; if so, it is remembered as the last one seen.
    fn check_fresh(&mut self, snap: &ClipboardSnapshot) -> (fresh: bool)
        ensures
            fresh == fresh_for(
                old(self).last_sequence_view(),
                old(self).last_unsequenced_view(),
                snap.view_snapshot(),
            ),
            final(self).schedule_view() == old(self).schedule_view(),
            !fresh ==> final(self).last_sequence_view() == old(self).last_sequence_view()
                && final(self).last_unsequenced_view() == old(self).last_unsequenced_view(),
            fresh ==> match snap.sequence {
                Some(q) => final(self).last_sequence_view() == Some(q)
                    && final(self).last_unsequenced_view() == old(self).last_unsequenced_view(),
                None => final(self).last_sequence_view() == old(self).last_sequence_view()
                    && final(self).last_unsequenced_view() == Some(snap.content@),
            },
    {
        match snap.sequence {
            Some(q) => {
                let stale = match self.last_sequence {
                    Some(l) => q <= l,
                    None => false,
                };
                if !stale {
                    self.last_sequence = Some(q);
                }
                !stale
            },
            None => {
                let same = match &self.last_unsequenced_content {
                    Some(c) => c.same_as(&snap.content),
                    None => false,
                };
                if !same {
                    self.last_unsequenced_content = Some(snap.content.duplicate());
                }
                !same
            },
        }
    }

    pub closed spec fn last_sequence_view(&self) -> Option<u64> {
        self.last_sequence
    }

    pub closed spec fn last_unsequenced_view(&self) -> Option<ContentView> {
        match self.last_unsequenced_content {
            Some(c) => Some(c@),
            None => None,
        }
    }

    pub closed spec fn schedule_view(&self) -> ScheduleView {
        self.schedule.view_schedule()
    }

    pub open spec fn wf(&self) -> bool {
        MIN_POLL_INTERVAL_MS <= self.schedule_view().floor <= self.schedule_view().current
            <= self.schedule_view().ceiling
    }

    pub fn with_schedule(schedule: ClipboardPollingSchedule) -> (r: Self)
        requires
            schedule.wf(),
        ensures
            r.wf(),
            r.last_sequence_view() is None,
            r.last_unsequenced_view() is None,
            r.schedule_view() == schedule.view_schedule(),
    {
        ClipboardPoller { last_sequence: None, last_unsequenced_content: None, schedule }
    }

    pub fn next_interval_ms(&self) -> (r: u64)
        ensures
            r == self.schedule_view().current,
    {
        self.schedule.current_interval_ms()
    }

    /// Processes a batch of snapshots that fits (see `batch_fits`), as
    /// `batch_processed` describes.
    #[verifier::rlimit(40)]
    #[verifier::spinoff_prover]
    fn process_batch(
        &mut self,
        snapshots: Vec<ClipboardSnapshot>,
        history: &mut ClipboardHistory,
        now: TimestampMillis,
    ) -> (r: PlatformResult<ClipboardPollBatchOutcome>)
        requires
            old(self).wf(),
            old(history).wf(),
            old(history).next_id_view() + snapshots.len() <= u64::MAX,
            now.0 + snapshots.len() <= u128::MAX,
            forall|i: int|
                0 <= i < snapshots.len() ==> (#[trigger] snapshots@[i]).content@.size()
                    <= usize::MAX,
        ensures
            final(self).wf(),
            final(history).wf(),
            final(history).config_view() == old(history).config_view(),
            batch_processed(
                *old(self),
                *old(history),
                *final(self),
                *final(history),
                snapshot_views(snapshots@),
                now.0,
                r,
            ),
    {
        let ghost input = snapshot_views(snapshots@);
        let ghost start = start_state(self, history);
        let ghost max = history.config_view().max_item_bytes as nat;
        let ghost first_id = history.next_id_view();
        let ghost config = history.config_view();
        let mut rest = sort_by_sequence(snapshots);
        let ghost sv = snapshot_views(rest@);
        proof {
            lemma_sorted_from(input);
            assert forall|j: int| 0 <= j < sv.len() implies (#[trigger] sv[j]).content.size()
                <= usize::MAX by {
                let m = choose|m: int| 0 <= m < input.len() && sv[j] == input[m];
                assert(input[m] == snapshots@[m].view_snapshot());
            }
            assert(sv.skip(0) =~= sv);
            assert(sv.take(0) =~= Seq::<SnapshotView>::empty());
        }
        let mut batch = ClipboardPollBatchOutcome::default();
        let ghost mut i: int = 0;
        let ghost mut chain: Seq<(Seq<ItemView>, u64)> = seq![
            (history.items_view(), history.next_id_view()),
        ];
        let ghost mut ids: Seq<u64> = Seq::empty();
        assert(batch.captured_item_ids@.map_values(|x: ItemId| x.0) =~= ids);
        proof {
            reveal(added_in_turn);
        }
        while rest.len() > 0
            invariant
                added_in_turn(
                    chain,
                    ids,
                    poll_run(start, sv.take(i), max).captured_snaps,
                    config.max_items as nat,
                    now.0,
                ),
                poll_run(start, sv.take(i), max).captured_snaps.len() == poll_run(
                    start,
                    sv.take(i),
                    max,
                ).captured,
                chain.len() > 0,
                chain[0] == (old(history).items_view(), old(history).next_id_view()),
                chain.last() == (history.items_view(), history.next_id_view()),
                ids == batch.captured_item_ids@.map_values(|x: ItemId| x.0),
                0 <= i <= sv.len(),
                sv.len() == input.len(),
                input.len() <= usize::MAX,
                input == snapshot_views(snapshots@),
                start == start_state(old(self), old(history)),
                config == old(history).config_view(),
                sv == sorted_by_sequence(input),
                forall|j: int| 0 <= j < sv.len() ==> (#[trigger] sv[j]).content.size() <= usize::MAX,
                snapshot_views(rest@) == sv.skip(i),
                ({
                    let st = poll_run(start, sv.take(i), max);
                    &&& st.refused is None
                    &&& self.last_sequence_view() == st.last_sequence
                    &&& self.last_unsequenced_view() == st.last_unsequenced
                    &&& history.capture_view() == st.capture
                    &&& history.marker_view() == st.marker
                    &&& batch.captured_item_ids.len() == st.captured
                    &&& batch.ignored_internal_writes == st.ignored
                    &&& batch.unchanged_snapshots == st.unchanged
                    &&& st.captured + st.ignored + st.unchanged == i
                }),
                history.wf(),
                history.config_view() == config,
                max == config.max_item_bytes,
                history.next_id_view() <= first_id + batch.captured_item_ids.len(),
                first_id + input.len() <= u64::MAX,
                now.0 + input.len() <= u128::MAX,
                self.schedule_view() == old(self).schedule_view(),
                self.wf(),
            decreases rest.len(),
        {
            let ghost st = poll_run(start, sv.take(i), max);
            assert(snapshot_views(rest@).len() == rest.len());
            assert(i < sv.len());
            let snap = take_next(&mut rest, Ghost(sv), Ghost(i));
            let ghost xv = snap.view_snapshot();
            assert(sv.take(i + 1).drop_last() =~= sv.take(i));
            assert(sv.take(i + 1).last() == xv);
            let ghost next = poll_step(st, xv, max);
            assert(poll_run(start, sv.take(i + 1), max) == next);
            let fresh = self.check_fresh(&snap);
            assert(fresh == is_fresh(st, xv));
            if !fresh {
                batch.unchanged_snapshots = batch.unchanged_snapshots + 1;
                proof {
                    i = i + 1;
                }
                continue;
            }
            assert(xv.content.size() <= usize::MAX);
            if !history.should_capture_content(&snap.content) {
                batch.ignored_internal_writes = batch.ignored_internal_writes + 1;
                proof {
                    i = i + 1;
                }
                continue;
            }
            let capture_time = TimestampMillis(now.0 + batch.captured_item_ids.len() as u128);
            let ghost before_items = history.items_view();
            let ghost before_next = history.next_id_view();
            assert(chain.last() == (before_items, before_next));
            match capture_snapshot(history, snap, capture_time) {
                Ok(item_id) => {
                    let ghost old_ids = batch.captured_item_ids@;
                    batch.captured_item_ids.push(item_id);
                    proof {
                        assert(next.captured_snaps == st.captured_snaps.push(xv));
                        lemma_chain_extends(
                            chain,
                            ids,
                            st.captured_snaps,
                            config.max_items as nat,
                            now.0,
                            history.items_view(),
                            history.next_id_view(),
                            xv,
                            item_id.0,
                        );
                        chain = chain.push((history.items_view(), history.next_id_view()));
                        ids = ids.push(item_id.0);
                        assert(batch.captured_item_ids@.map_values(|x: ItemId| x.0) =~= ids) by {
                            assert(batch.captured_item_ids@ =~= old_ids.push(item_id));
                        }
                    }
                },
                Err(e) => {
                    let message = history_error_message(&e);
                    proof {
                        assert(next.refused == Some(xv.content.size()));
                        assert(poll_run(start, sv.take(i + 1), max).refused is Some);
                        lemma_refused_stays(start, sv, i + 1, max);
                        assert(poll_run(start, sv, max) == next);
                        assert(next.captured_snaps == st.captured_snaps);
                        assert(added_in_turn(
                            chain,
                            ids,
                            poll_run(start, sv, max).captured_snaps,
                            config.max_items as nat,
                            now.0,
                        ));
                    }
                    return Err(PlatformError { code: PlatformErrorCode::Unknown, message });
                },
            }
            proof {
                i = i + 1;
            }
        }
        proof {
            assert(snapshot_views(rest@).len() == rest.len());
            assert(i == sv.len());
            assert(sv.take(i) =~= sv);
        }
        let outcome = outcome_of_batch(&batch);
        self.schedule.observe(&outcome);
        Ok(batch)
    }
}

impl ClipboardPoller {
    /// Processes a batch of snapshots in sequence order (see `poll_step`): captured
    /// contents are added to the history at `now`, `now + 1`, ... in capture order.
    /// A content the history refuses as too large ends the batch with an error; the
    /// interval is then left as it was. Otherwise the interval follows the batch's
    /// outcome. A batch that does not fit (see `batch_fits`) is refused before any
    /// snapshot is looked at, with nothing changed (see `batch_handled`).
    pub fn process_snapshots(
        &mut self,
        snapshots: Vec<ClipboardSnapshot>,
        history: &mut ClipboardHistory,
        now: TimestampMillis,
    ) -> (r: PlatformResult<ClipboardPollBatchOutcome>)
        requires
            old(self).wf(),
            old(history).wf(),
        ensures
            final(self).wf(),
            final(history).wf(),
            final(history).config_view() == old(history).config_view(),
            batch_handled(
                *old(self),
                *old(history),
                *final(self),
                *final(history),
                snapshot_views(snapshots@),
                now.0,
                r,
            ),
    {
        if !batch_in_range(&snapshots, history, now) {
            return Err(
                PlatformError::new(PlatformErrorCode::Unknown, "clipboard batch is out of range"),
            );
        }
        self.process_batch(snapshots, history, now)
    }
}

impl ClipboardPoller {
    /// Reads every pending snapshot and processes the batch (see `process_snapshots`).
    pub fn poll_all<S: ClipboardService>(
        &mut self,
        service: &S,
        history: &mut ClipboardHistory,
        now: TimestampMillis,
    ) -> (r: PlatformResult<ClipboardPollBatchOutcome>)
        requires
            old(self).wf(),
            old(history).wf(),
        ensures
            final(self).wf(),
            final(history).wf(),
            final(history).config_view() == old(history).config_view(),
            match r {
                Ok(batch) => final(self).schedule_view() == observed(
                    old(self).schedule_view(),
                    batch_outcome(batch.captured_item_ids@, batch.ignored_internal_writes as nat),
                ),
                Err(_) => final(self).schedule_view() == old(self).schedule_view(),
            },
            (r is Err && *final(self) == *old(self) && *final(history) == *old(history))
                || exists|snaps: Seq<SnapshotView>|
                #[trigger] batch_handled(*old(self), *old(history), *final(self), *final(history), snaps, now.0, r),
    {
        let snapshots = match service.read_clipboard_batch() {
            Ok(snapshots) => snapshots,
            Err(e) => {
                return Err(e);
            },
        };
        let ghost poller_before = *self;
        let ghost history_before = *history;
        let ghost snaps = snapshot_views(snapshots@);
        let r = self.process_snapshots(snapshots, history, now);
        assert(batch_handled(poller_before, history_before, *self, *history, snaps, now.0, r));
        r
    }

    /// Polls once and reports the batch's outcome: the last captured item, else an
    /// ignored own write, else no change.
    pub fn poll<S: ClipboardService>(
        &mut self,
        service: &S,
        history: &mut ClipboardHistory,
        now: TimestampMillis,
    ) -> (r: PlatformResult<ClipboardPollOutcome>)
        requires
            old(self).wf(),
            old(history).wf(),
        ensures
            final(self).wf(),
            final(history).wf(),
            final(history).config_view() == old(history).config_view(),
            match r {
                Ok(outcome) => final(self).schedule_view() == observed(
                    old(self).schedule_view(),
                    outcome,
                ),
                Err(_) => final(self).schedule_view() == old(self).schedule_view(),
            },
            (r is Err && *final(self) == *old(self) && *final(history) == *old(history))
                || exists|snaps: Seq<SnapshotView>, res: PlatformResult<ClipboardPollBatchOutcome>|
                #[trigger] batch_handled(*old(self), *old(history), *final(self), *final(history), snaps, now.0, res)
                && match (res, r) {
                    (Ok(batch), Ok(outcome)) => outcome == batch_outcome(
                        batch.captured_item_ids@,
                        batch.ignored_internal_writes as nat,
                    ),
                    (Err(e1), Err(e2)) => e1 == e2,
                    _ => false,
                },
    {
        let result = self.poll_all(service, history, now);
        match result {
            Ok(batch) => Ok(outcome_of_batch(&batch)),
            Err(e) => Err(e),
        }
    }
}

/// Whether processing the snapshots keeps item ids and capture times in range, and
/// every content's size is addressable.
fn batch_in_range(snapshots: &Vec<ClipboardSnapshot>, history: &ClipboardHistory, now: TimestampMillis) -> (r:
    bool)
    ensures
        r == batch_fits(snapshot_views(snapshots@), history.next_id_view(), now.0),
        r ==> {
            &&& history.next_id_view() + snapshots.len() <= u64::MAX
            &&& now.0 + snapshots.len() <= u128::MAX
            &&& forall|i: int|
                0 <= i < snapshots.len() ==> (#[trigger] snapshots@[i]).content@.size()
                    <= usize::MAX
        },
{
    let n = snapshots.len() as u128;
    if (history.next_item_id() as u128) + n > u64::MAX as u128 {
        return false;
    }
    match now.0.checked_add(n) {
        Some(_) => {},
        None => {
            return false;
        },
    }
    let mut i: usize = 0;
    while i < snapshots.len()
        invariant
            i <= snapshots.len(),
            forall|j: int|
                0 <= j < i ==> (#[trigger] snapshots@[j]).content@.size() <= usize::MAX,
        decreases snapshots.len() - i,
    {
        if snapshots[i].content.checked_size().is_none() {
            assert(!(snapshots@[i as int].content@.size() <= usize::MAX));
            assert(snapshot_views(snapshots@)[i as int] == snapshots@[i as int].view_snapshot());
            return false;
        }
        i = i + 1;
    }
    true
}

/// Once a content is refused, the rest of the batch changes nothing.
proof fn lemma_refused_stays(start: PollState, sv: Seq<SnapshotView>, k: int, max: nat)
    requires
        0 <= k <= sv.len(),
        poll_run(start, sv.take(k), max).refused is Some,
    ensures
        poll_run(start, sv, max) == poll_run(start, sv.take(k), max),
    decreases sv.len() - k,
{
    if k < sv.len() {
        assert(sv.take(k + 1).drop_last() =~= sv.take(k));
        lemma_refused_stays(start, sv, k + 1, max);
    } else {
        assert(sv.take(k) =~= sv);
    }
}


/// Where launching as the single instance stands.
#[derive(Debug, Clone, Copy, PartialEq, Eq, Structural)]
pub enum LaunchState {
    /// The lock file is being created.
    Creating,
    /// The lock file existed; its owner's pid is being read.
    ReadingOwner,
    /// Whether the owner still runs is being checked.
    CheckingOwner,
    /// The stale lock file is being removed.
    RemovingStale,
    /// The lock file is being created again after a stale one was removed.
    Retrying,
    /// Nothing more follows.
    Done,
}

/// What the caller reports of the step it took.
#[derive(Debug, Clone, PartialEq, Eq)]
pub enum LockEvent {
    /// The lock file was created, holding this process's id.
    Created,
    /// The lock file already exists.
    AlreadyExists,
    /// Creating the lock file failed otherwise.
    CreateFailed,
    /// The lock file's contents.
    OwnerText(String),
    /// The lock file could not be read.
    ReadFailed,
    /// Whether the process with the owner's pid runs.
    OwnerRunning(bool),
    /// The stale lock file was removed.
    Removed,
    /// The stale lock file could not be removed.
    RemoveFailed,
}

/// What the caller does next.
#[derive(Debug, Clone, Copy, PartialEq, Eq, Structural)]
pub enum LockAction {
    /// Read the lock file.
    ReadOwner,
    /// Check whether the process with this pid runs.
    CheckRunning(u32),
    /// Remove the stale lock file.
    RemoveStaleLock,
    /// Create the lock file again.
    CreateLock,
    /// This process is the primary instance and holds the lock.
    BecomePrimary,
    /// Another instance runs: focus it.
    FocusExisting,
    /// Launching failed with the error of the last step.
    Fail,
}

pub enum LockEventView {
    Created,
    AlreadyExists,
    CreateFailed,
    OwnerText(Seq<char>),
    ReadFailed,
    OwnerRunning(bool),
    Removed,
    RemoveFailed,
}

impl LockEvent {
    pub open spec fn view_event(self) -> LockEventView {
        match self {
            LockEvent::Created => LockEventView::Created,
            LockEvent::AlreadyExists => LockEventView::AlreadyExists,
            LockEvent::CreateFailed => LockEventView::CreateFailed,
            LockEvent::OwnerText(t) => LockEventView::OwnerText(t@),
            LockEvent::ReadFailed => LockEventView::ReadFailed,
            LockEvent::OwnerRunning(b) => LockEventView::OwnerRunning(b),
            LockEvent::Removed => LockEventView::Removed,
            LockEvent::RemoveFailed => LockEventView::RemoveFailed,
        }
    }
}

/// Launching as the single instance, starting in `Creating` after creating the lock
/// file: a created lock makes this the primary instance; an existing one is read;
/// a lock whose owner's pid cannot be read, or whose owner no longer runs, is
/// removed and the lock created again; a running owner is focused instead. Any
/// failed step, and any other report, ends the launch with that step's error.
pub open spec fn launch_step_spec(s: LaunchState, e: LockEventView) -> (LaunchState, LockAction) {
    match (s, e) {
        (LaunchState::Creating, LockEventView::Created) => (LaunchState::Done, LockAction::BecomePrimary),
        (LaunchState::Creating, LockEventView::AlreadyExists) => (
            LaunchState::ReadingOwner,
            LockAction::ReadOwner,
        ),
        (LaunchState::ReadingOwner, LockEventView::OwnerText(raw)) => match crate::text::parse_u32(
            crate::text::trim(raw),
        ) {
            Some(pid) => (LaunchState::CheckingOwner, LockAction::CheckRunning(pid)),
            None => (LaunchState::RemovingStale, LockAction::RemoveStaleLock),
        },
        (LaunchState::CheckingOwner, LockEventView::OwnerRunning(true)) => (
            LaunchState::Done,
            LockAction::FocusExisting,
        ),
        (LaunchState::CheckingOwner, LockEventView::OwnerRunning(false)) => (
            LaunchState::RemovingStale,
            LockAction::RemoveStaleLock,
        ),
        (LaunchState::RemovingStale, LockEventView::Removed) => (LaunchState::Retrying, LockAction::CreateLock),
        (LaunchState::Retrying, LockEventView::Created) => (LaunchState::Done, LockAction::BecomePrimary),
        _ => (LaunchState::Done, LockAction::Fail),
    }
}

/// The next state of a launch and what to do next (see `launch_step_spec`).
pub fn launch_step(state: LaunchState, event: LockEvent) -> (r: (LaunchState, LockAction))
    ensures
        r == launch_step_spec(state, event.view_event()),
{
    match (state, event) {
        (LaunchState::Creating, LockEvent::Created) => (LaunchState::Done, LockAction::BecomePrimary),
        (LaunchState::Creating, LockEvent::AlreadyExists) => (
            LaunchState::ReadingOwner,
            LockAction::ReadOwner,
        ),
        (LaunchState::ReadingOwner, LockEvent::OwnerText(raw)) => match lock_file_pid(raw.as_str()) {
            Some(pid) => (LaunchState::CheckingOwner, LockAction::CheckRunning(pid)),
            None => (LaunchState::RemovingStale, LockAction::RemoveStaleLock),
        },
        (LaunchState::CheckingOwner, LockEvent::OwnerRunning(running)) => {
            if running {
                (LaunchState::Done, LockAction::FocusExisting)
            } else {
                (LaunchState::RemovingStale, LockAction::RemoveStaleLock)
            }
        },
        (LaunchState::RemovingStale, LockEvent::Removed) => (LaunchState::Retrying, LockAction::CreateLock),
        (LaunchState::Retrying, LockEvent::Created) => (LaunchState::Done, LockAction::BecomePrimary),
        _ => (LaunchState::Done, LockAction::Fail),
    }
}

/// The process id recorded in a lock file: its trimmed text as a `u32`.
pub fn lock_file_pid(raw: &str) -> (r: Option<u32>)
    ensures
        r == crate::text::parse_u32(crate::text::trim(raw@)),
{
    let trimmed = crate::text::trim_text(raw);
    crate::text::parse_u32_text(trimmed.as_str())
}

} // verus!
