//! The flow of the Linux history popup: which dialog comes next, and what is done
//! with the item chosen, given what each dialog answered. Running the dialogs and
//! performing the actions is left to the caller.
use crate::linux_dialogs::HistoryAction;
use crate::linux_history::{
    filter_history_for_search, linux_views, search_matches, LinuxHistoryItem, LinuxItemView,
};
use crate::text::owned;
use vstd::prelude::*;

verus! {

/// Where the popup flow stands.
#[derive(Debug, Clone, PartialEq, Eq)]
pub enum PopupFlowState {
    /// The history has not been handed over yet.
    Start,
    /// The search dialog is open over this history.
    Searching(Vec<LinuxHistoryItem>),
    /// The list of matching items is open.
    Choosing,
    /// The action dialog is open for this item.
    Acting(LinuxHistoryItem),
    /// Nothing more follows.
    Finished,
}

/// What the caller reports: the loaded history, or a dialog's answer.
#[derive(Debug, Clone, PartialEq, Eq)]
pub enum PopupEvent {
    Loaded(Vec<LinuxHistoryItem>),
    /// The search dialog's query; `None` when it was cancelled.
    Query(Option<String>),
    /// The search dialog could not be shown.
    QueryFailed,
    /// The item chosen from the list; `None` when the list was closed.
    Chosen(Option<LinuxHistoryItem>),
    /// The list could not be shown.
    ChooseFailed,
    /// The action chosen for the item; `None` when the dialog was closed.
    Action(Option<HistoryAction>),
    /// The action dialog could not be shown.
    ActionFailed,
}

/// What the caller does next.
#[derive(Debug, Clone, PartialEq, Eq)]
pub enum PopupAction {
    /// Show a notice; the flow then ends.
    Info { title: String, text: String },
    /// Open the search dialog.
    AskQuery,
    /// Open the list of these items.
    AskItem(Vec<LinuxHistoryItem>),
    /// Open the action dialog for an item, pinned or not.
    AskAction { pinned: bool },
    /// Copy the text to the clipboard.
    Copy(String),
    /// Paste the text, as plain text or not.
    Paste { text: String, plain: bool },
    /// Toggle the pin of the item holding the text.
    TogglePin(String),
    /// Delete the items holding the text.
    Delete(String),
    /// Nothing more is done.
    Done,
}

pub enum PopupStateView {
    Start,
    Searching(Seq<LinuxItemView>),
    Choosing,
    Acting(LinuxItemView),
    Finished,
}

pub enum PopupEventView {
    Loaded(Seq<LinuxItemView>),
    Query(Option<Seq<char>>),
    QueryFailed,
    Chosen(Option<LinuxItemView>),
    ChooseFailed,
    Action(Option<HistoryAction>),
    ActionFailed,
}

pub enum PopupActionView {
    Info(Seq<char>, Seq<char>),
    AskQuery,
    AskItem(Seq<LinuxItemView>),
    AskAction(bool),
    Copy(Seq<char>),
    Paste(Seq<char>, bool),
    TogglePin(Seq<char>),
    Delete(Seq<char>),
    Done,
}

impl PopupFlowState {
    pub open spec fn view_state(self) -> PopupStateView {
        match self {
            PopupFlowState::Start => PopupStateView::Start,
            PopupFlowState::Searching(h) => PopupStateView::Searching(linux_views(h@)),
            PopupFlowState::Choosing => PopupStateView::Choosing,
            PopupFlowState::Acting(item) => PopupStateView::Acting(item@),
            PopupFlowState::Finished => PopupStateView::Finished,
        }
    }
}

impl PopupEvent {
    pub open spec fn view_event(self) -> PopupEventView {
        match self {
            PopupEvent::Loaded(h) => PopupEventView::Loaded(linux_views(h@)),
            PopupEvent::Query(q) => PopupEventView::Query(
                match q {
                    Some(t) => Some(t@),
                    None => None,
                },
            ),
            PopupEvent::QueryFailed => PopupEventView::QueryFailed,
            PopupEvent::Chosen(c) => PopupEventView::Chosen(
                match c {
                    Some(item) => Some(item@),
                    None => None,
                },
            ),
            PopupEvent::ChooseFailed => PopupEventView::ChooseFailed,
            PopupEvent::Action(a) => PopupEventView::Action(a),
            PopupEvent::ActionFailed => PopupEventView::ActionFailed,
        }
    }
}

impl PopupAction {
    pub open spec fn view_action(self) -> PopupActionView {
        match self {
            PopupAction::Info { title, text } => PopupActionView::Info(title@, text@),
            PopupAction::AskQuery => PopupActionView::AskQuery,
            PopupAction::AskItem(items) => PopupActionView::AskItem(linux_views(items@)),
            PopupAction::AskAction { pinned } => PopupActionView::AskAction(pinned),
            PopupAction::Copy(t) => PopupActionView::Copy(t@),
            PopupAction::Paste { text, plain } => PopupActionView::Paste(text@, plain),
            PopupAction::TogglePin(t) => PopupActionView::TogglePin(t@),
            PopupAction::Delete(t) => PopupActionView::Delete(t@),
            PopupAction::Done => PopupActionView::Done,
        }
    }
}

/// After the search: the list of matching items, or a notice when none matches.
pub open spec fn after_query(
    history: Seq<LinuxItemView>,
    query: Seq<char>,
) -> (PopupStateView, PopupActionView) {
    let visible = search_matches(history, query);
    if visible.len() == 0 {
        (
            PopupStateView::Finished,
            PopupActionView::Info("Clippo"@, "No clipboard history matches."@),
        )
    } else {
        (PopupStateView::Choosing, PopupActionView::AskItem(visible))
    }
}

/// What an action chosen for an item does.
pub open spec fn action_on(item: LinuxItemView, action: HistoryAction) -> PopupActionView {
    match action {
        HistoryAction::Copy => PopupActionView::Copy(item.text),
        HistoryAction::Paste => PopupActionView::Paste(item.text, false),
        HistoryAction::PastePlain => PopupActionView::Paste(item.text, true),
        HistoryAction::ShowFullText => PopupActionView::Info("Clippo Item"@, item.text),
        HistoryAction::TogglePin => PopupActionView::TogglePin(item.text),
        HistoryAction::Delete => PopupActionView::Delete(item.text),
    }
}

/// The popup flow. An empty history shows a notice; otherwise the search opens. A
/// cancelled search ends the flow; a search that could not be shown searches for
/// nothing, which lists every item. No match shows a notice; otherwise the list of
/// matches opens. A chosen item opens its action dialog, and the chosen action is
/// done; when the action dialog could not be shown, the item is copied. Closing a
/// dialog, a list that could not be shown, and any other answer end the flow.
pub open spec fn popup_step_spec(s: PopupStateView, e: PopupEventView) -> (PopupStateView, PopupActionView) {
    match (s, e) {
        (PopupStateView::Start, PopupEventView::Loaded(h)) => if h.len() == 0 {
            (
                PopupStateView::Finished,
                PopupActionView::Info("Clippo"@, "No clipboard history yet."@),
            )
        } else {
            (PopupStateView::Searching(h), PopupActionView::AskQuery)
        },
        (PopupStateView::Searching(h), PopupEventView::Query(Some(q))) => after_query(h, q),
        (PopupStateView::Searching(h), PopupEventView::QueryFailed) => after_query(h, Seq::empty()),
        (PopupStateView::Choosing, PopupEventView::Chosen(Some(item))) => (
            PopupStateView::Acting(item),
            PopupActionView::AskAction(item.pinned),
        ),
        (PopupStateView::Acting(item), PopupEventView::Action(Some(a))) => (
            PopupStateView::Finished,
            action_on(item, a),
        ),
        (PopupStateView::Acting(item), PopupEventView::ActionFailed) => (
            PopupStateView::Finished,
            PopupActionView::Copy(item.text),
        ),
        _ => (PopupStateView::Finished, PopupActionView::Done),
    }
}

fn query_result(history: Vec<LinuxHistoryItem>, query: &str) -> (r: (PopupFlowState, PopupAction))
    ensures
        (r.0.view_state(), r.1.view_action()) == after_query(linux_views(history@), query@),
{
    let visible = filter_history_for_search(history.as_slice(), query);
    if visible.len() == 0 {
        (
            PopupFlowState::Finished,
            PopupAction::Info {
                title: owned("Clippo"),
                text: owned("No clipboard history matches."),
            },
        )
    } else {
        (PopupFlowState::Choosing, PopupAction::AskItem(visible))
    }
}

/// The next state of the popup flow and what to do next (see `popup_step_spec`).
pub fn popup_step(state: PopupFlowState, event: PopupEvent) -> (r: (PopupFlowState, PopupAction))
    ensures
        (r.0.view_state(), r.1.view_action()) == popup_step_spec(
            state.view_state(),
            event.view_event(),
        ),
{
    match (state, event) {
        (PopupFlowState::Start, PopupEvent::Loaded(h)) => {
            if h.len() == 0 {
                (
                    PopupFlowState::Finished,
                    PopupAction::Info {
                        title: owned("Clippo"),
                        text: owned("No clipboard history yet."),
                    },
                )
            } else {
                (PopupFlowState::Searching(h), PopupAction::AskQuery)
            }
        },
        (PopupFlowState::Searching(h), PopupEvent::Query(Some(q))) => query_result(h, q.as_str()),
        (PopupFlowState::Searching(h), PopupEvent::QueryFailed) => {
            proof {
                reveal_strlit("");
            }
            assert(""@ =~= Seq::<char>::empty());
            query_result(h, "")
        },
        (PopupFlowState::Choosing, PopupEvent::Chosen(Some(item))) => {
            let pinned = item.pinned;
            (PopupFlowState::Acting(item), PopupAction::AskAction { pinned })
        },
        (PopupFlowState::Acting(item), PopupEvent::Action(Some(a))) => {
            let action = match a {
                HistoryAction::Copy => PopupAction::Copy(item.text),
                HistoryAction::Paste => PopupAction::Paste { text: item.text, plain: false },
                HistoryAction::PastePlain => PopupAction::Paste { text: item.text, plain: true },
                HistoryAction::ShowFullText => PopupAction::Info {
                    title: owned("Clippo Item"),
                    text: item.text,
                },
                HistoryAction::TogglePin => PopupAction::TogglePin(item.text),
                HistoryAction::Delete => PopupAction::Delete(item.text),
            };
            (PopupFlowState::Finished, action)
        },
        (PopupFlowState::Acting(item), PopupEvent::ActionFailed) => (
            PopupFlowState::Finished,
            PopupAction::Copy(item.text),
        ),
        _ => (PopupFlowState::Finished, PopupAction::Done),
    }
}

} // verus!
