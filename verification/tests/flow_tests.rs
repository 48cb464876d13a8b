use clippo::linux_dialogs::HistoryAction;
use clippo::linux_history::LinuxHistoryItem;
use clippo::linux_popup::{popup_step, PopupAction, PopupEvent, PopupFlowState};
use clippo::platform::{launch_step, LaunchState, LockAction, LockEvent};

fn items() -> Vec<LinuxHistoryItem> {
    vec![LinuxHistoryItem::new("alpha"), LinuxHistoryItem::new("beta")]
}

#[test]
fn popup_with_empty_history_shows_a_notice() {
    let (state, action) = popup_step(PopupFlowState::Start, PopupEvent::Loaded(Vec::new()));
    assert_eq!(state, PopupFlowState::Finished);
    assert_eq!(
        action,
        PopupAction::Info {
            title: "Clippo".to_string(),
            text: "No clipboard history yet.".to_string()
        }
    );
}

#[test]
fn popup_runs_search_choice_and_action() {
    let (state, action) = popup_step(PopupFlowState::Start, PopupEvent::Loaded(items()));
    assert_eq!(action, PopupAction::AskQuery);
    let (state, action) = popup_step(state, PopupEvent::Query(Some("ALP".to_string())));
    assert_eq!(action, PopupAction::AskItem(vec![LinuxHistoryItem::new("alpha")]));
    let (state, action) = popup_step(state, PopupEvent::Chosen(Some(LinuxHistoryItem::new("alpha"))));
    assert_eq!(action, PopupAction::AskAction { pinned: false });
    let (state, action) = popup_step(state, PopupEvent::Action(Some(HistoryAction::PastePlain)));
    assert_eq!(state, PopupFlowState::Finished);
    assert_eq!(
        action,
        PopupAction::Paste {
            text: "alpha".to_string(),
            plain: true
        }
    );
}

#[test]
fn popup_falls_back_after_failed_dialogs() {
    let (state, _) = popup_step(PopupFlowState::Start, PopupEvent::Loaded(items()));
    let (state, action) = popup_step(state, PopupEvent::QueryFailed);
    assert_eq!(action, PopupAction::AskItem(items()));
    let (state, _) = popup_step(state, PopupEvent::Chosen(Some(LinuxHistoryItem::new("beta"))));
    let (_, action) = popup_step(state, PopupEvent::ActionFailed);
    assert_eq!(action, PopupAction::Copy("beta".to_string()));
}

#[test]
fn popup_stops_on_cancel_and_reports_no_match() {
    let (state, _) = popup_step(PopupFlowState::Start, PopupEvent::Loaded(items()));
    let (cancelled, action) = popup_step(state.clone(), PopupEvent::Query(None));
    assert_eq!(cancelled, PopupFlowState::Finished);
    assert_eq!(action, PopupAction::Done);
    let (_, action) = popup_step(state, PopupEvent::Query(Some("zzz".to_string())));
    assert_eq!(
        action,
        PopupAction::Info {
            title: "Clippo".to_string(),
            text: "No clipboard history matches.".to_string()
        }
    );
}

#[test]
fn launch_becomes_primary_or_focuses_running_owner() {
    assert_eq!(
        launch_step(LaunchState::Creating, LockEvent::Created),
        (LaunchState::Done, LockAction::BecomePrimary)
    );
    let (state, action) = launch_step(LaunchState::Creating, LockEvent::AlreadyExists);
    assert_eq!(action, LockAction::ReadOwner);
    let (state, action) = launch_step(state, LockEvent::OwnerText(" 4242\n".to_string()));
    assert_eq!(action, LockAction::CheckRunning(4242));
    assert_eq!(
        launch_step(state, LockEvent::OwnerRunning(true)),
        (LaunchState::Done, LockAction::FocusExisting)
    );
}

#[test]
fn launch_replaces_stale_or_corrupt_lock() {
    let (state, action) = launch_step(LaunchState::ReadingOwner, LockEvent::OwnerText("garbage".to_string()));
    assert_eq!(action, LockAction::RemoveStaleLock);
    let (state, action) = launch_step(state, LockEvent::Removed);
    assert_eq!(action, LockAction::CreateLock);
    assert_eq!(
        launch_step(state, LockEvent::Created),
        (LaunchState::Done, LockAction::BecomePrimary)
    );
    assert_eq!(
        launch_step(LaunchState::CheckingOwner, LockEvent::OwnerRunning(false)).1,
        LockAction::RemoveStaleLock
    );
    assert_eq!(
        launch_step(LaunchState::Retrying, LockEvent::AlreadyExists),
        (LaunchState::Done, LockAction::Fail)
    );
}
