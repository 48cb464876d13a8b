use clippo::lifecycle::{AppLifecycleEvent, AppLifecycleState, LifecycleStatus};

#[test]
fn first_launch_requires_onboarding() {
    let state = AppLifecycleState::default().apply(AppLifecycleEvent::FirstLaunch);

    assert_eq!(state.status, LifecycleStatus::Running);
    assert!(state.first_run_onboarding_required);
    assert!(state.clipboard_monitoring_active);
}

#[test]
fn second_launch_focuses_existing_instance() {
    let state = AppLifecycleState::default()
        .apply(AppLifecycleEvent::Launch)
        .apply(AppLifecycleEvent::SecondLaunch);

    assert!(state.should_focus_existing_instance);
}

#[test]
fn wake_resumes_running_state() {
    let state = AppLifecycleState::default()
        .apply(AppLifecycleEvent::Sleep)
        .apply(AppLifecycleEvent::Wake);

    assert_eq!(state.status, LifecycleStatus::Running);
    assert!(state.clipboard_monitoring_active);
}

#[test]
fn shutdown_moves_to_shutting_down_state() {
    let state = AppLifecycleState::default().apply(AppLifecycleEvent::ShutdownRequested);

    assert_eq!(state.status, LifecycleStatus::ShuttingDown);
    assert!(state.should_save_before_exit);
    assert!(!state.clipboard_monitoring_active);
}

#[test]
fn menu_or_tray_quit_requests_clean_shutdown() {
    let state = AppLifecycleState::default()
        .apply(AppLifecycleEvent::Launch)
        .apply(AppLifecycleEvent::MenuOrTrayQuitRequested);

    assert_eq!(state.status, LifecycleStatus::ShuttingDown);
    assert!(state.should_save_before_exit);
    assert!(state.shutdown_requested_from_menu_or_tray);
    assert!(!state.clipboard_monitoring_active);
}

#[test]
fn crash_recovery_records_recovered_state() {
    let state = AppLifecycleState::default().apply(AppLifecycleEvent::CrashRecovered);

    assert_eq!(state.status, LifecycleStatus::Running);
    assert!(state.recovered_from_crash);
    assert!(state.clipboard_monitoring_active);
    assert!(!state.should_save_before_exit);
}

#[test]
fn update_restart_moves_to_restart_state() {
    let state = AppLifecycleState::default().apply(AppLifecycleEvent::UpdateRestartRequested);

    assert_eq!(state.status, LifecycleStatus::RestartingForUpdate);
    assert!(state.should_save_before_exit);
    assert!(state.should_relaunch_after_update);
    assert!(!state.clipboard_monitoring_active);
}
