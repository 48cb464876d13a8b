//! The application's lifecycle as a state machine.
use vstd::prelude::*;

verus! {

#[derive(Debug, Clone, Copy, PartialEq, Eq, Structural)]
pub enum AppLifecycleEvent {
    FirstLaunch,
    Launch,
    SecondLaunch,
    Sleep,
    Wake,
    MenuOrTrayQuitRequested,
    ShutdownRequested,
    CrashRecovered,
    UpdateRestartRequested,
}

#[derive(Debug, Clone, Copy, PartialEq, Eq, Structural)]
pub enum LifecycleStatus {
    Starting,
    Running,
    Suspended,
    ShuttingDown,
    RestartingForUpdate,
}

#[derive(Debug, Clone, PartialEq, Eq, Structural)]
pub struct AppLifecycleState {
    pub status: LifecycleStatus,
    pub first_run_onboarding_required: bool,
    pub recovered_from_crash: bool,
    pub should_focus_existing_instance: bool,
    pub clipboard_monitoring_active: bool,
    pub should_save_before_exit: bool,
    pub should_relaunch_after_update: bool,
    pub shutdown_requested_from_menu_or_tray: bool,
}

/// The state after an event.
pub open spec fn lifecycle_step(s: AppLifecycleState, event: AppLifecycleEvent) -> AppLifecycleState {
    match event {
        AppLifecycleEvent::FirstLaunch => AppLifecycleState {
            status: LifecycleStatus::Running,
            first_run_onboarding_required: true,
            clipboard_monitoring_active: true,
            ..s
        },
        AppLifecycleEvent::Launch => AppLifecycleState {
            status: LifecycleStatus::Running,
            should_focus_existing_instance: false,
            clipboard_monitoring_active: true,
            ..s
        },
        AppLifecycleEvent::SecondLaunch => AppLifecycleState {
            should_focus_existing_instance: true,
            ..s
        },
        AppLifecycleEvent::Sleep => AppLifecycleState {
            status: LifecycleStatus::Suspended,
            clipboard_monitoring_active: false,
            ..s
        },
        AppLifecycleEvent::Wake => AppLifecycleState {
            status: LifecycleStatus::Running,
            clipboard_monitoring_active: true,
            ..s
        },
        AppLifecycleEvent::MenuOrTrayQuitRequested => AppLifecycleState {
            status: LifecycleStatus::ShuttingDown,
            clipboard_monitoring_active: false,
            should_save_before_exit: true,
            shutdown_requested_from_menu_or_tray: true,
            ..s
        },
        AppLifecycleEvent::ShutdownRequested => AppLifecycleState {
            status: LifecycleStatus::ShuttingDown,
            clipboard_monitoring_active: false,
            should_save_before_exit: true,
            ..s
        },
        AppLifecycleEvent::CrashRecovered => AppLifecycleState {
            status: LifecycleStatus::Running,
            recovered_from_crash: true,
            clipboard_monitoring_active: true,
            should_save_before_exit: false,
            ..s
        },
        AppLifecycleEvent::UpdateRestartRequested => AppLifecycleState {
            status: LifecycleStatus::RestartingForUpdate,
            clipboard_monitoring_active: false,
            should_save_before_exit: true,
            should_relaunch_after_update: true,
            ..s
        },
    }
}

impl Default for AppLifecycleState {
    fn default() -> (r: Self)
        ensures
            r == (AppLifecycleState {
                status: LifecycleStatus::Starting,
                first_run_onboarding_required: false,
                recovered_from_crash: false,
                should_focus_existing_instance: false,
                clipboard_monitoring_active: false,
                should_save_before_exit: false,
                should_relaunch_after_update: false,
                shutdown_requested_from_menu_or_tray: false,
            }),
    {
        AppLifecycleState {
            status: LifecycleStatus::Starting,
            first_run_onboarding_required: false,
            recovered_from_crash: false,
            should_focus_existing_instance: false,
            clipboard_monitoring_active: false,
            should_save_before_exit: false,
            should_relaunch_after_update: false,
            shutdown_requested_from_menu_or_tray: false,
        }
    }
}

impl AppLifecycleState {
    /// Clipboard monitoring runs exactly while the application is running.
    pub open spec fn monitoring_matches_status(self) -> bool {
        self.clipboard_monitoring_active == (self.status == LifecycleStatus::Running)
    }

    /// The state after an event.
    pub fn apply(self, event: AppLifecycleEvent) -> (r: Self)
        ensures
            r == lifecycle_step(self, event),
    {
        let mut s = self;
        match event {
            AppLifecycleEvent::FirstLaunch => {
                s.status = LifecycleStatus::Running;
                s.first_run_onboarding_required = true;
                s.clipboard_monitoring_active = true;
            },
            AppLifecycleEvent::Launch => {
                s.status = LifecycleStatus::Running;
                s.should_focus_existing_instance = false;
                s.clipboard_monitoring_active = true;
            },
            AppLifecycleEvent::SecondLaunch => {
                s.should_focus_existing_instance = true;
            },
            AppLifecycleEvent::Sleep => {
                s.status = LifecycleStatus::Suspended;
                s.clipboard_monitoring_active = false;
            },
            AppLifecycleEvent::Wake => {
                s.status = LifecycleStatus::Running;
                s.clipboard_monitoring_active = true;
            },
            AppLifecycleEvent::MenuOrTrayQuitRequested => {
                s.status = LifecycleStatus::ShuttingDown;
                s.clipboard_monitoring_active = false;
                s.should_save_before_exit = true;
                s.shutdown_requested_from_menu_or_tray = true;
            },
            AppLifecycleEvent::ShutdownRequested => {
                s.status = LifecycleStatus::ShuttingDown;
                s.clipboard_monitoring_active = false;
                s.should_save_before_exit = true;
            },
            AppLifecycleEvent::CrashRecovered => {
                s.status = LifecycleStatus::Running;
                s.recovered_from_crash = true;
                s.clipboard_monitoring_active = true;
                s.should_save_before_exit = false;
            },
            AppLifecycleEvent::UpdateRestartRequested => {
                s.status = LifecycleStatus::RestartingForUpdate;
                s.clipboard_monitoring_active = false;
                s.should_save_before_exit = true;
                s.should_relaunch_after_update = true;
            },
        }
        s
    }
}

/// Every event keeps clipboard monitoring tied to the running status.
pub proof fn lemma_monitoring_follows_status(s: AppLifecycleState, event: AppLifecycleEvent)
    requires
        s.monitoring_matches_status(),
    ensures
        lifecycle_step(s, event).monitoring_matches_status(),
{
}

/// Whatever the state, waking after sleep leaves the application running and monitoring.
pub proof fn lemma_sleep_then_wake_resumes(s: AppLifecycleState)
    ensures
        lifecycle_step(lifecycle_step(s, AppLifecycleEvent::Sleep), AppLifecycleEvent::Wake).status
            == LifecycleStatus::Running,
        lifecycle_step(
            lifecycle_step(s, AppLifecycleEvent::Sleep),
            AppLifecycleEvent::Wake,
        ).clipboard_monitoring_active,
{
}

/// Every way of leaving stops monitoring and asks for a save.
pub proof fn lemma_exit_events_save(s: AppLifecycleState, event: AppLifecycleEvent)
    requires
        event == AppLifecycleEvent::MenuOrTrayQuitRequested || event
            == AppLifecycleEvent::ShutdownRequested || event
            == AppLifecycleEvent::UpdateRestartRequested,
    ensures
        lifecycle_step(s, event).should_save_before_exit,
        !lifecycle_step(s, event).clipboard_monitoring_active,
{
}

} // verus!
