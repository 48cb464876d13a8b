use clippo::onboarding::{OnboardingProgress, OnboardingStepId, OnboardingViewModel};
use clippo::settings::ClippoSettings;

#[test]
fn first_run_onboarding_starts_with_clipboard_access() {
    let view_model = OnboardingViewModel::from_progress(
        &ClippoSettings::default(),
        &OnboardingProgress::default(),
    );

    assert_eq!(
        view_model.current_step,
        Some(OnboardingStepId::ClipboardAccess)
    );
    assert!(!view_model.complete);
    assert!(view_model
        .steps
        .iter()
        .any(|step| step.id == OnboardingStepId::GlobalShortcut
            && step.shortcut_hint == Some("Shift+Meta+C".to_string())));
}

#[test]
fn onboarding_can_skip_paste_permission_when_auto_paste_is_disabled() {
    let settings = ClippoSettings {
        paste_automatically: false,
        ..ClippoSettings::default()
    };
    let view_model = OnboardingViewModel::from_progress(
        &settings,
        &OnboardingProgress {
            completed_steps: vec![
                OnboardingStepId::ClipboardAccess,
                OnboardingStepId::GlobalShortcut,
                OnboardingStepId::PrivacyDefaults,
            ],
        },
    );

    assert!(view_model.complete);
    assert_eq!(view_model.current_step, Some(OnboardingStepId::Complete));
}

#[test]
fn onboarding_requires_privacy_review_before_completion() {
    let view_model = OnboardingViewModel::from_progress(
        &ClippoSettings::default(),
        &OnboardingProgress {
            completed_steps: vec![
                OnboardingStepId::ClipboardAccess,
                OnboardingStepId::PasteAutomation,
                OnboardingStepId::GlobalShortcut,
            ],
        },
    );

    assert_eq!(
        view_model.current_step,
        Some(OnboardingStepId::PrivacyDefaults)
    );
    assert!(!view_model.complete);
}
