use clippo::settings::{ClippoSettings, SettingsError};
use clippo::settings_search::search_settings;

#[test]
fn defaults_are_privacy_preserving() {
    let settings = ClippoSettings::default();

    assert!(settings.paste_automatically);
    assert!(!settings.launch_at_login);
    assert_eq!(settings.history_limit, 200);
}

#[test]
fn validates_default_settings() {
    ClippoSettings::default().validate().unwrap();
}

#[test]
fn rejects_duplicate_shortcuts() {
    let mut settings = ClippoSettings::default();
    settings.shortcuts.clear_all = settings.shortcuts.open_history.clone();

    let error = settings.validate().unwrap_err();

    assert!(matches!(error, SettingsError::DuplicateShortcut(_)));
}

#[test]
fn searches_settings_by_title_category_and_description() {
    let shortcut_results = search_settings("shortcut");
    assert!(shortcut_results
        .iter()
        .any(|result| result.key == "shortcuts.open_history"));

    let privacy_results = search_settings("privacy applications");
    assert_eq!(privacy_results.len(), 1);
    assert_eq!(privacy_results[0].key, "ignored_applications");

    let paste_results = search_settings("plain text");
    assert_eq!(
        paste_results
            .iter()
            .map(|result| result.key)
            .collect::<Vec<_>>(),
        vec!["shortcuts.paste_without_formatting"]
    );
}

#[test]
fn empty_settings_search_returns_full_catalog() {
    let results = search_settings("   ");

    assert!(results.len() >= 10);
    assert!(results.iter().any(|result| result.key == "history_limit"));
}
