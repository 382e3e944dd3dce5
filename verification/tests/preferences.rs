use tule_desktop::preferences::{
    apply_appearance_preference_update, AppearancePreference, PreferenceCommandError,
};
use tule_desktop::settings_window::{should_emit_navigation, SettingsCategory, SettingsLaunchState};

#[test]
fn invalid_appearance_values_resolve_to_system() {
    assert_eq!(
        AppearancePreference::parse("light"),
        AppearancePreference::Light
    );
    assert_eq!(
        AppearancePreference::parse("dark"),
        AppearancePreference::Dark
    );
    assert_eq!(
        AppearancePreference::parse("system"),
        AppearancePreference::System
    );
    assert_eq!(
        AppearancePreference::parse(""),
        AppearancePreference::System
    );
    assert_eq!(
        AppearancePreference::parse("nope"),
        AppearancePreference::System
    );
}

#[test]
fn appearance_changed_emits_even_when_persistence_rejects() {
    let mut emissions = Vec::new();
    let result = apply_appearance_preference_update(
        AppearancePreference::Dark,
        || Err(PreferenceCommandError::PreferenceStorageUnavailable),
        |value| {
            emissions.push(value);
            Ok::<(), ()>(())
        },
    );

    assert_eq!(
        result,
        Err(PreferenceCommandError::PreferenceStorageUnavailable)
    );
    assert_eq!(emissions, vec![AppearancePreference::Dark]);
}

#[test]
fn appearance_changed_emits_after_successful_persistence() {
    let mut emissions = Vec::new();
    let result = apply_appearance_preference_update(
        AppearancePreference::Light,
        || Ok(()),
        |value| {
            emissions.push(value);
            Ok::<(), ()>(())
        },
    );

    assert_eq!(result, Ok(AppearancePreference::Light));
    assert_eq!(emissions, vec![AppearancePreference::Light]);
}

#[test]
fn appearance_text_round_trips_through_parse() {
    for preference in [
        AppearancePreference::System,
        AppearancePreference::Light,
        AppearancePreference::Dark,
    ] {
        assert_eq!(AppearancePreference::parse(preference.as_str()), preference);
    }
    assert_eq!(AppearancePreference::Dark.as_str(), "dark");
    assert_eq!(AppearancePreference::System.as_str(), "system");
    assert_eq!(AppearancePreference::parse("Dark"), AppearancePreference::System);
}

#[test]
fn appearance_emit_failure_does_not_change_the_result() {
    let result = apply_appearance_preference_update(
        AppearancePreference::Dark,
        || Ok(()),
        |_| Err::<(), &str>("closed window"),
    );
    assert_eq!(result, Ok(AppearancePreference::Dark));
}

#[test]
fn pending_launch_category_is_taken_once() {
    let mut state = SettingsLaunchState::new();
    state.set_pending(Some(SettingsCategory::Appearance));
    assert_eq!(state.take_pending(), Some(SettingsCategory::Appearance));
    assert_eq!(state.take_pending(), None);
}

#[test]
fn existing_settings_window_navigates_and_new_window_reads_pending() {
    assert_eq!(
        should_emit_navigation(false, Some(SettingsCategory::Connections)),
        Some(SettingsCategory::Connections)
    );
    assert_eq!(should_emit_navigation(true, Some(SettingsCategory::Connections)), None);
    assert_eq!(should_emit_navigation(false, None), None);
}
