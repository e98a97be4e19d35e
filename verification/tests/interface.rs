use vistula_updater::config::AppConfig;
use vistula_updater::i18n::LocalizationContext;
use vistula_updater::pacman::PackageUpdate;
use vistula_updater::ui::{Tab, UpdaterAction, UpdaterMessage, UpdaterState};

fn state_with_translations() -> UpdaterState {
    let mut ctx = LocalizationContext::new();
    ctx.install_table(
        "en",
        vec![
            ("app.title".to_string(), "VistulaOS Updater".to_string()),
            ("sys.check".to_string(), "Check for updates".to_string()),
            ("sys.status.checking".to_string(), "Checking...".to_string()),
            ("sys.status.updated".to_string(), "System is up to date".to_string()),
            ("sys.status.found".to_string(), "Found {n} updates".to_string()),
            ("sys.status.check_error".to_string(), "Check failed".to_string()),
        ],
    );
    UpdaterState::new(AppConfig::default(), ctx)
}

fn update_named(name: &str) -> PackageUpdate {
    PackageUpdate {
        name: name.to_string(),
        current_version: "1.0".to_string(),
        new_version: "2.0".to_string(),
    }
}

#[test]
fn test_initial_state() {
    let state = state_with_translations();
    assert_eq!(state.current_tab, Tab::System);
    assert!(!state.checking_updates);
    assert_eq!(state.system_status, "Check for updates");
    assert_eq!(state.title(), "VistulaOS Updater");
    assert_eq!(state.available_languages, vec!["en".to_string(), "pl".to_string()]);
}

#[test]
fn test_check_updates_starts_check() {
    let mut state = state_with_translations();
    let action = state.update(UpdaterMessage::CheckUpdates);
    assert!(matches!(action, UpdaterAction::CheckForUpdates));
    assert!(state.checking_updates);
    assert_eq!(state.system_status, "Checking...");
}

#[test]
fn test_updates_checked_reports_count() {
    let mut state = state_with_translations();
    state.update(UpdaterMessage::CheckUpdates);
    let found = vec![update_named("one"), update_named("two")];
    let action = state.update(UpdaterMessage::UpdatesChecked(Ok(found)));
    assert!(matches!(action, UpdaterAction::Idle));
    assert!(!state.checking_updates);
    assert_eq!(state.available_updates.len(), 2);
    assert_eq!(state.system_status, "Found 2 updates");
}

#[test]
fn test_updates_checked_empty_means_up_to_date() {
    let mut state = state_with_translations();
    let action = state.update(UpdaterMessage::UpdatesChecked(Ok(Vec::new())));
    assert!(matches!(action, UpdaterAction::Idle));
    assert_eq!(state.system_status, "System is up to date");
}

#[test]
fn test_updates_checked_error_is_reported() {
    let mut state = state_with_translations();
    let action = state.update(UpdaterMessage::UpdatesChecked(Err("no network".to_string())));
    assert!(matches!(action, UpdaterAction::Idle));
    assert_eq!(state.system_status, "Check failed: no network");
}

#[test]
fn test_system_updated_clears_updates() {
    let mut state = state_with_translations();
    state.update(UpdaterMessage::UpdatesChecked(Ok(vec![update_named("one")])));
    let action = state.update(UpdaterMessage::SystemUpdated(Ok(())));
    assert!(matches!(action, UpdaterAction::Idle));
    assert_eq!(state.available_updates.len(), 0);
    assert_eq!(state.system_status, "System is up to date");
}

#[test]
fn test_search_needs_a_query() {
    let mut state = state_with_translations();
    let action = state.update(UpdaterMessage::SearchFlatpaks);
    assert!(matches!(action, UpdaterAction::Idle));
    assert!(!state.searching_flatpaks);

    state.update(UpdaterMessage::SearchQueryChanged("gimp".to_string()));
    let action = state.update(UpdaterMessage::SearchFlatpaks);
    match action {
        UpdaterAction::SearchFlatpaks(q) => assert_eq!(q, "gimp"),
        _ => panic!("expected a search action"),
    }
    assert!(state.searching_flatpaks);
}

#[test]
fn test_tab_change_loads_installed() {
    let mut state = state_with_translations();
    let action = state.update(UpdaterMessage::TabChanged(Tab::Flatpak));
    assert!(matches!(action, UpdaterAction::ListInstalled));
    assert_eq!(state.current_tab, Tab::Flatpak);
    let action = state.update(UpdaterMessage::TabChanged(Tab::Settings));
    assert!(matches!(action, UpdaterAction::Idle));
}

#[test]
fn test_installed_loaded_fills_list() {
    let mut state = state_with_translations();
    let apps = vec![vistula_updater::flatpak::FlatpakApp {
        appid: "org.gnome.Gedit".to_string(),
        name: "Gedit".to_string(),
        origin: "flathub".to_string(),
        version: None,
    }];
    let action = state.update(UpdaterMessage::InstalledLoaded(Ok(apps)));
    assert!(matches!(action, UpdaterAction::Idle));
    assert_eq!(state.installed_flatpaks.len(), 1);
    assert_eq!(state.flatpak_status, "");
}

#[test]
fn test_language_change_is_persisted_and_normalized() {
    let mut state = state_with_translations();
    let action = state.update(UpdaterMessage::LanguageChanged("pl_PL.UTF-8".to_string()));
    assert!(matches!(action, UpdaterAction::SaveConfig));
    assert_eq!(state.config.language, "pl_PL.UTF-8");
    assert_eq!(state.i18n.current_language(), "pl");
}

#[test]
fn test_theme_change_is_persisted() {
    let mut state = state_with_translations();
    let action = state.update(UpdaterMessage::ThemeChanged("dark".to_string()));
    assert!(matches!(action, UpdaterAction::SaveConfig));
    assert_eq!(state.config.theme, "dark");
    assert_eq!(state.config.language, "en");
}
