//! The front end's state machine: what each user or completion event does
//! to the interface state, and which asynchronous work it starts.
//!
//! Rendering is left entirely to the surrounding program; this module owns
//! the decisions. The runner performs the returned [`UpdaterAction`] —
//! spawning the check, update, search, install or listing through the
//! command layer, or persisting the settings — and feeds the outcome back
//! as the matching completion message.
use vstd::prelude::*;
use crate::config::AppConfig;
use crate::flatpak::FlatpakApp;
use crate::i18n::{normalized_lang, substituted, translated, LocalizationContext};
use crate::pacman::PackageUpdate;
use crate::text::{dec_str, usize_to_string};
use vstd::string::StringExecFns;

verus! {

/// The interface's three tabs.
#[derive(Debug, Clone, Copy, PartialEq, Eq, Structural)]
pub enum Tab {
    System,
    Flatpak,
    Settings,
}

/// One event the interface reacts to: a user gesture, or the completion of
/// asynchronous work started earlier.
#[derive(Debug)]
pub enum UpdaterMessage {
    TabChanged(Tab),
    CheckUpdates,
    UpdatesChecked(Result<Vec<PackageUpdate>, String>),
    UpdateSystem,
    SystemUpdated(Result<(), String>),
    SearchFlatpaks,
    SearchQueryChanged(String),
    FlatpaksFound(Result<Vec<FlatpakApp>, String>),
    InstallFlatpak(String),
    FlatpakInstalled(Result<(), String>),
    ListInstalledFlatpaks,
    InstalledLoaded(Result<Vec<FlatpakApp>, String>),
    LanguageChanged(String),
    ThemeChanged(String),
}

/// The work the runner owes after a step: nothing, one asynchronous
/// command whose outcome comes back as a message, or persisting the
/// settings.
#[derive(Debug, Clone)]
pub enum UpdaterAction {
    Idle,
    CheckForUpdates,
    UpdateSystem,
    SearchFlatpaks(String),
    InstallFlatpak(String),
    ListInstalled,
    SaveConfig,
}

/// The interface state between events.
pub struct UpdaterState {
    pub current_tab: Tab,
    pub config: AppConfig,
    pub i18n: LocalizationContext,
    pub available_updates: Vec<PackageUpdate>,
    pub checking_updates: bool,
    pub system_status: String,
    pub flatpak_search_query: String,
    pub flatpak_search_results: Vec<FlatpakApp>,
    pub installed_flatpaks: Vec<FlatpakApp>,
    pub searching_flatpaks: bool,
    pub flatpak_status: String,
    pub available_languages: Vec<String>,
}

/// What a key shows as in a state's language and tables.
pub open spec fn msg_text(s: &UpdaterState, key: Seq<char>) -> Seq<char> {
    translated(s.i18n.tables.deep_view(), s.i18n.language@, key)
}

/// The system tab's fields are untouched.
pub open spec fn system_unchanged(a: &UpdaterState, b: &UpdaterState) -> bool {
    b.available_updates == a.available_updates && b.checking_updates == a.checking_updates
        && b.system_status == a.system_status
}

/// The bundled-application tab's fields are untouched.
pub open spec fn flatpak_unchanged(a: &UpdaterState, b: &UpdaterState) -> bool {
    b.flatpak_search_query == a.flatpak_search_query && b.flatpak_search_results
        == a.flatpak_search_results && b.installed_flatpaks == a.installed_flatpaks
        && b.searching_flatpaks == a.searching_flatpaks && b.flatpak_status == a.flatpak_status
}

/// The settings — configuration, localization, language choices — are
/// untouched.
pub open spec fn settings_unchanged(a: &UpdaterState, b: &UpdaterState) -> bool {
    b.config == a.config && b.i18n == a.i18n && b.available_languages == a.available_languages
}

impl UpdaterState {
    /// The initial state: the system tab, the given settings and
    /// translations, the saved language made current, and an invitation to
    /// check for updates as the system status.
    pub fn new(config: AppConfig, i18n: LocalizationContext) -> (s: Self)
        ensures
            s.current_tab == Tab::System,
            s.config == config,
            s.i18n.language@ == normalized_lang(config.language@),
            s.i18n.tables == i18n.tables,
            s.available_updates@.len() == 0,
            !s.checking_updates,
            s.system_status@ == translated(
                i18n.tables.deep_view(),
                normalized_lang(config.language@),
                "sys.check"@,
            ),
            s.flatpak_search_query@.len() == 0,
            s.flatpak_search_results@.len() == 0,
            s.installed_flatpaks@.len() == 0,
            !s.searching_flatpaks,
            s.flatpak_status@.len() == 0,
            s.available_languages.deep_view() == seq!["en"@, "pl"@],
    {
        let mut localization = i18n;
        localization.set_language(config.language.as_str());
        let system_status = localization.t("sys.check");
        let mut available_languages: Vec<String> = Vec::new();
        available_languages.push("en".to_owned());
        available_languages.push("pl".to_owned());
        proof {
            assert(available_languages.deep_view() =~= seq!["en"@, "pl"@]);
        }
        UpdaterState {
            current_tab: Tab::System,
            config,
            i18n: localization,
            available_updates: Vec::new(),
            checking_updates: false,
            system_status,
            flatpak_search_query: String::new(),
            flatpak_search_results: Vec::new(),
            installed_flatpaks: Vec::new(),
            searching_flatpaks: false,
            flatpak_status: String::new(),
            available_languages,
        }
    }

    /// The window title.
    pub fn title(&self) -> (r: String)
        ensures
            r@ == msg_text(self, "app.title"@),
    {
        self.i18n.t("app.title")
    }

    /// React to one event: adjust the state and say what work the runner
    /// owes, as the contract spells out arm by arm.
    pub fn update(&mut self, msg: UpdaterMessage) -> (action: UpdaterAction)
        ensures
            match msg {
                UpdaterMessage::TabChanged(tab) => final(self).current_tab == tab
                    && settings_unchanged(old(self), final(self)) && (match tab {
                    Tab::System => flatpak_unchanged(old(self), final(self)) && final(self).checking_updates && final(self).available_updates == old(self).available_updates && final(self).system_status@ == msg_text(
                        old(self),
                        "sys.status.checking"@,
                    ) && action is CheckForUpdates,
                    Tab::Flatpak => system_unchanged(old(self), final(self)) && final(self).flatpak_status@ == msg_text(old(self), "fp.status.loading_installed"@)
                        && final(self).flatpak_search_query == old(self).flatpak_search_query
                        && final(self).flatpak_search_results == old(self).flatpak_search_results
                        && final(self).installed_flatpaks == old(self).installed_flatpaks && final(self).searching_flatpaks == old(self).searching_flatpaks && action is ListInstalled,
                    Tab::Settings => system_unchanged(old(self), final(self)) && flatpak_unchanged(
                        old(self),
                        final(self),
                    ) && action is Idle,
                }),
                UpdaterMessage::CheckUpdates => final(self).current_tab == old(self).current_tab
                    && settings_unchanged(old(self), final(self)) && flatpak_unchanged(
                    old(self),
                    final(self),
                ) && final(self).checking_updates && final(self).available_updates == old(self).available_updates && final(self).system_status@ == msg_text(
                    old(self),
                    "sys.status.checking"@,
                ) && action is CheckForUpdates,
                UpdaterMessage::UpdatesChecked(result) => final(self).current_tab == old(self).current_tab && settings_unchanged(old(self), final(self)) && flatpak_unchanged(
                    old(self),
                    final(self),
                ) && !final(self).checking_updates && action is Idle && (match result {
                    Ok(updates) => final(self).available_updates == updates && (
                    if updates@.len() > 0 {
                        final(self).system_status@ == substituted(
                            msg_text(old(self), "sys.status.found"@),
                            seq![("n"@, dec_str(updates@.len() as int))],
                        )
                    } else {
                        final(self).system_status@ == msg_text(old(self), "sys.status.updated"@)
                    }),
                    Err(e) => final(self).available_updates == old(self).available_updates && final(self).system_status@ == msg_text(old(self), "sys.status.check_error"@) + ": "@
                        + e@,
                }),
                UpdaterMessage::UpdateSystem => final(self).current_tab == old(self).current_tab
                    && settings_unchanged(old(self), final(self)) && flatpak_unchanged(
                    old(self),
                    final(self),
                ) && final(self).checking_updates && final(self).available_updates == old(self).available_updates && final(self).system_status@ == msg_text(
                    old(self),
                    "sys.status.updating"@,
                ) && action is UpdateSystem,
                UpdaterMessage::SystemUpdated(result) => final(self).current_tab == old(self).current_tab && settings_unchanged(old(self), final(self)) && flatpak_unchanged(
                    old(self),
                    final(self),
                ) && !final(self).checking_updates && action is Idle && (match result {
                    Ok(_) => final(self).available_updates@.len() == 0 && final(self).system_status@ == msg_text(old(self), "sys.status.updated"@),
                    Err(e) => final(self).available_updates == old(self).available_updates && final(self).system_status@ == msg_text(old(self), "sys.status.update_failed"@) + ": "@
                        + e@,
                }),
                UpdaterMessage::SearchQueryChanged(query) => final(self).current_tab == old(self).current_tab && settings_unchanged(old(self), final(self)) && system_unchanged(
                    old(self),
                    final(self),
                ) && final(self).flatpak_search_query == query && final(self).flatpak_search_results
                    == old(self).flatpak_search_results && final(self).installed_flatpaks == old(self).installed_flatpaks && final(self).searching_flatpaks == old(self).searching_flatpaks && final(self).flatpak_status == old(self).flatpak_status
                    && action is Idle,
                UpdaterMessage::SearchFlatpaks => final(self).current_tab == old(self).current_tab
                    && settings_unchanged(old(self), final(self)) && system_unchanged(
                    old(self),
                    final(self),
                ) && final(self).flatpak_search_query == old(self).flatpak_search_query && final(self).flatpak_search_results == old(self).flatpak_search_results && final(self).installed_flatpaks == old(self).installed_flatpaks && (
                if old(self).flatpak_search_query@.len() == 0 {
                    final(self).searching_flatpaks == old(self).searching_flatpaks && final(self).flatpak_status@ == msg_text(old(self), "fp.status.type_query"@)
                        && action is Idle
                } else {
                    final(self).searching_flatpaks && final(self).flatpak_status@ == msg_text(
                        old(self),
                        "fp.status.searching"@,
                    ) && (action matches UpdaterAction::SearchFlatpaks(q) && q@ == old(self).flatpak_search_query@)
                }),
                UpdaterMessage::FlatpaksFound(result) => final(self).current_tab == old(self).current_tab && settings_unchanged(old(self), final(self)) && system_unchanged(
                    old(self),
                    final(self),
                ) && final(self).flatpak_search_query == old(self).flatpak_search_query && final(self).installed_flatpaks == old(self).installed_flatpaks && !final(self).searching_flatpaks && action is Idle && (match result {
                    Ok(apps) => final(self).flatpak_search_results == apps && final(self).flatpak_status@ == substituted(
                        msg_text(old(self), "fp.status.results"@),
                        seq![("n"@, dec_str(apps@.len() as int))],
                    ),
                    Err(e) => final(self).flatpak_search_results == old(self).flatpak_search_results && final(self).flatpak_status@ == msg_text(
                        old(self),
                        "fp.status.search_error"@,
                    ) + ": "@ + e@,
                }),
                UpdaterMessage::InstallFlatpak(appid) => final(self).current_tab == old(self).current_tab && settings_unchanged(old(self), final(self)) && system_unchanged(
                    old(self),
                    final(self),
                ) && final(self).flatpak_search_query == old(self).flatpak_search_query && final(self).flatpak_search_results == old(self).flatpak_search_results && final(self).installed_flatpaks == old(self).installed_flatpaks && final(self).searching_flatpaks && final(self).flatpak_status@ == msg_text(
                    old(self),
                    "fp.status.installing"@,
                ) && (action matches UpdaterAction::InstallFlatpak(a) && a@ == appid@),
                UpdaterMessage::FlatpakInstalled(result) => final(self).current_tab == old(self).current_tab && settings_unchanged(old(self), final(self)) && system_unchanged(
                    old(self),
                    final(self),
                ) && final(self).flatpak_search_query == old(self).flatpak_search_query && final(self).flatpak_search_results == old(self).flatpak_search_results && final(self).installed_flatpaks == old(self).installed_flatpaks && !final(self).searching_flatpaks && action is Idle && (match result {
                    Ok(_) => final(self).flatpak_status@ == msg_text(
                        old(self),
                        "fp.status.installed"@,
                    ),
                    Err(e) => final(self).flatpak_status@ == msg_text(
                        old(self),
                        "fp.status.install_failed"@,
                    ) + ": "@ + e@,
                }),
                UpdaterMessage::ListInstalledFlatpaks => final(self).current_tab == old(self).current_tab && settings_unchanged(old(self), final(self)) && system_unchanged(
                    old(self),
                    final(self),
                ) && final(self).flatpak_search_query == old(self).flatpak_search_query && final(self).flatpak_search_results == old(self).flatpak_search_results && final(self).installed_flatpaks == old(self).installed_flatpaks && final(self).searching_flatpaks == old(self).searching_flatpaks && final(self).flatpak_status@ == msg_text(old(self), "fp.status.loading_installed"@)
                    && action is ListInstalled,
                UpdaterMessage::InstalledLoaded(result) => final(self).current_tab == old(self).current_tab && settings_unchanged(old(self), final(self)) && system_unchanged(
                    old(self),
                    final(self),
                ) && final(self).flatpak_search_query == old(self).flatpak_search_query && final(self).flatpak_search_results == old(self).flatpak_search_results && final(self).searching_flatpaks == old(self).searching_flatpaks && action is Idle && (
                match result {
                    Ok(apps) => final(self).installed_flatpaks == apps && final(self).flatpak_status@.len() == 0,
                    Err(e) => final(self).installed_flatpaks == old(self).installed_flatpaks
                        && final(self).flatpak_status@ == "Error: "@ + e@,
                }),
                UpdaterMessage::LanguageChanged(lang) => final(self).current_tab == old(self).current_tab && system_unchanged(old(self), final(self)) && flatpak_unchanged(
                    old(self),
                    final(self),
                ) && final(self).config.language == lang && final(self).config.theme == old(self).config.theme && final(self).config.categories == old(self).config.categories
                    && final(self).i18n.language@ == normalized_lang(lang@) && final(self).i18n.tables == old(self).i18n.tables && final(self).available_languages == old(self).available_languages && action is SaveConfig,
                UpdaterMessage::ThemeChanged(theme) => final(self).current_tab == old(self).current_tab && system_unchanged(old(self), final(self)) && flatpak_unchanged(
                    old(self),
                    final(self),
                ) && final(self).config.theme == theme && final(self).config.language == old(self).config.language && final(self).config.categories == old(self).config.categories
                    && final(self).i18n == old(self).i18n && final(self).available_languages == old(self).available_languages && action is SaveConfig,
            },
    {
        match msg {
            UpdaterMessage::TabChanged(tab) => {
                self.current_tab = tab;
                match tab {
                    Tab::System => {
                        self.system_status = self.i18n.t("sys.status.checking");
                        self.checking_updates = true;
                        UpdaterAction::CheckForUpdates
                    },
                    Tab::Flatpak => {
                        self.flatpak_status = self.i18n.t("fp.status.loading_installed");
                        UpdaterAction::ListInstalled
                    },
                    Tab::Settings => UpdaterAction::Idle,
                }
            },
            UpdaterMessage::CheckUpdates => {
                self.checking_updates = true;
                self.system_status = self.i18n.t("sys.status.checking");
                UpdaterAction::CheckForUpdates
            },
            UpdaterMessage::UpdatesChecked(result) => {
                self.checking_updates = false;
                match result {
                    Ok(updates) => {
                        let count = updates.len();
                        self.available_updates = updates;
                        if count > 0 {
                            let mut args: Vec<(String, String)> = Vec::new();
                            args.push(("n".to_owned(), usize_to_string(count)));
                            proof {
                                assert(args.deep_view() =~= seq![
                                    ("n"@, dec_str(count as int)),
                                ]);
                            }
                            self.system_status = self.i18n.t_with_args("sys.status.found", &args);
                        } else {
                            self.system_status = self.i18n.t("sys.status.updated");
                        }
                    },
                    Err(e) => {
                        let mut status = self.i18n.t("sys.status.check_error");
                        status.append(": ");
                        status.append(e.as_str());
                        self.system_status = status;
                    },
                }
                UpdaterAction::Idle
            },
            UpdaterMessage::UpdateSystem => {
                self.system_status = self.i18n.t("sys.status.updating");
                self.checking_updates = true;
                UpdaterAction::UpdateSystem
            },
            UpdaterMessage::SystemUpdated(result) => {
                self.checking_updates = false;
                match result {
                    Ok(_) => {
                        self.system_status = self.i18n.t("sys.status.updated");
                        self.available_updates = Vec::new();
                    },
                    Err(e) => {
                        let mut status = self.i18n.t("sys.status.update_failed");
                        status.append(": ");
                        status.append(e.as_str());
                        self.system_status = status;
                    },
                }
                UpdaterAction::Idle
            },
            UpdaterMessage::SearchQueryChanged(query) => {
                self.flatpak_search_query = query;
                UpdaterAction::Idle
            },
            UpdaterMessage::SearchFlatpaks => {
                if self.flatpak_search_query.as_str().is_empty() {
                    self.flatpak_status = self.i18n.t("fp.status.type_query");
                    return UpdaterAction::Idle;
                }
                self.searching_flatpaks = true;
                self.flatpak_status = self.i18n.t("fp.status.searching");
                UpdaterAction::SearchFlatpaks(self.flatpak_search_query.clone())
            },
            UpdaterMessage::FlatpaksFound(result) => {
                self.searching_flatpaks = false;
                match result {
                    Ok(apps) => {
                        let count = apps.len();
                        self.flatpak_search_results = apps;
                        let mut args: Vec<(String, String)> = Vec::new();
                        args.push(("n".to_owned(), usize_to_string(count)));
                        proof {
                            assert(args.deep_view() =~= seq![("n"@, dec_str(count as int))]);
                        }
                        self.flatpak_status = self.i18n.t_with_args("fp.status.results", &args);
                    },
                    Err(e) => {
                        let mut status = self.i18n.t("fp.status.search_error");
                        status.append(": ");
                        status.append(e.as_str());
                        self.flatpak_status = status;
                    },
                }
                UpdaterAction::Idle
            },
            UpdaterMessage::InstallFlatpak(appid) => {
                self.flatpak_status = self.i18n.t("fp.status.installing");
                self.searching_flatpaks = true;
                UpdaterAction::InstallFlatpak(appid)
            },
            UpdaterMessage::FlatpakInstalled(result) => {
                self.searching_flatpaks = false;
                match result {
                    Ok(_) => {
                        self.flatpak_status = self.i18n.t("fp.status.installed");
                    },
                    Err(e) => {
                        let mut status = self.i18n.t("fp.status.install_failed");
                        status.append(": ");
                        status.append(e.as_str());
                        self.flatpak_status = status;
                    },
                }
                UpdaterAction::Idle
            },
            UpdaterMessage::ListInstalledFlatpaks => {
                self.flatpak_status = self.i18n.t("fp.status.loading_installed");
                UpdaterAction::ListInstalled
            },
            UpdaterMessage::InstalledLoaded(result) => {
                match result {
                    Ok(apps) => {
                        self.installed_flatpaks = apps;
                        self.flatpak_status = String::new();
                    },
                    Err(e) => {
                        let mut status = "Error: ".to_owned();
                        status.append(e.as_str());
                        self.flatpak_status = status;
                    },
                }
                UpdaterAction::Idle
            },
            UpdaterMessage::LanguageChanged(lang) => {
                self.config.language = lang;
                self.i18n.set_language(self.config.language.as_str());
                UpdaterAction::SaveConfig
            },
            UpdaterMessage::ThemeChanged(theme) => {
                self.config.theme = theme;
                UpdaterAction::SaveConfig
            },
        }
    }
}

} // verus!
