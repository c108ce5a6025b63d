//! The settings of the program and the form in which they are edited.

use vstd::prelude::*;

verus! {

/// The settings as they are persisted.
#[derive(Debug)]
pub struct Settings {
    pub installation_path: String,
    pub steam_path: String,
    pub open_manually: bool,
    pub start_with_windows: bool,
    pub webapp_username: String,
    pub show_online_scores: bool,
    pub start_in_tray: bool,
    pub online_only_scenarios: bool,
    pub online_scores_synced: bool,
    pub last_sync_time: u64,
}

/// `Settings` as a mathematical value.
pub ghost struct SettingsView {
    pub installation_path: Seq<char>,
    pub steam_path: Seq<char>,
    pub open_manually: bool,
    pub start_with_windows: bool,
    pub webapp_username: Seq<char>,
    pub show_online_scores: bool,
    pub start_in_tray: bool,
    pub online_only_scenarios: bool,
    pub online_scores_synced: bool,
    pub last_sync_time: u64,
}

impl View for Settings {
    type V = SettingsView;

    open spec fn view(&self) -> SettingsView {
        SettingsView {
            installation_path: self.installation_path@,
            steam_path: self.steam_path@,
            open_manually: self.open_manually,
            start_with_windows: self.start_with_windows,
            webapp_username: self.webapp_username@,
            show_online_scores: self.show_online_scores,
            start_in_tray: self.start_in_tray,
            online_only_scenarios: self.online_only_scenarios,
            online_scores_synced: self.online_scores_synced,
            last_sync_time: self.last_sync_time,
        }
    }
}

/// The settings of a fresh installation.
pub open spec fn default_settings() -> SettingsView {
    SettingsView {
        installation_path: Seq::<char>::empty(),
        steam_path: "C:\\Program Files (x86)\\Steam\\steam.exe"@,
        open_manually: false,
        start_with_windows: false,
        webapp_username: Seq::<char>::empty(),
        show_online_scores: false,
        start_in_tray: false,
        online_only_scenarios: false,
        online_scores_synced: false,
        last_sync_time: 0,
    }
}

impl Default for Settings {
    fn default() -> (r: Self)
        ensures
            r@ == default_settings(),
    {
        Settings {
            installation_path: String::new(),
            steam_path: "C:\\Program Files (x86)\\Steam\\steam.exe".to_owned(),
            open_manually: false,
            start_with_windows: false,
            webapp_username: String::new(),
            show_online_scores: false,
            start_in_tray: false,
            online_only_scenarios: false,
            online_scores_synced: false,
            last_sync_time: 0,
        }
    }
}

impl Clone for Settings {
    fn clone(&self) -> (r: Self)
        ensures
            r@ == self@,
    {
        Settings {
            installation_path: self.installation_path.clone(),
            steam_path: self.steam_path.clone(),
            open_manually: self.open_manually,
            start_with_windows: self.start_with_windows,
            webapp_username: self.webapp_username.clone(),
            show_online_scores: self.show_online_scores,
            start_in_tray: self.start_in_tray,
            online_only_scenarios: self.online_only_scenarios,
            online_scores_synced: self.online_scores_synced,
            last_sync_time: self.last_sync_time,
        }
    }
}

/// The settings after an online sync that succeeded at `now`, in seconds
/// since the Unix epoch.
pub open spec fn synced_at(settings: SettingsView, now: u64) -> SettingsView {
    SettingsView { online_scores_synced: true, last_sync_time: now, ..settings }
}

/// The settings with the mark of a sync taken away.
pub open spec fn unsynced(settings: SettingsView) -> SettingsView {
    SettingsView { online_scores_synced: false, ..settings }
}

impl Settings {
    /// Marks the online scores as synced at `now`.
    pub fn mark_synced(&mut self, now: u64)
        ensures
            final(self)@ == synced_at(old(self)@, now),
    {
        self.online_scores_synced = true;
        self.last_sync_time = now;
    }

    /// Takes the mark of a sync away, so that the admission filter is
    /// permissive again.
    pub fn reset_sync_flag(&mut self)
        ensures
            final(self)@ == unsynced(old(self)@),
    {
        self.online_scores_synced = false;
    }
}

/// The settings with another installation path.
pub open spec fn with_installation_path(settings: SettingsView, path: Seq<char>) -> SettingsView {
    SettingsView { installation_path: path, ..settings }
}

/// Fills in the installation path where the settings hold none and one was
/// detected, and says whether the settings changed and are to be saved.
pub fn initialize_installation_path(settings: &mut Settings, detected: Option<String>) -> (changed: bool)
    ensures
        changed == (old(settings).installation_path@.len() == 0 && detected is Some),
        changed ==> final(settings)@ == with_installation_path(old(settings)@, detected->0@),
        !changed ==> final(settings)@ == old(settings)@,
{
    if settings.installation_path.as_str().is_empty() {
        match detected {
            Some(path) => {
                settings.installation_path = path;
                true
            },
            None => false,
        }
    } else {
        false
    }
}

/// The settings as they stand in the settings form; the time of the last
/// sync is not edited there.
#[derive(Debug)]
pub struct SettingsForm {
    pub installation_path: String,
    pub steam_path: String,
    pub open_manually: bool,
    pub start_with_windows: bool,
    pub webapp_username: String,
    pub show_online_scores: bool,
    pub start_in_tray: bool,
    pub online_only_scenarios: bool,
    pub online_scores_synced: bool,
}

impl SettingsForm {
    /// The settings that the form stands for, with the given time of the
    /// last sync.
    pub open spec fn settings(&self, last_sync_time: u64) -> SettingsView {
        SettingsView {
            installation_path: self.installation_path@,
            steam_path: self.steam_path@,
            open_manually: self.open_manually,
            start_with_windows: self.start_with_windows,
            webapp_username: self.webapp_username@,
            show_online_scores: self.show_online_scores,
            start_in_tray: self.start_in_tray,
            online_only_scenarios: self.online_only_scenarios,
            online_scores_synced: self.online_scores_synced,
            last_sync_time,
        }
    }

    /// The form that holds what the settings hold.
    pub open spec fn of(settings: &Settings) -> SettingsForm {
        SettingsForm {
            installation_path: settings.installation_path,
            steam_path: settings.steam_path,
            open_manually: settings.open_manually,
            start_with_windows: settings.start_with_windows,
            webapp_username: settings.webapp_username,
            show_online_scores: settings.show_online_scores,
            start_in_tray: settings.start_in_tray,
            online_only_scenarios: settings.online_only_scenarios,
            online_scores_synced: settings.online_scores_synced,
        }
    }

    /// The form filled from the settings.
    pub fn from_settings(settings: &Settings) -> (r: Self)
        ensures
            r == SettingsForm::of(settings),
            r.settings(settings.last_sync_time) == settings@,
    {
        SettingsForm {
            installation_path: settings.installation_path.clone(),
            steam_path: settings.steam_path.clone(),
            open_manually: settings.open_manually,
            start_with_windows: settings.start_with_windows,
            webapp_username: settings.webapp_username.clone(),
            show_online_scores: settings.show_online_scores,
            start_in_tray: settings.start_in_tray,
            online_only_scenarios: settings.online_only_scenarios,
            online_scores_synced: settings.online_scores_synced,
        }
    }

    /// The settings that the form stands for, with the given time of the
    /// last sync.
    pub fn to_settings(&self, last_sync_time: u64) -> (r: Settings)
        ensures
            r@ == self.settings(last_sync_time),
    {
        Settings {
            installation_path: self.installation_path.clone(),
            steam_path: self.steam_path.clone(),
            open_manually: self.open_manually,
            start_with_windows: self.start_with_windows,
            webapp_username: self.webapp_username.clone(),
            show_online_scores: self.show_online_scores,
            start_in_tray: self.start_in_tray,
            online_only_scenarios: self.online_only_scenarios,
            online_scores_synced: self.online_scores_synced,
            last_sync_time,
        }
    }
}

impl<'a> From<&'a Settings> for SettingsForm {
    fn from(settings: &'a Settings) -> (r: SettingsForm) {
        SettingsForm::from_settings(settings)
    }
}

impl<'a> vstd::std_specs::convert::FromSpecImpl<&'a Settings> for SettingsForm {
    open spec fn obeys_from_spec() -> bool {
        true
    }

    open spec fn from_spec(settings: &'a Settings) -> SettingsForm {
        SettingsForm::of(settings)
    }
}

} // verus!
