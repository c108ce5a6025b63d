use kovaaks_rpc::settings::{initialize_installation_path, Settings, SettingsForm};

#[test]
fn default_settings_are_those_of_a_fresh_installation() {
    let s = Settings::default();
    assert_eq!(s.installation_path, "");
    assert_eq!(s.steam_path, r"C:\Program Files (x86)\Steam\steam.exe");
    assert_eq!(s.webapp_username, "");
    assert!(!s.open_manually && !s.start_with_windows && !s.show_online_scores);
    assert!(!s.start_in_tray && !s.online_only_scenarios && !s.online_scores_synced);
    assert_eq!(s.last_sync_time, 0);
}

#[test]
fn installation_path_is_filled_in_only_where_it_is_missing() {
    let mut s = Settings::default();
    assert!(!initialize_installation_path(&mut s, None));
    assert_eq!(s.installation_path, "");
    assert!(initialize_installation_path(&mut s, Some("D:/Games/Kovaak".to_string())));
    assert_eq!(s.installation_path, "D:/Games/Kovaak");
    assert!(!initialize_installation_path(&mut s, Some("E:/Other".to_string())));
    assert_eq!(s.installation_path, "D:/Games/Kovaak");
}

#[test]
fn form_and_settings_go_back_and_forth() {
    let mut s = Settings::default();
    s.installation_path = "D:/Games".to_string();
    s.webapp_username = "user".to_string();
    s.online_only_scenarios = true;
    s.start_in_tray = true;
    s.last_sync_time = 55;
    let same = SettingsForm::from(&s);
    assert_eq!(same.webapp_username, "user");
    assert!(same.online_only_scenarios && same.start_in_tray);
    let form = SettingsForm::from_settings(&s);
    assert_eq!(form.installation_path, "D:/Games");
    assert!(form.online_only_scenarios && form.start_in_tray && !form.open_manually);
    let back = form.to_settings(77);
    assert_eq!(back.installation_path, "D:/Games");
    assert_eq!(back.steam_path, s.steam_path);
    assert_eq!(back.webapp_username, "user");
    assert!(back.online_only_scenarios && back.start_in_tray);
    assert!(!back.open_manually && !back.start_with_windows && !back.show_online_scores);
    assert!(!back.online_scores_synced);
    assert_eq!(back.last_sync_time, 77);
}

#[test]
fn sync_mark_is_set_and_taken_away() {
    let mut s = Settings::default();
    s.mark_synced(1234);
    assert!(s.online_scores_synced);
    assert_eq!(s.last_sync_time, 1234);
    s.reset_sync_flag();
    assert!(!s.online_scores_synced);
    assert_eq!(s.last_sync_time, 1234);
    let copy = s.clone();
    assert_eq!(copy.last_sync_time, 1234);
    assert_eq!(copy.steam_path, s.steam_path);
}
