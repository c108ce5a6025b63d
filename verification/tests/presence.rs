use kovaaks_rpc::presence::{encode_link_name, format_score, update_presence, CLIENT_ID};

#[test]
fn score_is_shown_with_one_decimal_place() {
    assert_eq!(format_score(1235), "123.5");
    assert_eq!(format_score(0), "0.0");
    assert_eq!(format_score(5), "0.5");
    assert_eq!(format_score(10), "1.0");
    assert_eq!(format_score(-5), "-0.5");
    assert_eq!(format_score(-1235), "-123.5");
    assert_eq!(format_score(100000), "10000.0");
    assert_eq!(format_score(i64::MAX), "922337203685477580.7");
    assert_eq!(format_score(i64::MIN), "-922337203685477580.8");
    for v in [0.0f64, 0.5, 12.3, 999.9, -7.1] {
        assert_eq!(format_score((v * 10.0).round() as i64), format!("{:.1}", v));
    }
}

#[test]
fn link_name_escapes_spaces_and_ampersands() {
    assert_eq!(encode_link_name("Tile Frenzy & Co"), "Tile%20Frenzy%20%26%20Co");
    assert_eq!(encode_link_name("Gridshot"), "Gridshot");
    assert_eq!(encode_link_name(""), "");
    assert_eq!(encode_link_name("50%"), "50%");
}

#[test]
fn presence_links_into_the_scenario() {
    let p = update_presence(true, "Tile Frenzy", Some(1700), 1235, 0, None).unwrap();
    assert_eq!(p.details, "Playing: Tile Frenzy");
    assert_eq!(p.state, "Highscore: 123.5");
    assert_eq!(p.image, "kovaak_image");
    assert_eq!(p.image_text, "No session plays yet");
    assert_eq!(p.start_time, Some(1700));
    assert_eq!(p.button_label, "Play Scenario");
    assert_eq!(p.button_url, "steam://run/824270/?action=jump-to-scenario;name=Tile%20Frenzy");
}

#[test]
fn presence_links_into_the_playlist_where_a_share_code_is_known() {
    let p = update_presence(true, "Tile Frenzy", None, 1235, 999, Some("KovaaKsABC")).unwrap();
    assert_eq!(p.image_text, "Session Best: 99.9");
    assert_eq!(p.start_time, None);
    assert_eq!(p.button_label, "Play Playlist");
    assert_eq!(p.button_url, "steam://run/824270/?action=jump-to-playlist;sharecode=KovaaKsABC");
}

#[test]
fn presence_is_not_sent_without_connection_or_scenario() {
    assert!(update_presence(false, "Gridshot", None, 1, 1, None).is_none());
    assert!(update_presence(true, "", None, 1, 1, None).is_none());
    assert!(update_presence(true, "Unknown Scenario", None, 1, 1, None).is_none());
    assert!(update_presence(true, "Unknown Scenario ", None, 1, 1, None).is_some());
}

#[test]
fn presence_goes_out_under_the_application_of_the_tracker() {
    assert_eq!(CLIENT_ID, "1321990331083784202");
}
