use kovaaks_rpc::game::{
    extract_scenario_name, find_subsequence, get_playlist_share_code, is_kovaaks_process,
    is_kovaaks_running,
};

fn save(parts: &[&[u8]]) -> Vec<u8> {
    let mut data = Vec::new();
    for p in parts {
        data.extend_from_slice(p);
    }
    data
}

#[test]
fn find_subsequence_gives_the_leftmost_place() {
    assert_eq!(find_subsequence(b"abcabc", b"bc"), Some(1));
    assert_eq!(find_subsequence(b"abcabc", b"abcabc"), Some(0));
    assert_eq!(find_subsequence(b"abcabc", b"cab"), Some(2));
    assert_eq!(find_subsequence(b"abcabc", b"x"), None);
    assert_eq!(find_subsequence(b"ab", b"abc"), None);
    assert_eq!(find_subsequence(b"", b"a"), None);
}

#[test]
fn scenario_is_the_printable_run_before_the_marker() {
    let data = save(&[&[0, 1, 2], b"Gridshot Ultimate", &[0, 0, 5, 0], b"FullScenarioPath", &[0, 9]]);
    assert_eq!(extract_scenario_name(&data), "Gridshot Ultimate");
}

#[test]
fn second_marker_is_used_where_the_first_is_missing() {
    let data = save(&[&[0, 200], b"Tile Frenzy", &[0], b"LastEditProfile", &[0]]);
    assert_eq!(extract_scenario_name(&data), "Tile Frenzy");
    let data = save(&[&[0], b"A", &[0], b"LastEditProfile", &[0], b"B", &[0], b"FullScenarioPath"]);
    assert_eq!(extract_scenario_name(&data), "B");
}

#[test]
fn scenario_is_unknown_without_marker_or_name() {
    assert_eq!(extract_scenario_name(b""), "Unknown Scenario");
    assert_eq!(extract_scenario_name(b"no marker in here"), "Unknown Scenario");
    assert_eq!(extract_scenario_name(b"FullScenarioPath"), "Unknown Scenario");
    let data = save(&[&[0, 1, 2, 3], b"FullScenarioPath"]);
    assert_eq!(extract_scenario_name(&data), "Unknown Scenario");
}

#[test]
fn scenario_never_holds_the_first_byte_of_the_data() {
    let data = save(&[b"Gridshot", &[0], b"FullScenarioPath"]);
    assert_eq!(extract_scenario_name(&data), "ridshot");
    let data = save(&[b"G", &[0], b"FullScenarioPath"]);
    assert_eq!(extract_scenario_name(&data), "Unknown Scenario");
}

#[test]
fn scenario_runs_up_to_the_marker_where_nothing_separates_them() {
    let data = save(&[&[0], b"Gridshot", b"FullScenarioPath"]);
    assert_eq!(extract_scenario_name(&data), "Gridshot");
}

#[test]
fn share_code_stands_between_the_key_and_the_next_quote() {
    let text = "{\n  \"playlistName\": \"x\",\n  \"shareCode\": \"KovaaKsABC123\",\n  \"n\": 1\n}";
    assert_eq!(get_playlist_share_code(text), Some("KovaaKsABC123".to_string()));
    assert_eq!(get_playlist_share_code("\"shareCode\": \"\""), Some(String::new()));
    assert_eq!(get_playlist_share_code("\"shareCode\": \"a\" \"shareCode\": \"b\""), Some("a".to_string()));
}

#[test]
fn share_code_is_absent_without_key_or_closing_quote() {
    assert_eq!(get_playlist_share_code(""), None);
    assert_eq!(get_playlist_share_code("\"shareCode\":\"abc\""), None);
    assert_eq!(get_playlist_share_code("\"shareCode\": \"abc"), None);
    assert_eq!(get_playlist_share_code("\"sharecode\": \"abc\""), None);
}

#[test]
fn game_process_is_told_by_its_lowercased_name() {
    assert!(is_kovaaks_process("fpsaimtrainer.exe"));
    assert!(is_kovaaks_process("fpsaimtrainer-win64-shipping.exe"));
    assert!(!is_kovaaks_process("FPSAimTrainer.exe"));
    assert!(!is_kovaaks_process("fpsaimtrainer-discord.exe"));
    assert!(!is_kovaaks_process("fpsaimtrainer_rpc"));
    assert!(!is_kovaaks_process("explorer.exe"));
    assert!(!is_kovaaks_process(""));
}

#[test]
fn game_runs_where_one_process_is_the_game() {
    let names = |v: &[&str]| v.iter().map(|s| s.to_string()).collect::<Vec<String>>();
    assert!(is_kovaaks_running(&names(&["explorer.exe", "FPSAimTrainer-Win64-Shipping.exe"])));
    assert!(is_kovaaks_running(&names(&["FPSAIMTRAINER"])));
    assert!(!is_kovaaks_running(&names(&["explorer.exe", "FPSAimTrainer-Discord-RPC.exe"])));
    assert!(!is_kovaaks_running(&names(&[])));
}
