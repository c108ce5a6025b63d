use kovaaks_rpc::local_scores::LoadAction;
use kovaaks_rpc::online::{
    cache_is_fresh, cache_path, encode_search_term, is_listed, load_cache, lock_path, page_query,
    raw_page_file_name, sanitize_username, save_cache, CacheData, OnlineScoreAPI, SearchResponse,
    CACHE_TTL_SECONDS, PAGE_TIMEOUT_SECS, SEARCH_TIMEOUT_SECS,
};
use kovaaks_rpc::sync::{FetchAction, SyncError};
use kovaaks_rpc::table::NameMap;

const DAY: i64 = 86400;

fn scores(entries: &[(&str, i64)]) -> NameMap<i64> {
    let mut m = NameMap::new();
    for (name, score) in entries {
        m.insert(name, *score);
    }
    m
}

fn api_with(entries: &[(&str, i64)]) -> OnlineScoreAPI {
    let mut api = OnlineScoreAPI::new();
    api.save_local_scores(scores(entries));
    api
}

#[test]
fn cache_entry_is_fresh_for_less_than_seven_days() {
    let now = 1_700_000_000;
    assert_eq!(CACHE_TTL_SECONDS, 7 * DAY);
    assert!(cache_is_fresh(now, now));
    assert!(cache_is_fresh(now - 7 * DAY + 1, now));
    assert!(!cache_is_fresh(now - 7 * DAY, now));
    assert!(!cache_is_fresh(now - 8 * DAY, now));
    assert!(cache_is_fresh(now + 100, now));
    assert!(!cache_is_fresh(i64::MIN, i64::MAX));
    assert!(cache_is_fresh(i64::MAX, i64::MIN));
}

#[test]
fn cache_entry_of_eight_days_ago_is_a_miss() {
    let now = 1_700_000_000;
    let stale = CacheData { fetched_at: now - 8 * DAY, scores: scores(&[("Gridshot", 1000)]) };
    assert!(load_cache(Some(stale), now).is_none());
    let fresh = CacheData { fetched_at: now - 6 * DAY, scores: scores(&[("Gridshot", 1000)]) };
    let hit = load_cache(Some(fresh), now).unwrap();
    assert_eq!(hit.get("Gridshot"), Some(&1000));
    assert!(load_cache(None, now).is_none());
}

#[test]
fn save_cache_stamps_the_scores() {
    let data = save_cache(scores(&[("Gridshot", 1000)]), 1234);
    assert_eq!(data.fetched_at, 1234);
    assert_eq!(data.scores.get("Gridshot"), Some(&1000));
}

#[test]
fn cache_file_names_hold_no_separator() {
    assert_eq!(sanitize_username("a/b\\c"), "a_b_c");
    assert_eq!(cache_path("player"), "player_scores.json");
    assert_eq!(cache_path("../x"), ".._x_scores.json");
    assert_eq!(lock_path("play/er"), "play_er_scores.lock");
}

#[test]
fn new_api_points_at_the_service_and_holds_nothing() {
    let api = OnlineScoreAPI::new();
    assert_eq!(api.base_url(), "https://kovaaks.com/webapp-backend");
    assert!(api.local_scores().is_empty());
}

#[test]
fn availability_goes_by_snapshot_then_fetch() {
    let api = api_with(&[("Gridshot", 1000)]);
    let fetched = scores(&[("Pasu", 5)]);
    assert!(api.is_scenario_available_online("user", "Gridshot", None));
    assert!(!api.is_scenario_available_online("user", "Pasu", None));
    assert!(api.is_scenario_available_online("user", "Pasu", Some(&fetched)));
    assert!(!api.is_scenario_available_online("user", "Tile Frenzy", Some(&fetched)));
    assert!(!api.is_scenario_available_online("", "Gridshot", Some(&fetched)));
    assert!(!api.is_scenario_available_online("user", "", Some(&fetched)));
}

#[test]
fn fetch_is_needed_only_where_the_snapshot_is_silent() {
    let api = api_with(&[("Gridshot", 1000)]);
    assert!(!api.needs_fetch("user", "Gridshot"));
    assert!(api.needs_fetch("user", "Pasu"));
    assert!(!api.needs_fetch("", "Pasu"));
    assert!(!api.needs_fetch("user", ""));
}

#[test]
fn online_score_goes_by_snapshot_then_fetch() {
    let api = api_with(&[("Gridshot", 1000)]);
    let fetched = scores(&[("Pasu", 5), ("Gridshot", 7)]);
    assert_eq!(api.get_online_score("user", "Gridshot", Some(&fetched)), Some(1000));
    assert_eq!(api.get_online_score("user", "Pasu", Some(&fetched)), Some(5));
    assert_eq!(api.get_online_score("user", "Pasu", None), None);
    assert_eq!(api.get_online_score("", "Gridshot", None), None);
    assert_eq!(api.get_online_score("user", "", None), None);
}

#[test]
fn update_local_score_raises_only() {
    let mut api = api_with(&[("Gridshot", 1000)]);
    assert!(!api.update_local_score("Gridshot", 1000));
    assert!(!api.update_local_score("Gridshot", 999));
    assert!(api.update_local_score("Gridshot", 1001));
    assert_eq!(api.local_scores().get("Gridshot"), Some(&1001));
    assert!(!api.update_local_score("Pasu", 0));
    assert!(!api.update_local_score("Pasu", -4));
    assert!(!api.local_scores().contains_key("Pasu"));
    assert!(api.update_local_score("Pasu", 1));
    assert_eq!(api.local_scores().get("Pasu"), Some(&1));
}

#[test]
fn load_local_scores_sets_a_corrupt_file_aside() {
    let mut api = api_with(&[("Gridshot", 1000)]);
    assert_eq!(api.load_local_scores(true, Some(scores(&[("Pasu", 1)]))), LoadAction::Keep);
    assert_eq!(api.local_scores().len(), 1);
    assert_eq!(api.local_scores().get("Pasu"), Some(&1));
    assert_eq!(api.load_local_scores(true, None), LoadAction::SetAside);
    assert!(api.local_scores().is_empty());
    api.save_local_scores(scores(&[("Pasu", 1)]));
    assert_eq!(api.load_local_scores(false, None), LoadAction::Keep);
    assert!(api.local_scores().is_empty());
}

#[test]
fn search_url_holds_the_lowercased_name_with_plus_signs() {
    let api = OnlineScoreAPI::new();
    assert_eq!(
        api.popular_search_url("Tile Frenzy 180"),
        "https://kovaaks.com/webapp-backend/scenario/popular?page=0&max=5&scenarioNameSearch=tile+frenzy+180"
    );
    assert_eq!(encode_search_term("a b  c"), "a+b++c");
}

#[test]
fn search_matches_names_without_regard_to_case() {
    let names = vec!["GRIDSHOT ultimate".to_string(), "Gridshot".to_string()];
    assert!(is_listed("gridshot", &names));
    assert!(is_listed("Gridshot Ultimate", &names));
    assert!(!is_listed("Gridsho", &names));
    assert!(!is_listed("Gridshot", &Vec::new()));
}

#[test]
fn search_result_tells_failure_from_absence() {
    let api = OnlineScoreAPI::new();
    let listing = SearchResponse::Listing(vec!["Gridshot".to_string()]);
    assert_eq!(api.search_scenario_popular("gridshot", &listing), Some(true));
    assert_eq!(api.search_scenario_popular("Pasu", &listing), Some(false));
    assert_eq!(api.search_scenario_popular("Pasu", &SearchResponse::Unusable), Some(false));
    assert_eq!(api.search_scenario_popular("Pasu", &SearchResponse::TransportFailed), None);
    assert_eq!(api.search_scenario_popular("", &SearchResponse::TransportFailed), Some(false));
    assert_eq!(api.search_scenario_popular("", &listing), Some(false));
}

#[test]
fn sync_needs_a_user_name() {
    let api = OnlineScoreAPI::new();
    assert!(matches!(api.sync_online_scores_once(""), Err(SyncError::EmptyUsername)));
    let sync = api.sync_online_scores_once("user").ok().unwrap();
    assert_eq!(sync.next_page(), 0);
}

#[test]
fn fetch_without_a_user_name_is_over_at_once() {
    let api = OnlineScoreAPI::new();
    let (_, action) = api.fetch_user_scenario_scores("");
    match action {
        FetchAction::Finish { result, store, release_lock } => {
            assert!(result.ok().unwrap().is_empty());
            assert!(!store);
            assert!(!release_lock);
        }
        _ => panic!("the fetch goes on"),
    }
    let (_, action) = api.fetch_user_scenario_scores("user");
    assert!(matches!(action, FetchAction::LoadCache));
}

#[test]
fn page_request_names_user_page_size_and_order() {
    let query: Vec<(String, String)> =
        page_query("some user", 7).into_iter().map(|p| (p.name, p.value)).collect();
    let expected = [("username", "some user"), ("page", "7"), ("max", "100"), ("sort_param[]", "count")];
    assert_eq!(query.len(), expected.len());
    for (got, want) in query.iter().zip(expected.iter()) {
        assert_eq!((got.0.as_str(), got.1.as_str()), *want);
    }
    assert_eq!(page_query("u", 0)[1].value, "0");
    assert_eq!(page_query("u", 19)[1].value, "19");
    assert_eq!(page_query("u", u32::MAX)[1].value, "4294967295");
}

#[test]
fn listing_is_asked_at_the_total_play_address() {
    let api = OnlineScoreAPI::new();
    assert_eq!(api.listing_url(), "https://kovaaks.com/webapp-backend/user/scenario/total-play");
    assert_eq!((PAGE_TIMEOUT_SECS, SEARCH_TIMEOUT_SECS), (30, 10));
}

#[test]
fn raw_answers_are_kept_per_user_and_page() {
    assert_eq!(raw_page_file_name("player", 0), "player_page_0.json");
    assert_eq!(raw_page_file_name("player", 12), "player_page_12.json");
}
