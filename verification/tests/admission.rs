use kovaaks_rpc::admission::{admit_after_search, is_scenario_allowed, Admission};
use kovaaks_rpc::scenario_cache::ScenarioValidationCache;
use kovaaks_rpc::settings::Settings;
use kovaaks_rpc::table::NameMap;

fn settings(online_only: bool, synced: bool) -> Settings {
    let mut s = Settings::default();
    s.online_only_scenarios = online_only;
    s.online_scores_synced = synced;
    s.webapp_username = "user".to_string();
    s
}

fn online(names: &[&str]) -> NameMap<i64> {
    let mut m = NameMap::new();
    for n in names {
        m.insert(n, 1);
    }
    m
}

#[test]
fn everything_is_allowed_with_the_restriction_off() {
    let mut cache = ScenarioValidationCache::new();
    cache.insert("Gridshot", false);
    for synced in [false, true] {
        let r = is_scenario_allowed(&settings(false, synced), &mut cache, &online(&[]), "Gridshot");
        assert_eq!(r, (Admission::Allowed, false));
    }
    assert_eq!(cache.len(), 1);
}

#[test]
fn an_earlier_verdict_stands() {
    let mut cache = ScenarioValidationCache::new();
    cache.insert("Gridshot", false);
    cache.insert("Pasu", true);
    let s = settings(true, true);
    assert_eq!(is_scenario_allowed(&s, &mut cache, &online(&["Gridshot"]), "Gridshot"), (Admission::Denied, false));
    assert_eq!(is_scenario_allowed(&s, &mut cache, &online(&[]), "Pasu"), (Admission::Allowed, false));
    assert_eq!(is_scenario_allowed(&settings(true, false), &mut cache, &online(&[]), "Gridshot"), (Admission::Denied, false));
}

#[test]
fn a_scenario_among_the_online_scores_is_allowed_and_recorded() {
    let mut cache = ScenarioValidationCache::new();
    let r = is_scenario_allowed(&settings(true, true), &mut cache, &online(&["Gridshot"]), "Gridshot");
    assert_eq!(r, (Admission::Allowed, true));
    assert_eq!(cache.is_cached("Gridshot"), Some(true));
    let r = is_scenario_allowed(&settings(true, true), &mut cache, &online(&[]), "Gridshot");
    assert_eq!(r, (Admission::Allowed, false));
}

#[test]
fn anything_is_admitted_before_the_first_sync() {
    let mut cache = ScenarioValidationCache::new();
    for name in ["Gridshot", "Some Scenario Nobody Knows", ""] {
        let r = is_scenario_allowed(&settings(true, false), &mut cache, &online(&[]), name);
        assert_eq!(r, (Admission::Allowed, false));
    }
    assert!(cache.is_empty());
}

#[test]
fn after_a_sync_an_unknown_scenario_needs_a_search() {
    let mut cache = ScenarioValidationCache::new();
    let r = is_scenario_allowed(&settings(true, true), &mut cache, &online(&["Pasu"]), "Gridshot");
    assert_eq!(r, (Admission::AskOnline, false));
    assert!(cache.is_empty());
}

#[test]
fn the_verdict_of_a_search_is_recorded_for_good() {
    let mut cache = ScenarioValidationCache::new();
    assert!(!admit_after_search(&mut cache, "Gridshot", Some(false)));
    assert_eq!(cache.is_cached("Gridshot"), Some(false));
    assert!(admit_after_search(&mut cache, "Pasu", Some(true)));
    assert_eq!(cache.is_cached("Pasu"), Some(true));
    let r = is_scenario_allowed(&settings(true, true), &mut cache, &online(&[]), "Gridshot");
    assert_eq!(r, (Admission::Denied, false));
}

#[test]
fn a_search_that_did_not_get_through_admits_and_records_nothing() {
    let mut cache = ScenarioValidationCache::new();
    assert!(admit_after_search(&mut cache, "Gridshot", None));
    assert_eq!(cache.is_cached("Gridshot"), None);
    assert!(cache.is_empty());
}

#[test]
fn validation_cache_counts_and_replaces() {
    let mut cache = ScenarioValidationCache::new();
    assert!(cache.is_empty());
    assert_eq!(cache.len(), 0);
    cache.insert("Gridshot", true);
    cache.insert("Pasu", false);
    cache.insert("Gridshot", false);
    assert_eq!(cache.len(), 2);
    assert!(!cache.is_empty());
    assert_eq!(cache.is_cached("Gridshot"), Some(false));
    assert_eq!(cache.is_cached("gridshot"), None);
    assert_eq!(cache.entries().len(), 2);
}

#[test]
fn validation_cache_loads_what_the_file_holds() {
    let mut cache = ScenarioValidationCache::new();
    cache.insert("Gridshot", true);
    cache.load(None);
    assert_eq!(cache.is_cached("Gridshot"), Some(true));
    let mut stored = NameMap::new();
    stored.insert("Pasu", false);
    cache.load(Some(stored));
    assert_eq!(cache.is_cached("Gridshot"), None);
    assert_eq!(cache.is_cached("Pasu"), Some(false));
}
