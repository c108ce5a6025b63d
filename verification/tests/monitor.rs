use kovaaks_rpc::monitor::{
    Effect, Monitor, MonitorEvent, Request, Step, RETRY_MS, SYNC_BACKOFF_MS, TICK_MS,
};
use kovaaks_rpc::scanner::StatsFile;

fn log(name: &str, content: &str, time: i64) -> StatsFile {
    StatsFile {
        name: name.to_string(),
        content: Some(content.to_string()),
        created: Some(time),
        modified: Some(time),
    }
}

fn tick() -> MonitorEvent {
    MonitorEvent::Tick { rpc_running: true, sync_in_progress: false }
}

fn is_sleep(step: &Step, expected: u64) -> bool {
    matches!(step.request, Request::Sleep { ms } if ms == expected)
}

/// Drives one whole tick for the scenario with the given listing.
fn run_tick(m: &mut Monitor, now: i64, raw: &str, files: Vec<StatsFile>, cached: i64) -> Step {
    assert!(matches!(m.step(tick()).request, Request::DetectGame));
    assert!(matches!(m.step(MonitorEvent::Game { running: true, now }).request, Request::Connect));
    assert!(matches!(m.step(MonitorEvent::Connected(true)).request, Request::ReadScenario));
    let step = m.step(MonitorEvent::Scenario(Some(raw.to_string())));
    assert!(matches!(step.request, Request::Admit { .. }));
    let step = m.step(MonitorEvent::Admitted(true));
    assert!(matches!(step.request, Request::ListLogs { .. }));
    m.step(MonitorEvent::Logs { files, cached_highscore: cached })
}

#[test]
fn pauses_are_as_documented() {
    assert_eq!(TICK_MS, 10000);
    assert_eq!(SYNC_BACKOFF_MS, 1000);
    assert_eq!(RETRY_MS, 5000);
}

#[test]
fn new_monitor_holds_a_fresh_session() {
    let m = Monitor::new(77);
    let s = m.session();
    assert_eq!(s.current_scenario, "");
    assert_eq!((s.local_highscore, s.session_highscore), (0, 0));
    assert!(s.checked_files.is_empty());
    assert_eq!(s.session_start_time, 77);
    assert!(s.session_best_scores.is_empty());
    assert!(!s.kovaaks_was_running);
}

#[test]
fn monitor_stops_when_it_is_not_to_run() {
    let mut m = Monitor::new(0);
    let step = m.step(MonitorEvent::Tick { rpc_running: false, sync_in_progress: true });
    assert!(matches!(step.request, Request::Stop));
    assert!(step.effects.is_empty());
    assert!(matches!(m.step(tick()).request, Request::Stop));
}

#[test]
fn monitor_backs_off_while_a_sync_is_in_progress() {
    let mut m = Monitor::new(0);
    let step = m.step(MonitorEvent::Tick { rpc_running: true, sync_in_progress: true });
    assert!(is_sleep(&step, 1000));
    assert!(matches!(m.step(tick()).request, Request::DetectGame));
}

#[test]
fn game_start_resets_the_session() {
    let mut m = Monitor::new(1);
    run_tick(&mut m, 5, "Gridshot", vec![log("Gridshot - a.csv", "Score:,10", 1)], 0);
    run_tick(&mut m, 6, "Gridshot", vec![
        log("Gridshot - a.csv", "Score:,10", 1),
        log("Gridshot - b.csv", "Score:,20", 2),
    ], 0);
    assert_eq!(m.session().session_start_time, 5);
    assert_eq!(m.session().session_best_scores.get("Gridshot"), Some(&200));
    m.step(tick());
    let step = m.step(MonitorEvent::Game { running: false, now: 7 });
    assert!(is_sleep(&step, 10000));
    m.step(tick());
    let step = m.step(MonitorEvent::Game { running: true, now: 9 });
    assert!(matches!(step.request, Request::Connect));
    let s = m.session();
    assert_eq!(s.session_start_time, 9);
    assert!(s.session_best_scores.is_empty());
    assert!(s.checked_files.is_empty());
    assert!(s.kovaaks_was_running);
}

#[test]
fn game_stop_clears_the_presence_once() {
    let mut m = Monitor::new(1);
    run_tick(&mut m, 5, "Gridshot", vec![log("Gridshot - a.csv", "Score:,10", 1)], 0);
    m.step(tick());
    let step = m.step(MonitorEvent::Game { running: false, now: 7 });
    assert!(is_sleep(&step, 10000));
    assert_eq!(step.effects.len(), 2);
    assert!(matches!(step.effects[0], Effect::ClearPresence));
    match &step.effects[1] {
        Effect::ScenarioChanged { name, highscore, session_best } => {
            assert_eq!((name.as_str(), *highscore, *session_best), ("", 0, 0));
        }
        _ => panic!("no scenario change"),
    }
    let s = m.session();
    assert_eq!(s.current_scenario, "");
    assert_eq!((s.local_highscore, s.session_highscore), (0, 0));
    assert!(!s.kovaaks_was_running);
    m.step(tick());
    let step = m.step(MonitorEvent::Game { running: false, now: 8 });
    assert!(step.effects.is_empty());
    assert!(is_sleep(&step, 10000));
}

#[test]
fn tick_ends_early_where_a_step_fails() {
    let mut m = Monitor::new(1);
    m.step(tick());
    m.step(MonitorEvent::Game { running: true, now: 2 });
    assert!(is_sleep(&m.step(MonitorEvent::Connected(false)), 5000));
    for raw in [None, Some(""), Some("Unknown Scenario"), Some(" - Challenge")] {
        m.step(tick());
        m.step(MonitorEvent::Game { running: true, now: 2 });
        m.step(MonitorEvent::Connected(true));
        let step = m.step(MonitorEvent::Scenario(raw.map(|s| s.to_string())));
        assert!(is_sleep(&step, 5000));
        assert!(step.effects.is_empty());
    }
    m.step(tick());
    m.step(MonitorEvent::Game { running: true, now: 2 });
    m.step(MonitorEvent::Connected(true));
    m.step(MonitorEvent::Scenario(Some("Gridshot".to_string())));
    let step = m.step(MonitorEvent::Admitted(false));
    assert!(is_sleep(&step, 5000));
    assert!(step.effects.is_empty());
    assert_eq!(m.session().current_scenario, "");
}

#[test]
fn scenario_is_normalized_before_it_is_followed() {
    let mut m = Monitor::new(1);
    m.step(tick());
    m.step(MonitorEvent::Game { running: true, now: 2 });
    m.step(MonitorEvent::Connected(true));
    match m.step(MonitorEvent::Scenario(Some("Gridshot - Challenge".to_string()))).request {
        Request::Admit { scenario } => assert_eq!(scenario, "Gridshot"),
        _ => panic!("no admission asked"),
    }
    match m.step(MonitorEvent::Admitted(true)).request {
        Request::ListLogs { scenario } => assert_eq!(scenario, "Gridshot"),
        _ => panic!("no listing asked"),
    }
}

#[test]
fn switch_takes_the_baseline_of_the_logs() {
    let mut m = Monitor::new(1);
    let files = vec![
        log("Gridshot - a.csv", "Score:,123.45", 1),
        log("Gridshot - b.csv", "Score:,99.9", 2),
        log("Pasu - c.csv", "Score:,999", 3),
    ];
    let step = run_tick(&mut m, 5, "Gridshot", files, 1000);
    assert!(is_sleep(&step, 10000));
    assert_eq!(step.effects.len(), 3);
    match &step.effects[0] {
        Effect::WriteLedger { scenario, score, last_played } => {
            assert_eq!((scenario.as_str(), *score, *last_played), ("Gridshot", 1235, None));
        }
        _ => panic!("no ledger write"),
    }
    match &step.effects[1] {
        Effect::ScenarioChanged { name, highscore, session_best } => {
            assert_eq!((name.as_str(), *highscore, *session_best), ("Gridshot", 1235, 0));
        }
        _ => panic!("no scenario change"),
    }
    match &step.effects[2] {
        Effect::UpdatePresence { scenario, highscore, session_best } => {
            assert_eq!((scenario.as_str(), *highscore, *session_best), ("Gridshot", 1235, 0));
        }
        _ => panic!("no presence"),
    }
    let s = m.session();
    assert_eq!(s.current_scenario, "Gridshot");
    assert_eq!(s.checked_files, vec!["Gridshot - a.csv".to_string(), "Gridshot - b.csv".to_string()]);
}

#[test]
fn switch_keeps_a_ledger_score_above_the_baseline() {
    let mut m = Monitor::new(1);
    let step = run_tick(&mut m, 5, "Gridshot", vec![log("Gridshot - a.csv", "Score:,10", 1)], 5000);
    assert_eq!(step.effects.len(), 2);
    assert!(matches!(step.effects[0], Effect::ScenarioChanged { highscore: 5000, session_best: 0, .. }));
    assert!(matches!(step.effects[1], Effect::UpdatePresence { highscore: 5000, session_best: 0, .. }));
    assert_eq!(m.session().local_highscore, 5000);
}

#[test]
fn new_log_raises_session_best_and_highscore() {
    let mut m = Monitor::new(1);
    let mut files = vec![log("Gridshot - a.csv", "Score:,100", 1)];
    run_tick(&mut m, 5, "Gridshot", files.clone(), 0);
    files.push(log("Gridshot - b.csv", "Score:,80", 42));
    let step = run_tick(&mut m, 6, "Gridshot", files.clone(), 9999);
    assert_eq!(step.effects.len(), 1);
    assert!(matches!(step.effects[0], Effect::UpdatePresence { highscore: 1000, session_best: 800, .. }));
    assert_eq!(m.session().session_best_scores.get("Gridshot"), Some(&800));
    assert_eq!(m.session().checked_files.len(), 2);

    files.push(log("Gridshot - c.csv", "Score:,200.0", 43));
    let step = run_tick(&mut m, 7, "Gridshot", files.clone(), 0);
    assert_eq!(step.effects.len(), 3);
    match &step.effects[0] {
        Effect::WriteLedger { scenario, score, last_played } => {
            assert_eq!((scenario.as_str(), *score, *last_played), ("Gridshot", 2000, Some(43)));
        }
        _ => panic!("no ledger write"),
    }
    assert!(matches!(step.effects[1], Effect::RefreshScoreCache));
    assert!(matches!(step.effects[2], Effect::UpdatePresence { highscore: 2000, session_best: 2000, .. }));

    let step = run_tick(&mut m, 8, "Gridshot", files.clone(), 0);
    assert_eq!(step.effects.len(), 1);
    assert!(matches!(step.effects[0], Effect::UpdatePresence { highscore: 2000, session_best: 2000, .. }));
}

#[test]
fn session_best_comes_back_with_the_scenario() {
    let mut m = Monitor::new(1);
    run_tick(&mut m, 5, "Gridshot", vec![log("Gridshot - a.csv", "Score:,100", 1)], 0);
    run_tick(&mut m, 6, "Gridshot", vec![
        log("Gridshot - a.csv", "Score:,100", 1),
        log("Gridshot - b.csv", "Score:,50", 2),
    ], 0);
    run_tick(&mut m, 7, "Pasu", Vec::new(), 30);
    assert_eq!(m.session().current_scenario, "Pasu");
    assert_eq!((m.session().local_highscore, m.session().session_highscore), (30, 0));
    let step = run_tick(&mut m, 8, "Gridshot", Vec::new(), 1000);
    assert!(matches!(step.effects[0], Effect::ScenarioChanged { highscore: 1000, session_best: 500, .. }));
}

#[test]
fn event_out_of_turn_ends_the_tick() {
    let mut m = Monitor::new(1);
    let step = m.step(MonitorEvent::Admitted(true));
    assert!(is_sleep(&step, 10000));
    assert!(step.effects.is_empty());
    assert!(matches!(m.step(tick()).request, Request::DetectGame));
}
