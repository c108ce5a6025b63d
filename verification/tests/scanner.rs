use kovaaks_rpc::scanner::{
    find_fight_time_and_score, find_initial_scores, get_last_played_time, scan_all_stats_folder,
    scan_stats_folder_since, scenario_of, score_of_line, scores_in, StatsFile,
};
use kovaaks_rpc::score::parse_score;

fn log(name: &str, content: &str, time: i64) -> StatsFile {
    StatsFile {
        name: name.to_string(),
        content: Some(content.to_string()),
        created: Some(time),
        modified: Some(time + 1),
    }
}

#[test]
fn parse_score_rounds_to_tenths() {
    assert_eq!(parse_score("123.45"), Some(1235));
    assert_eq!(parse_score("99.9"), Some(999));
    assert_eq!(parse_score("200.0"), Some(2000));
    assert_eq!(parse_score("200"), Some(2000));
    assert_eq!(parse_score("0.04"), Some(0));
    assert_eq!(parse_score("0.05"), Some(1));
    assert_eq!(parse_score("1046.399902"), Some(10464));
    assert_eq!(parse_score("-0.05"), Some(-1));
    assert_eq!(parse_score("-12.34"), Some(-123));
    assert_eq!(parse_score("+7.5"), Some(75));
    assert_eq!(parse_score("5."), Some(50));
    assert_eq!(parse_score(".5"), Some(5));
}

#[test]
fn parse_score_rejects_what_is_no_decimal() {
    assert_eq!(parse_score(""), None);
    assert_eq!(parse_score("."), None);
    assert_eq!(parse_score("-"), None);
    assert_eq!(parse_score("+."), None);
    assert_eq!(parse_score(" 1.0"), None);
    assert_eq!(parse_score("1.0 "), None);
    assert_eq!(parse_score("1.2.3"), None);
    assert_eq!(parse_score("abc"), None);
    assert_eq!(parse_score("12a"), None);
    assert_eq!(parse_score("--1"), None);
}

#[test]
fn parse_score_holds_huge_values_at_the_ends_of_the_range() {
    assert_eq!(parse_score("99999999999999999999999999"), Some(i64::MAX));
    assert_eq!(parse_score("-99999999999999999999999999"), Some(i64::MIN));
    assert_eq!(parse_score("922337203685477580.7"), Some(i64::MAX));
    assert_eq!(parse_score("922337203685477580.6"), Some(9223372036854775806));
    assert_eq!(parse_score("922337203685477580.75"), Some(i64::MAX));
    assert_eq!(parse_score("-922337203685477580.8"), Some(i64::MIN));
}

#[test]
fn score_of_line_reads_the_second_field() {
    let line: Vec<char> = "Score:,123.45,extra".chars().collect();
    assert_eq!(score_of_line(&line), Some(1235));
    let line: Vec<char> = "Score:,99.9".chars().collect();
    assert_eq!(score_of_line(&line), Some(999));
    let line: Vec<char> = "Kills:,12".chars().collect();
    assert_eq!(score_of_line(&line), None);
    let line: Vec<char> = "Total,Score:,7".chars().collect();
    assert_eq!(score_of_line(&line), None);
    let line: Vec<char> = "Score:,abc".chars().collect();
    assert_eq!(score_of_line(&line), None);
}

#[test]
fn scores_in_goes_line_by_line() {
    assert_eq!(scores_in(""), Vec::<i64>::new());
    assert_eq!(scores_in("Score:,1.0\nScore:,2.5\n"), vec![10, 25]);
    assert_eq!(scores_in("Score:,1.0\r\nfoo\r\nScore:,3\r\n"), vec![10, 30]);
    assert_eq!(scores_in("Kills:,3\nScore:,bad\nScore:,4.44"), vec![44]);
    assert_eq!(scores_in("Score:,5\r"), Vec::<i64>::new());
    assert_eq!(scores_in("\n\nScore:,5"), vec![50]);
}

#[test]
fn find_initial_scores_takes_the_maximum_over_the_logs() {
    let files = vec![
        log("Gridshot - a.csv", "Score:,123.45", 10),
        log("Gridshot - b.csv", "Score:,99.9", 20),
        log("Tile Frenzy - c.csv", "Score:,500.0", 30),
        log("Gridshot - d.txt", "Score:,900.0", 40),
    ];
    let (score, names) = find_initial_scores("Gridshot", &files);
    assert_eq!(score, 1235);
    assert_eq!(names, vec!["Gridshot - a.csv".to_string(), "Gridshot - b.csv".to_string()]);
}

#[test]
fn find_initial_scores_of_an_empty_folder_is_zero() {
    let (score, names) = find_initial_scores("Gridshot", &Vec::new());
    assert_eq!(score, 0);
    assert!(names.is_empty());
}

#[test]
fn find_initial_scores_lists_unreadable_logs_too() {
    let files = vec![StatsFile {
        name: "Gridshot - a.csv".to_string(),
        content: None,
        created: None,
        modified: None,
    }];
    let (score, names) = find_initial_scores("Gridshot", &files);
    assert_eq!(score, 0);
    assert_eq!(names, vec!["Gridshot - a.csv".to_string()]);
}

#[test]
fn incremental_scan_sees_only_unchecked_files() {
    let mut files = vec![
        log("Gridshot - a.csv", "Score:,123.45", 10),
        log("Gridshot - b.csv", "Score:,99.9", 20),
    ];
    let (_, mut checked) = find_initial_scores("Gridshot", &files);
    assert_eq!(find_fight_time_and_score("Gridshot", &files, &checked), (0, false, None));
    files.push(log("Gridshot - c.csv", "Score:,200.0", 30));
    assert_eq!(find_fight_time_and_score("Gridshot", &files, &checked), (2000, true, Some(30)));
    checked.push("Gridshot - c.csv".to_string());
    assert_eq!(find_fight_time_and_score("Gridshot", &files, &checked), (0, false, None));
}

#[test]
fn incremental_scan_takes_the_time_of_the_best_file() {
    let files = vec![
        log("Gridshot - a.csv", "Score:,10\nScore:,30", 10),
        StatsFile {
            name: "Gridshot - b.csv".to_string(),
            content: Some("Score:,50".to_string()),
            created: None,
            modified: Some(77),
        },
        log("Gridshot - c.csv", "Score:,50", 90),
        log("Gridshot - d.csv", "no marker here", 99),
    ];
    assert_eq!(find_fight_time_and_score("Gridshot", &files, &Vec::new()), (500, true, Some(77)));
}

#[test]
fn incremental_scan_without_marker_finds_nothing() {
    let files = vec![log("Gridshot - a.csv", "Kills:,3\n", 10)];
    assert_eq!(find_fight_time_and_score("Gridshot", &files, &Vec::new()), (0, false, None));
}

#[test]
fn incremental_scan_counts_a_score_of_zero_as_found() {
    let files = vec![log("Gridshot - a.csv", "Score:,0.0\n", 10)];
    assert_eq!(find_fight_time_and_score("Gridshot", &files, &Vec::new()), (0, true, None));
}

#[test]
fn last_played_time_is_the_latest_known() {
    let files = vec![
        log("Gridshot - a.csv", "", 10),
        log("Gridshot - b.csv", "", 30),
        log("Gridshot - c.csv", "", 20),
        log("Other - c.csv", "", 99),
    ];
    assert_eq!(get_last_played_time("Gridshot", &files), Some(30));
    assert_eq!(get_last_played_time("Missing", &files), None);
}

#[test]
fn scenario_of_cuts_at_the_last_dash() {
    assert_eq!(scenario_of("Gridshot - Challenge - 2024.01.01-12.00.00 Stats.csv"), "Gridshot - Challenge");
    assert_eq!(scenario_of("Gridshot - a.csv"), "Gridshot");
    assert_eq!(scenario_of("Gridshot.csv.csv"), "Gridshot");
    assert_eq!(scenario_of("Gridshot"), "Gridshot");
    assert_eq!(scenario_of(" - a.csv"), "");
}

#[test]
fn bulk_scan_keeps_the_best_per_normalized_scenario() {
    let files = vec![
        log("Gridshot - a.csv", "Score:,100.0\nScore:,900.0", 10),
        log("Gridshot - Challenge - b.csv", "Score:,150.0", 20),
        log("Gridshot - c.csv", "Score:,150.0", 30),
        log("Tile Frenzy - d.csv", "nothing", 40),
        log("Gridshot - e.txt", "Score:,999.0", 50),
        log(" - f.csv", "Score:,999.0", 60),
    ];
    let found = scan_all_stats_folder(&files);
    assert_eq!(found.len(), 2);
    let grid = found.get("Gridshot").unwrap();
    assert_eq!((grid.score, grid.time), (1500, Some(21)));
    let tile = found.get("Tile Frenzy").unwrap();
    assert_eq!((tile.score, tile.time), (0, Some(41)));
}

#[test]
fn bulk_scan_since_leaves_out_older_files() {
    let files = vec![
        log("Gridshot - a.csv", "Score:,100.0", 9),
        log("Gridshot - b.csv", "Score:,50.0", 10),
    ];
    let found = scan_stats_folder_since(&files, Some(10));
    let grid = found.get("Gridshot").unwrap();
    assert_eq!((grid.score, grid.time), (500, Some(11)));
    let found = scan_stats_folder_since(&files, Some(11));
    assert!(found.is_empty());
    let found = scan_stats_folder_since(&files, None);
    assert_eq!(found.get("Gridshot").unwrap().score, 1000);
}
