use codex_usage_tray::heatmap::{
    build_heatmap, codex_sessions_root, day_range, day_range_at, heatmap_days, is_session_log,
    session_dir, session_dirs, DayRange, SessionsRoot,
};
use codex_usage_tray::sessions::Tally;
use codex_usage_tray::time::{Date, Timestamp};

const NOON: Timestamp = Timestamp { secs: 1_781_611_200, nanos: 0 };

#[test]
fn numbers_of_days() {
    assert_eq!(heatmap_days(None), 210);
    assert_eq!(heatmap_days(Some(0)), 1);
    assert_eq!(heatmap_days(Some(1)), 1);
    assert_eq!(heatmap_days(Some(90)), 90);
    assert_eq!(heatmap_days(Some(366)), 366);
    assert_eq!(heatmap_days(Some(u32::MAX)), 366);
}

#[test]
fn ranges_end_today() {
    let range = day_range_at(NOON, 1);
    assert_eq!(range.start, range.today);
    let range = day_range_at(NOON, 210);
    assert_eq!(range.today - range.start, 209);
    let today = chrono::Datelike::num_days_from_ce(&chrono::Utc::now().date_naive());
    let present = day_range(7);
    assert_eq!(present.today - present.start, 6);
    assert!(present.today == today || present.today == today - 1);
}

#[test]
fn heatmap_covers_each_day_once() {
    let mut tally = Tally::new();
    tally.credit("2026-06-16", 100);
    tally.credit("2026-06-15", 26);
    tally.credit("2026-06-13", 25);
    tally.credit("2026-06-01", 400);
    tally.credit("elsewhere!", 1);
    let days = build_heatmap(day_range_at(NOON, 4), &tally);
    let found: Vec<(&str, u64, u8)> =
        days.iter().map(|d| (d.date.as_str(), d.value, d.intensity)).collect();
    assert_eq!(
        found,
        vec![
            ("2026-06-13", 25, 1),
            ("2026-06-14", 0, 0),
            ("2026-06-15", 26, 1),
            ("2026-06-16", 100, 1),
        ]
    );
    let wide = build_heatmap(day_range_at(NOON, 16), &tally);
    assert_eq!(wide.len(), 16);
    assert_eq!((wide[0].date.as_str(), wide[0].intensity), ("2026-06-01", 4));
    let mut dates: Vec<String> = wide.iter().map(|d| d.date.clone()).collect();
    dates.dedup();
    assert_eq!(dates.len(), 16);
}

#[test]
fn empty_tally_has_no_colours() {
    let days = build_heatmap(day_range_at(NOON, 366), &Tally::new());
    assert_eq!(days.len(), 366);
    assert_eq!(days[365].date, "2026-06-16");
    assert_eq!(days[0].date, "2025-06-16");
    assert!(days.iter().all(|d| d.value == 0 && d.intensity == 0));
}

#[test]
fn directories_of_days() {
    let dirs = session_dirs(day_range_at(Timestamp { secs: 951_782_400, nanos: 0 }, 3));
    let found: Vec<String> =
        dirs.iter().map(|d| format!("{}/{}/{}", d.year, d.month, d.day)).collect();
    assert_eq!(found, vec!["2000/02/27", "2000/02/28", "2000/02/29"]);
    for year in [-12345, -5, 0, 7, 999, 2026, 12345] {
        let dir = session_dir(Date { year, month: 1, day: 12 });
        assert_eq!(dir.year, format!("{:04}", year));
        assert_eq!((dir.month.as_str(), dir.day.as_str()), ("01", "12"));
    }
    let range = DayRange { start: 5, today: 5 };
    assert_eq!(session_dirs(range).len(), 1);
}

#[test]
fn directories_of_days_differ() {
    for today in [5, 400, 738_000] {
        let dirs = session_dirs(DayRange { start: today - 800, today });
        let mut found: Vec<String> =
            dirs.iter().map(|d| format!("{}/{}/{}", d.year, d.month, d.day)).collect();
        found.sort();
        found.dedup();
        assert_eq!(found.len(), 801);
    }
}

#[test]
fn session_logs_by_extension() {
    assert!(is_session_log(Some("jsonl")));
    assert!(is_session_log(Some("JsonL")));
    assert!(!is_session_log(Some("json")));
    assert!(!is_session_log(Some("")));
    assert!(!is_session_log(None));
}

#[test]
fn root_of_the_sessions() {
    match codex_sessions_root(Some(" /home/c d\n".to_string())) {
        SessionsRoot::CodexHome(dir) => assert_eq!(dir, "/home/c d"),
        other => panic!("{:?}", other),
    }
    assert!(matches!(codex_sessions_root(Some(" \t".to_string())), SessionsRoot::UserHome));
    assert!(matches!(codex_sessions_root(Some(String::new())), SessionsRoot::UserHome));
    assert!(matches!(codex_sessions_root(None), SessionsRoot::UserHome));
}

#[test]
fn range_that_ends_before_it_starts_is_empty() {
    let range = DayRange { start: 6, today: 5 };
    assert!(session_dirs(range).is_empty());
    assert!(build_heatmap(range, &Tally::new()).is_empty());
}
