use chrono::Local;
use tomato::stats::{DayEntry, StatsStore, MAX_DAYS};

fn entry(date: &str, sessions: u32, minutes: u32) -> DayEntry {
    DayEntry { date: date.to_string(), sessions, minutes }
}

#[test]
fn record_and_week_totals() {
    let mut s = StatsStore::default();
    assert!(s.record_focus(25));
    assert!(s.record_focus(25));
    assert_eq!(s.today_totals().unwrap().0, 2);
    assert_eq!(s.today_totals().unwrap().1, 50);
    let (w_s, w_m) = s.week_totals().unwrap();
    assert_eq!(w_s, 2);
    assert_eq!(w_m, 50);
}

#[test]
fn caps_at_sixty_entries() {
    let mut s = StatsStore::default();
    for i in 0..70 {
        s.entries.push(DayEntry { date: format!("2020-01-{i:02}"), sessions: 1, minutes: 25 });
    }
    assert!(s.record_focus(25));
    assert!(s.entries.len() <= 60);
}

// ---- further cases ----

#[test]
fn record_focus_uses_the_local_date() {
    let mut s = StatsStore::default();
    assert!(s.record_focus(30));
    let today = Local::now().format("%Y-%m-%d").to_string();
    assert_eq!(s.entries.len(), 1);
    assert_eq!(s.entries[0].date, today);
    assert_eq!(s.entries[0].sessions, 1);
    assert_eq!(s.entries[0].minutes, 30);
    assert_eq!(s.today().unwrap().minutes, 30);
}

#[test]
fn record_on_a_day_adds_to_it_and_sorts() {
    let mut s = StatsStore::default();
    s.entries.push(entry("2024-03-05", 2, 50));
    s.entries.push(entry("2024-03-01", 1, 25));
    s.record_focus_on("2024-03-05".to_string(), 10);
    let dates: Vec<&str> = s.entries.iter().map(|e| e.date.as_str()).collect();
    assert_eq!(dates, vec!["2024-03-01", "2024-03-05"]);
    assert_eq!(s.day("2024-03-05").map(|e| (e.sessions, e.minutes)), Some((3, 60)));
    s.record_focus_on("2024-02-29".to_string(), 5);
    let dates: Vec<&str> = s.entries.iter().map(|e| e.date.as_str()).collect();
    assert_eq!(dates, vec!["2024-02-29", "2024-03-01", "2024-03-05"]);
    assert!(s.day("2023-01-01").is_none());
}

#[test]
fn cap_keeps_the_latest_days() {
    let mut s = StatsStore::default();
    for i in 0..MAX_DAYS {
        s.entries.push(entry(&format!("2021-{:02}-{:02}", 1 + i / 28, 1 + i % 28), 1, 25));
    }
    s.record_focus_on("2020-12-31".to_string(), 25);
    assert_eq!(s.entries.len(), MAX_DAYS);
    assert_eq!(s.entries[0].date, "2021-01-01");
    s.record_focus_on("2022-01-01".to_string(), 25);
    assert_eq!(s.entries.len(), MAX_DAYS);
    assert_eq!(s.entries[0].date, "2021-01-02");
    assert_eq!(s.entries[MAX_DAYS - 1].date, "2022-01-01");
}

#[test]
fn equal_dates_keep_their_order() {
    let mut s = StatsStore::default();
    s.entries.push(entry("2024-05-02", 1, 10));
    s.entries.push(entry("2024-05-01", 7, 70));
    s.entries.push(entry("2024-05-01", 8, 80));
    s.record_focus_on("2024-05-03".to_string(), 1);
    let got: Vec<(&str, u32)> = s.entries.iter().map(|e| (e.date.as_str(), e.sessions)).collect();
    assert_eq!(got, vec![("2024-05-01", 7), ("2024-05-01", 8), ("2024-05-02", 1), ("2024-05-03", 1)]);
}

#[test]
fn week_counts_seven_days_ending_today() {
    let mut s = StatsStore::default();
    s.entries.push(entry("2024-03-03", 1, 1));
    s.entries.push(entry("2024-03-04", 2, 20));
    s.entries.push(entry("2024-03-10", 4, 40));
    s.entries.push(entry("2024-03-11", 8, 80));
    s.entries.push(entry("not a date", 16, 160));
    let today = chrono::NaiveDate::from_ymd_opt(2024, 3, 10).unwrap();
    assert_eq!(s.week_totals_on(&today), Some((6, 60)));
    let start = chrono::NaiveDate::from_ymd_opt(2024, 3, 4).unwrap();
    assert_eq!(s.week_totals_between(&start, &today), (6, 60));
    assert_eq!(s.week_totals_between(&today, &start), (0, 0));
    assert_eq!(s.week_totals_on(&chrono::NaiveDate::MIN), None);
}

#[test]
fn nothing_recorded_today_is_zero() {
    let mut s = StatsStore::default();
    s.entries.push(entry("1999-01-01", 3, 75));
    assert_eq!(s.today_totals(), Some((0, 0)));
    assert!(s.today().is_none());
}

#[test]
fn recording_keeps_dates_distinct_and_drops_the_oldest() {
    let mut s = StatsStore::default();
    for i in 0..MAX_DAYS {
        s.entries.push(entry(&format!("2023-{:02}-{:02}", 1 + i / 28, 1 + i % 28), 1, 25));
    }
    // A date already there: as many days as before.
    s.record_focus_on("2023-01-05".to_string(), 5);
    assert_eq!(s.entries.len(), MAX_DAYS);
    assert_eq!(s.day("2023-01-05").map(|e| (e.sessions, e.minutes)), Some((2, 30)));
    // A new, later date: one more, and the oldest goes.
    s.record_focus_on("2024-01-01".to_string(), 5);
    assert_eq!(s.entries.len(), MAX_DAYS);
    assert!(s.day("2023-01-01").is_none());
    let mut dates: Vec<&str> = s.entries.iter().map(|e| e.date.as_str()).collect();
    let sorted = dates.clone();
    dates.dedup();
    assert_eq!(dates, sorted);
}

#[test]
fn the_clock_reads_after_1970() {
    let t = tomato::clock::utc_now().unwrap();
    assert!((chrono::Utc::now() - t.0).num_seconds().abs() < 5);
    let local = tomato::clock::local_now().unwrap();
    assert!((chrono::Local::now() - local.0).num_seconds().abs() < 5);
}

#[test]
fn today_is_the_local_calendar_date() {
    let d = tomato::clock::local_today().unwrap();
    assert_eq!(d, Local::now().date_naive());
}
