use chrono::{Datelike, NaiveDate};
use playout_engine::schedule::{describe_source, resolve, source_description, RepeatPattern, ScheduleEntry};

fn day(y: i32, m: u32, d: u32) -> i64 {
    NaiveDate::from_ymd_opt(y, m, d).unwrap().num_days_from_ce() as i64
}

fn ms(h: u32, m: u32, s: u32) -> u32 {
    ((h * 60 + m) * 60 + s) * 1000
}

fn entry(id: u128, playlist: u128, date: i64, start: Option<u32>, repeat: RepeatPattern) -> ScheduleEntry {
    ScheduleEntry {
        id,
        playlist_id: playlist,
        date,
        start_time_ms: start,
        repeat,
        exception_dates: Vec::new(),
    }
}

#[test]
fn direct_entry_beats_weekly_at_same_start() {
    let monday = day(2024, 3, 18);
    assert_eq!(NaiveDate::from_ymd_opt(2024, 3, 18).unwrap().weekday(), chrono::Weekday::Mon);
    let weekly = entry(1, 100, day(2024, 1, 1), Some(ms(8, 0, 0)), RepeatPattern::Weekly);
    let direct = entry(2, 200, monday, Some(ms(8, 0, 0)), RepeatPattern::Once);
    let entries = vec![weekly, direct];
    let r = resolve(&entries, monday, ms(8, 30, 0)).unwrap();
    assert_eq!(r.playlist_id, 200);
    assert_eq!(r.repeat, RepeatPattern::Once);
    assert_eq!(r.start_time_ms, ms(8, 0, 0));
    let weekly = entry(1, 100, day(2024, 1, 1), Some(ms(8, 0, 0)), RepeatPattern::Weekly);
    let direct = entry(2, 200, monday, Some(ms(8, 0, 0)), RepeatPattern::Once);
    let entries = vec![direct, weekly];
    assert_eq!(resolve(&entries, monday, ms(8, 30, 0)).unwrap().playlist_id, 200);
}

#[test]
fn latest_started_entry_wins() {
    let today = day(2024, 5, 10);
    let entries = vec![
        entry(1, 10, today, Some(ms(6, 0, 0)), RepeatPattern::Once),
        entry(2, 20, day(2024, 1, 1), Some(ms(9, 0, 0)), RepeatPattern::Daily),
        entry(3, 30, today, Some(ms(12, 0, 0)), RepeatPattern::Once),
        entry(4, 40, today, None, RepeatPattern::Once),
    ];
    assert_eq!(resolve(&entries, today, ms(10, 0, 0)).unwrap().playlist_id, 20);
    assert_eq!(resolve(&entries, today, ms(12, 0, 0)).unwrap().playlist_id, 30);
    assert_eq!(resolve(&entries, today, ms(7, 0, 0)).unwrap().playlist_id, 10);
    assert!(resolve(&entries, today, ms(5, 59, 59)).is_none());
}

#[test]
fn daily_beats_weekly_and_first_listed_wins_ties() {
    let today = day(2024, 5, 13);
    let entries = vec![
        entry(1, 10, day(2024, 5, 6), Some(ms(8, 0, 0)), RepeatPattern::Weekly),
        entry(2, 20, day(2024, 1, 1), Some(ms(8, 0, 0)), RepeatPattern::Daily),
        entry(3, 30, day(2024, 2, 1), Some(ms(8, 0, 0)), RepeatPattern::Daily),
    ];
    let r = resolve(&entries, today, ms(9, 0, 0)).unwrap();
    assert_eq!(r.playlist_id, 20);
    assert_eq!(r.index, 1);
}

#[test]
fn validity_rules_of_patterns() {
    let today = day(2024, 5, 13);
    let once_other_day = entry(1, 10, day(2024, 5, 12), Some(0), RepeatPattern::Once);
    let daily_future = entry(2, 20, day(2024, 5, 14), Some(0), RepeatPattern::Daily);
    let weekly_wrong_day = entry(3, 30, day(2024, 5, 7), Some(0), RepeatPattern::Weekly);
    let weekly_right_day = entry(4, 40, day(2024, 4, 29), Some(0), RepeatPattern::Weekly);
    assert!(!once_other_day.is_valid_on(today));
    assert!(!daily_future.is_valid_on(today));
    assert!(!weekly_wrong_day.is_valid_on(today));
    assert!(weekly_right_day.is_valid_on(today));
    let entries = vec![once_other_day, daily_future, weekly_wrong_day, weekly_right_day];
    assert_eq!(resolve(&entries, today, 1).unwrap().playlist_id, 40);
    assert!(resolve(&Vec::new(), today, 1).is_none());
}

#[test]
fn exception_date_suppresses_that_day_only() {
    let today = day(2024, 5, 13);
    let mut e = entry(1, 10, day(2024, 1, 1), Some(ms(8, 0, 0)), RepeatPattern::Daily);
    assert!(e.is_valid_on(today));
    e.exception_dates.push(today);
    assert!(!e.is_valid_on(today));
    assert!(e.is_valid_on(today + 1));
    assert!(e.is_valid_on(today - 1));
    let entries = vec![e];
    assert!(resolve(&entries, today, ms(9, 0, 0)).is_none());
    let mut e = entries.into_iter().next().unwrap();
    e.exception_dates.retain(|d| *d != today);
    assert!(e.is_valid_on(today));
    let entries = vec![e];
    assert_eq!(resolve(&entries, today, ms(9, 0, 0)).unwrap().playlist_id, 10);
}

#[test]
fn source_descriptions_name_pattern_and_date() {
    let monday = day(2024, 3, 18);
    let entries = vec![
        entry(1, 100, day(2024, 1, 1), Some(ms(8, 0, 0)), RepeatPattern::Weekly),
        entry(2, 200, day(2024, 2, 29), Some(ms(7, 0, 0)), RepeatPattern::Daily),
        entry(3, 300, monday, Some(ms(6, 0, 0)), RepeatPattern::Once),
    ];
    let weekly = resolve(&entries, monday, ms(8, 0, 0)).unwrap();
    assert_eq!(source_description(&weekly, monday), "Weekly (DOW 0, from 2024-01-01)");
    let daily = resolve(&entries, monday, ms(7, 30, 0)).unwrap();
    assert_eq!(source_description(&daily, monday), "Daily (from 2024-02-29)");
    let direct = resolve(&entries, monday, ms(6, 30, 0)).unwrap();
    assert_eq!(source_description(&direct, monday), "Direct (2024-03-18)");
    let sunday = day(2024, 3, 17);
    let r = resolve(&vec![entry(4, 1, day(2024, 3, 3), Some(0), RepeatPattern::Weekly)], sunday, 1).unwrap();
    assert_eq!(source_description(&r, sunday), "Weekly (DOW 6, from 2024-03-03)");
}

#[test]
fn describe_source_uses_the_given_date_text() {
    let today = day(2024, 3, 20);
    let r = resolve(&vec![entry(1, 7, day(2024, 3, 6), Some(0), RepeatPattern::Weekly)], today, 5).unwrap();
    assert_eq!(describe_source(&r, today, "the sixth"), "Weekly (DOW 2, from the sixth)");
    let r = resolve(&vec![entry(1, 7, today, Some(0), RepeatPattern::Once)], today, 5).unwrap();
    assert_eq!(describe_source(&r, today, ""), "Direct ()");
}
