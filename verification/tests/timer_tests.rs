use chrono::Timelike;
use kavimo::errors::DownloadError;
use kavimo::timer::{parse_time, should_continue_at, TimeRange};

struct HS(pub u32, pub u32, pub u32);

fn helper(start: HS, end: HS, now: HS) -> bool {
    let start = chrono::NaiveTime::from_hms_opt(start.0, start.1, start.2)
        .unwrap()
        .num_seconds_from_midnight();
    let end = chrono::NaiveTime::from_hms_opt(end.0, end.1, end.2)
        .unwrap()
        .num_seconds_from_midnight();
    let now = chrono::NaiveTime::from_hms_opt(now.0, now.1, now.2)
        .unwrap()
        .num_seconds_from_midnight();

    let time_range = TimeRange { start, end };

    time_range.is_in_time_range(now)
}

#[test]
fn timer_logic() -> Result<(), Box<dyn std::error::Error>> {
    assert_eq!(true, helper(HS(2, 0, 0), HS(5, 0, 0), HS(3, 0, 0)));
    assert_eq!(false, helper(HS(2, 0, 0), HS(5, 0, 0), HS(1, 0, 0)));
    assert_eq!(false, helper(HS(2, 0, 0), HS(5, 0, 0), HS(6, 0, 0)));

    assert_eq!(true, helper(HS(21, 0, 0), HS(3, 0, 0), HS(2, 0, 0)));
    assert_eq!(true, helper(HS(21, 0, 0), HS(3, 0, 0), HS(23, 0, 0)));
    assert_eq!(false, helper(HS(21, 0, 0), HS(3, 0, 0), HS(19, 0, 0)));
    assert_eq!(false, helper(HS(21, 0, 0), HS(3, 0, 0), HS(6, 0, 0)));

    Ok(())
}

#[test]
fn plain_window_is_strict_interior() {
    let w = TimeRange { start: 100, end: 200 };
    assert!(!w.is_in_time_range(100));
    assert!(w.is_in_time_range(101));
    assert!(w.is_in_time_range(199));
    assert!(!w.is_in_time_range(200));
    assert!(!w.is_in_time_range(0));
}

#[test]
fn wrapped_window_is_union_of_ends() {
    let w = TimeRange { start: 200, end: 100 };
    assert!(w.is_in_time_range(201));
    assert!(w.is_in_time_range(86_399));
    assert!(w.is_in_time_range(0));
    assert!(w.is_in_time_range(99));
    assert!(!w.is_in_time_range(100));
    assert!(!w.is_in_time_range(150));
    assert!(!w.is_in_time_range(200));
}

#[test]
fn evening_window_scenario() {
    // 21:00:00-03:00:00 is active at 23:30:00 and 01:00:00, not at 10:00:00
    let w = parse_time("21:00:00-03:00:00").unwrap();
    assert_eq!(w.start, 21 * 3600);
    assert_eq!(w.end, 3 * 3600);
    assert!(w.is_in_time_range(23 * 3600 + 30 * 60));
    assert!(w.is_in_time_range(1 * 3600));
    assert!(!w.is_in_time_range(10 * 3600));
}

#[test]
fn absent_window_always_proceeds() {
    assert!(should_continue_at(&None, 0));
    assert!(should_continue_at(&None, 86_399));
    let w = TimeRange { start: 10, end: 20 };
    assert!(should_continue_at(&Some(w), 15));
    let w = TimeRange { start: 10, end: 20 };
    assert!(!should_continue_at(&Some(w), 25));
}

#[test]
fn bad_timer_strings_are_refused() {
    assert_eq!(parse_time("nonsense").unwrap_err(), DownloadError::InvalidTimer);
    assert_eq!(parse_time("10:00:00").unwrap_err(), DownloadError::InvalidTimer);
    assert_eq!(parse_time("25:00:00-01:00:00").unwrap_err(), DownloadError::InvalidTimer);
    assert_eq!(parse_time("").unwrap_err(), DownloadError::InvalidTimer);
}
