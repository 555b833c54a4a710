use paramo::scheduler::next_transition;
use chrono::{Datelike, Local, TimeZone, Timelike};
use paramo::config::ScheduleConfig;
use paramo::scheduler::{is_block_time, LocalTime};

fn local(y: i32, mo: u32, d: u32, h: u32, mi: u32, s: u32) -> LocalTime {
    let t = Local.with_ymd_and_hms(y, mo, d, h, mi, s).unwrap();
    LocalTime {
        day: t.date_naive().num_days_from_ce(),
        hour: t.hour(),
        minute: t.minute(),
        second: t.second(),
    }
}

#[test]
fn test_is_block_time_within_hours() {
    let config = ScheduleConfig {
        start: 9,
        end: 18,
        block_weekends: false,
    };

    let monday_10 = local(2024, 3, 18, 10, 0, 0);
    assert!(is_block_time(&config, &monday_10));

    let monday_859 = local(2024, 3, 18, 8, 59, 0);
    assert!(!is_block_time(&config, &monday_859));

    let monday_1800 = local(2024, 3, 18, 18, 0, 0);
    assert!(!is_block_time(&config, &monday_1800));
}

#[test]
fn test_is_block_time_weekends() {
    let config = ScheduleConfig {
        start: 9,
        end: 18,
        block_weekends: false,
    };

    let saturday_10 = local(2024, 3, 16, 10, 0, 0);
    assert!(!is_block_time(&config, &saturday_10));

    let config_weekends = ScheduleConfig {
        start: 9,
        end: 18,
        block_weekends: true,
    };
    assert!(is_block_time(&config_weekends, &saturday_10));
}

#[test]
fn next_change_is_later_and_flips_the_state() {
    let config = ScheduleConfig { start: 9, end: 18, block_weekends: false };
    let cases = [
        local(2024, 3, 18, 10, 0, 0),
        local(2024, 3, 18, 8, 59, 0),
        local(2024, 3, 18, 18, 0, 0),
        local(2024, 3, 15, 20, 0, 0),
        local(2024, 3, 16, 10, 0, 0),
    ];
    for now in cases {
        let next = next_transition(&config, &now).unwrap();
        let secs = |t: &LocalTime| t.day as i64 * 86400 + t.hour as i64 * 3600 + t.minute as i64 * 60 + t.second as i64;
        assert!(secs(&next) > secs(&now));
        assert_ne!(is_block_time(&config, &next), is_block_time(&config, &now));
    }
    // Friday evening: the next start is on Monday at 9.
    let friday = local(2024, 3, 15, 20, 0, 0);
    let next = next_transition(&config, &friday).unwrap();
    assert_eq!((next.day - friday.day, next.hour), (3, 9));
}

#[test]
fn overnight_schedule_ends_in_the_morning() {
    let config = ScheduleConfig { start: 22, end: 6, block_weekends: true };
    let late = local(2024, 3, 18, 23, 30, 0);
    assert!(is_block_time(&config, &late));
    let next = next_transition(&config, &late).unwrap();
    assert_eq!((next.day - late.day, next.hour, next.minute), (1, 6, 0));
    assert!(!is_block_time(&config, &next));
}
