use chrono::{Datelike, Duration, Local, NaiveDate};
use paramo::habits::{
    best_streak, completion_rate_last_n, is_completed_in_period, period_start, toggle_completion,
    Habit, HabitFrequency,
};

fn date(s: &str) -> i32 {
    NaiveDate::parse_from_str(s, "%Y-%m-%d").unwrap().num_days_from_ce()
}

fn make_habit(freq: HabitFrequency, completions: &[&str]) -> Habit {
    Habit {
        id: "test".into(),
        name: "test".into(),
        frequency: freq,
        created_at: "2024-01-01".into(),
        completions: completions.iter().map(|s| s.to_string()).collect(),
    }
}

#[test]
fn test_period_start_weekly_thursday() {
    let thu = date("2024-01-11");
    let mon = date("2024-01-08");
    assert_eq!(period_start(&HabitFrequency::Weekly, thu), mon);
}

#[test]
fn test_period_start_monthly() {
    let mid = date("2024-03-15");
    let first = date("2024-03-01");
    assert_eq!(period_start(&HabitFrequency::Monthly, mid), first);
}

#[test]
fn test_period_start_daily_is_self() {
    let d = date("2024-06-20");
    assert_eq!(period_start(&HabitFrequency::Daily, d), d);
}

#[test]
fn test_is_completed_weekly_same_week() {
    // Completed on Wed 2024-01-10 — should match any day in that ISO week
    let h = make_habit(HabitFrequency::Weekly, &["2024-01-10"]);
    assert!(is_completed_in_period(&h, date("2024-01-08"))); // Mon
    assert!(is_completed_in_period(&h, date("2024-01-14"))); // Sun
    assert!(!is_completed_in_period(&h, date("2024-01-15"))); // Next Mon
}

#[test]
fn test_is_completed_monthly() {
    let h = make_habit(HabitFrequency::Monthly, &["2024-03-15"]);
    assert!(is_completed_in_period(&h, date("2024-03-01")));
    assert!(is_completed_in_period(&h, date("2024-03-31")));
    assert!(!is_completed_in_period(&h, date("2024-04-01")));
}

#[test]
fn test_toggle_adds_then_removes() {
    let mut h = make_habit(HabitFrequency::Daily, &[]);
    let today = Local::now().date_naive().num_days_from_ce();
    assert!(!is_completed_in_period(&h, today));
    toggle_completion(&mut h);
    assert!(is_completed_in_period(&h, today));
    assert_eq!(h.completions.len(), 1);
    toggle_completion(&mut h);
    assert!(!is_completed_in_period(&h, today));
    assert!(h.completions.is_empty());
}

#[test]
fn test_best_streak_daily() {
    // 3 consecutive days
    let h = make_habit(
        HabitFrequency::Daily,
        &["2024-01-01", "2024-01-02", "2024-01-03"],
    );
    assert_eq!(best_streak(&h), 3);
}

#[test]
fn test_best_streak_gap_resets() {
    // Gap on 2024-01-02 — two separate runs of 1
    let h = make_habit(HabitFrequency::Daily, &["2024-01-01", "2024-01-03"]);
    assert_eq!(best_streak(&h), 1);
}

#[test]
fn test_completion_rate_all_done() {
    let today = Local::now().date_naive();
    let completions: Vec<String> = (0..7)
        .map(|i| (today - Duration::days(i)).format("%Y-%m-%d").to_string())
        .collect();
    let h = Habit {
        completions,
        ..make_habit(HabitFrequency::Daily, &[])
    };
    assert_eq!(completion_rate_last_n(&h, 7), 100);
}
