use chrono::{Datelike, NaiveDate};
use paramo::habits::{
    best_streak, completion_rate_on, current_streak_on, history_strip, is_completed_in_period,
    is_due_on, new_habit_at, period_start, progress_cells_of, toggle_completion_on, today_progress,
    Habit, HabitFrequency, HabitsLog,
};
use paramo::scheduler::LocalTime;

fn date(s: &str) -> i32 {
    NaiveDate::parse_from_str(s, "%Y-%m-%d").unwrap().num_days_from_ce()
}

fn habit(freq: HabitFrequency, completions: &[&str]) -> Habit {
    Habit {
        id: "h".into(),
        name: "h".into(),
        frequency: freq,
        created_at: "2024-01-01".into(),
        completions: completions.iter().map(|s| s.to_string()).collect(),
    }
}

#[test]
fn new_habit_records_creation_time() {
    let now = LocalTime { day: date("2024-03-18"), hour: 7, minute: 5, second: 9 };
    let h = new_habit_at("Leer".to_string(), HabitFrequency::Weekly, now);
    assert_eq!(h.id, "20240318T070509");
    assert_eq!(h.created_at, "2024-03-18");
    assert_eq!(h.name, "Leer");
    assert_eq!(h.frequency, HabitFrequency::Weekly);
    assert!(h.completions.is_empty());
    assert!(HabitsLog::default().habits.is_empty());
}

#[test]
fn toggle_on_a_day_adds_then_restores() {
    let mut h = habit(HabitFrequency::Weekly, &["2024-02-01", "garbage"]);
    let day = date("2024-03-20");
    toggle_completion_on(&mut h, day);
    assert_eq!(h.completions, vec!["2024-02-01", "garbage", "2024-03-20"]);
    assert!(is_completed_in_period(&h, date("2024-03-18")));
    toggle_completion_on(&mut h, date("2024-03-24"));
    assert_eq!(h.completions, vec!["2024-02-01", "garbage"]);
}

#[test]
fn monthly_periods_start_on_the_first() {
    assert_eq!(period_start(&HabitFrequency::Monthly, date("2024-02-29")), date("2024-02-01"));
    assert_eq!(period_start(&HabitFrequency::Weekdays, date("2024-02-29")), date("2024-02-29"));
    assert_eq!(period_start(&HabitFrequency::Weekly, date("2024-03-24")), date("2024-03-18"));
}

#[test]
fn weekday_habits_rest_on_weekends() {
    let h = habit(HabitFrequency::Weekdays, &[]);
    assert!(is_due_on(&h, date("2024-03-18")));
    assert!(!is_due_on(&h, date("2024-03-16")));
    assert!(is_due_on(&habit(HabitFrequency::Daily, &[]), date("2024-03-16")));
}

#[test]
fn best_streak_by_frequency() {
    let weekly = habit(HabitFrequency::Weekly, &["2024-01-02", "2024-01-10", "2024-01-17", "2024-02-01"]);
    assert_eq!(best_streak(&weekly), 3);
    let monthly = habit(HabitFrequency::Monthly, &["2023-12-31", "2024-01-15", "2024-02-02", "2024-04-01"]);
    assert_eq!(best_streak(&monthly), 3);
    // Friday then Monday is a run for weekday habits; the Saturday does not count
    let weekdays = habit(HabitFrequency::Weekdays, &["2024-03-15", "2024-03-16", "2024-03-18", "2024-03-19"]);
    assert_eq!(best_streak(&weekdays), 3);
    assert_eq!(best_streak(&habit(HabitFrequency::Daily, &[])), 0);
    assert_eq!(best_streak(&habit(HabitFrequency::Daily, &["nope"])), 0);
    assert_eq!(best_streak(&habit(HabitFrequency::Daily, &["2024-01-02", "2024-01-01", "2024-01-02"])), 2);
}

#[test]
fn current_streak_counts_back_from_today() {
    let today = date("2024-03-20");
    let h = habit(HabitFrequency::Daily, &["2024-03-18", "2024-03-19", "2024-03-17", "2024-03-15"]);
    // today is still open, so the run of the three days before counts
    assert_eq!(current_streak_on(&h, today), 3);
    let mut done = h.clone();
    done.completions.push("2024-03-20".to_string());
    assert_eq!(current_streak_on(&done, today), 4);
    let weekdays = habit(HabitFrequency::Weekdays, &["2024-03-15", "2024-03-18"]);
    assert_eq!(current_streak_on(&weekdays, date("2024-03-19")), 2);
    let monthly = habit(HabitFrequency::Monthly, &["2024-01-31", "2024-02-10"]);
    assert_eq!(current_streak_on(&monthly, date("2024-03-05")), 2);
}

#[test]
fn completion_rate_over_days() {
    let today = date("2024-03-20");
    let h = habit(HabitFrequency::Daily, &["2024-03-20", "2024-03-19"]);
    assert_eq!(completion_rate_on(&h, today, 4), 50);
    assert_eq!(completion_rate_on(&h, today, 3), 66);
    assert_eq!(completion_rate_on(&h, today, 0), 0);
    let weekdays = habit(HabitFrequency::Weekdays, &["2024-03-18"]);
    // Sat 16 and Sun 17 are left out: due Mon 18 and Tue 19, one done
    assert_eq!(completion_rate_on(&weekdays, date("2024-03-19"), 4), 50);
    assert_eq!(completion_rate_on(&weekdays, date("2024-03-17"), 2), 0);
}

#[test]
fn history_strip_marks_last_two_weeks() {
    let today = date("2024-03-20");
    let h = habit(HabitFrequency::Weekdays, &["2024-03-20", "2024-03-18", "2024-03-11"]);
    assert_eq!(history_strip(&h, today), "░░··█░░░░··█░█");
}

#[test]
fn progress_of_the_day() {
    let today = date("2024-03-16");
    let habits = vec![
        habit(HabitFrequency::Daily, &["2024-03-16"]),
        habit(HabitFrequency::Weekdays, &[]),
        habit(HabitFrequency::Weekly, &[]),
    ];
    assert_eq!(today_progress(&habits, today), (1, 2));
    assert_eq!(progress_cells_of(1, 2), 10);
    assert_eq!(progress_cells_of(0, 0), 0);
}
