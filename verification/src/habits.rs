use vstd::prelude::*;
use crate::calendar::{Weekday, is_weekend, weekday_index, weekday_of, weekday_of_day, weekday_is_weekend};
use crate::clock::{
    LAST_FOUR_DIGIT_DAY, MAX_DAY, MIN_DAY, day_of_month, day_of_month_of, format_local,
    formatted_local, local_now, parse_ymd, parsed_ymd, valid_day,
};
use crate::scheduler::{LocalTime, skip_weekend};
use crate::text::strs;

verus! {

// Dates are day numbers as chrono's `num_days_from_ce` counts them. Stepping a day
// number forward or back is integer arithmetic here; chrono is asked for what only
// a calendar knows (the day of the month), for reading and writing dates as text, and
// for the current time.

/// How often a habit is due.
#[derive(Debug, Clone, Copy, PartialEq, Eq, Structural)]
pub enum HabitFrequency {
    Daily,
    Weekly,
    Monthly,
    Weekdays,
}

/// A habit and the dates (`%Y-%m-%d`) on which it was done.
#[derive(Debug, Clone)]
pub struct Habit {
    pub id: String,
    pub name: String,
    pub frequency: HabitFrequency,
    pub created_at: String,
    pub completions: Vec<String>,
}

/// All habits of the user.
#[derive(Debug, Clone)]
pub struct HabitsLog {
    pub habits: Vec<Habit>,
}

impl Default for HabitsLog {
    fn default() -> (r: Self)
        ensures
            r.habits@.len() == 0,
    {
        HabitsLog { habits: Vec::new() }
    }
}

/// How many days `day` lies after the Monday of its week.
pub open spec fn days_from_monday(day: int) -> int {
    weekday_index(weekday_of(day))
}

/// The first day of the month of `day`.
pub open spec fn month_start(day: int) -> int {
    day - day_of_month_of(day) + 1
}

/// The first day of the period of `f` that contains `day`: the day itself for daily
/// and weekday habits, its Monday for weekly ones, the first of its month for monthly
/// ones. Two days fall in one period exactly when their period starts agree.
pub open spec fn period_start_spec(f: HabitFrequency, day: int) -> int {
    match f {
        HabitFrequency::Weekly => day - days_from_monday(day),
        HabitFrequency::Monthly => month_start(day),
        _ => day,
    }
}

/// The first day of the period before the one that contains `day`.
pub open spec fn prev_period_spec(f: HabitFrequency, day: int) -> int {
    let start = period_start_spec(f, day);
    match f {
        HabitFrequency::Weekly => start - 7,
        HabitFrequency::Monthly => month_start(start - 1),
        _ => start - 1,
    }
}

/// Whether the completion text `c` is a date in the period starting at `target`.
pub open spec fn in_period(f: HabitFrequency, c: Seq<char>, target: int) -> bool {
    match parsed_ymd(c) {
        Some(d) => period_start_spec(f, d) == target,
        None => false,
    }
}

/// Whether some completion lies in the period of `day`.
pub open spec fn completed_spec(f: HabitFrequency, cs: Seq<Seq<char>>, day: int) -> bool {
    exists|i: int| 0 <= i < cs.len() && #[trigger] in_period(f, cs[i], period_start_spec(f, day))
}

/// The completions outside the period starting at `target`, in their order.
pub open spec fn drop_period(f: HabitFrequency, cs: Seq<Seq<char>>, target: int) -> Seq<Seq<char>>
    decreases cs.len(),
{
    if cs.len() == 0 {
        cs
    } else {
        let rest = drop_period(f, cs.drop_last(), target);
        if in_period(f, cs.last(), target) {
            rest
        } else {
            rest.push(cs.last())
        }
    }
}

/// The text of `day` as completions record it.
pub open spec fn date_text(day: int) -> Seq<char> {
    formatted_local(day, 0, 0, 0, "%Y-%m-%d"@)
}

/// The completions after a toggle on `today`: when the period of `today` is already
/// done, every completion in it goes; otherwise `today` is added at the end.
pub open spec fn toggled(f: HabitFrequency, cs: Seq<Seq<char>>, today: int) -> Seq<Seq<char>> {
    if completed_spec(f, cs, today) {
        drop_period(f, cs, period_start_spec(f, today))
    } else {
        cs.push(date_text(today))
    }
}

/// Whether a habit of frequency `f` is due on `day`: every day but Saturday and Sunday
/// for weekday habits, every day for the others.
pub open spec fn due_on(f: HabitFrequency, day: int) -> bool {
    f == HabitFrequency::Weekdays ==> !is_weekend(weekday_of(day))
}

/// The current streak counted back from `cursor` over at most `fuel` steps: a weekend
/// day of a weekday habit is skipped, a done period counts one and goes on to the
/// period before, an undone period ends the streak unless it is today's.
pub open spec fn streak_walk(
    f: HabitFrequency,
    cs: Seq<Seq<char>>,
    today: int,
    cursor: int,
    fuel: nat,
) -> nat
    decreases fuel,
{
    if fuel == 0 {
        0
    } else if f == HabitFrequency::Weekdays && is_weekend(weekday_of(cursor)) {
        streak_walk(f, cs, today, cursor - 1, (fuel - 1) as nat)
    } else if completed_spec(f, cs, cursor) {
        1 + streak_walk(f, cs, today, prev_period_spec(f, cursor), (fuel - 1) as nat)
    } else if cursor == today {
        streak_walk(f, cs, today, prev_period_spec(f, cursor), (fuel - 1) as nat)
    } else {
        0
    }
}

/// The current streak on the clock's day `t`; 0 where the look back would reach
/// before chrono's calendar begins.
pub open spec fn streak_on_clock(f: HabitFrequency, cs: Seq<Seq<char>>, t: int) -> nat {
    if MIN_DAY + 366 * 62 <= t {
        streak_walk(f, cs, t, t, streak_horizon())
    } else {
        0
    }
}

/// The completion rate over `n` days up to the clock's day `t`; 0 where those days
/// would reach before chrono's calendar begins.
pub open spec fn rate_on_clock(f: HabitFrequency, cs: Seq<Seq<char>>, t: int, n: nat) -> int {
    if n == 0 || valid_day(t - (n - 1)) {
        completion_rate_spec(f, cs, t, n)
    } else {
        0
    }
}

/// The number of steps the current streak looks back over.
pub open spec fn streak_horizon() -> nat {
    366
}

/// How many of the `n` days ending at `today` were due, and how many of those had
/// their period done.
pub open spec fn rate_counts(f: HabitFrequency, cs: Seq<Seq<char>>, today: int, n: nat) -> (nat, nat)
    decreases n,
{
    if n == 0 {
        (0, 0)
    } else {
        let (due, done) = rate_counts(f, cs, today, (n - 1) as nat);
        let day = today - (n - 1);
        if f == HabitFrequency::Weekdays && is_weekend(weekday_of(day)) {
            (due, done)
        } else {
            (due + 1, if completed_spec(f, cs, day) {
                done + 1
            } else {
                done
            })
        }
    }
}

/// The percentage of due days among the last `n` whose period was done, rounded
/// down; 0 when `n` is 0 or no day was due.
pub open spec fn completion_rate_spec(f: HabitFrequency, cs: Seq<Seq<char>>, today: int, n: nat) -> int {
    let (due, done) = rate_counts(f, cs, today, n);
    if n == 0 || due == 0 {
        0
    } else if done * 100 / due > 100 {
        100
    } else {
        (done * 100 / due) as int
    }
}

/// Whether a completion counts toward the best streak: weekend dates of weekday
/// habits do not.
pub open spec fn counted(f: HabitFrequency, day: int) -> bool {
    !(f == HabitFrequency::Weekdays && is_weekend(weekday_of(day)))
}

/// The period a completion counts for, if it is a date that counts.
pub open spec fn completion_period(f: HabitFrequency, c: Seq<char>) -> Option<int> {
    match parsed_ymd(c) {
        Some(d) => if counted(f, d) {
            Some(period_start_spec(f, d))
        } else {
            None
        },
        None => None,
    }
}

/// The position of the first element of `s` not below `x`.
pub open spec fn first_ge(s: Seq<int>, x: int) -> nat
    decreases s.len(),
{
    if s.len() == 0 {
        0
    } else if s[0] >= x {
        0
    } else {
        1 + first_ge(s.drop_first(), x)
    }
}

/// `s` with `x` put before its first element not below `x`, unless that element is
/// `x` already.
pub open spec fn insert_period(s: Seq<int>, x: int) -> Seq<int> {
    let j = first_ge(s, x) as int;
    if j < s.len() && s[j] == x {
        s
    } else {
        s.insert(j, x)
    }
}

/// The distinct periods of the completions that count, in increasing order.
pub open spec fn periods_of(f: HabitFrequency, cs: Seq<Seq<char>>) -> Seq<int>
    decreases cs.len(),
{
    if cs.len() == 0 {
        Seq::empty()
    } else {
        let rest = periods_of(f, cs.drop_last());
        match completion_period(f, cs.last()) {
            Some(p) => insert_period(rest, p),
            None => rest,
        }
    }
}

/// The period that must follow the one starting at `start` for a run to go on: for a
/// weekday habit the next day that is no Saturday or Sunday, otherwise the period of
/// the day after the period begins (a day, a week or a month later; a month is
/// reached as the first of the month 31 days on, and the last month chrono knows has
/// no successor but itself).
pub open spec fn following_period(f: HabitFrequency, start: int) -> int {
    match f {
        HabitFrequency::Weekdays => skip_weekend(start + 1),
        HabitFrequency::Daily => start + 1,
        HabitFrequency::Weekly => period_start_spec(f, start + 7),
        HabitFrequency::Monthly => period_start_spec(
            f,
            if valid_day(start + 31) {
                month_start(start + 31)
            } else {
                start
            },
        ),
    }
}

/// The length of the run of consecutive periods that ends at position `i` of `p`.
pub open spec fn run_at(f: HabitFrequency, p: Seq<int>, i: int) -> nat
    decreases i,
{
    if i <= 0 {
        1
    } else if p[i] == following_period(f, p[i - 1]) {
        run_at(f, p, i - 1) + 1
    } else {
        1
    }
}

/// The longest run of consecutive periods that ends at or before position `i`.
pub open spec fn best_through(f: HabitFrequency, p: Seq<int>, i: int) -> nat
    decreases i,
{
    if i <= 0 {
        1
    } else {
        let b = best_through(f, p, i - 1);
        let r = run_at(f, p, i);
        if r > b {
            r
        } else {
            b
        }
    }
}

/// The longest run of consecutive done periods in the whole history.
pub open spec fn best_streak_spec(f: HabitFrequency, cs: Seq<Seq<char>>) -> nat {
    let p = periods_of(f, cs);
    if p.len() == 0 {
        0
    } else {
        best_through(f, p, p.len() - 1)
    }
}

pub open spec fn ints(v: Seq<i32>) -> Seq<int> {
    v.map_values(|x: i32| x as int)
}

} // verus!

verus! {

/// How many days `day` lies after the Monday of its week.
fn days_from_monday_of(day: i32) -> (r: i32)
    ensures
        r == days_from_monday(day as int),
        0 <= r <= 6,
{
    match weekday_of_day(day) {
        Weekday::Mon => 0,
        Weekday::Tue => 1,
        Weekday::Wed => 2,
        Weekday::Thu => 3,
        Weekday::Fri => 4,
        Weekday::Sat => 5,
        Weekday::Sun => 6,
    }
}

/// The first day of the period of `frequency` that contains `date`.
pub fn period_start(frequency: &HabitFrequency, date: i32) -> (r: i32)
    requires
        valid_day(date as int),
    ensures
        r == period_start_spec(*frequency, date as int),
        date - 30 <= r <= date,
        *frequency == HabitFrequency::Monthly ==> valid_day(r as int),
{
    match frequency {
        HabitFrequency::Weekly => date - days_from_monday_of(date),
        HabitFrequency::Monthly => {
            let d = day_of_month(date);
            date - d as i32 + 1
        },
        _ => date,
    }
}

/// The first day of the period before the one that contains `date`.
fn prev_period(frequency: &HabitFrequency, date: i32) -> (r: i32)
    requires
        MIN_DAY + 62 <= date <= MAX_DAY,
    ensures
        r == prev_period_spec(*frequency, date as int),
        date - 62 <= r < date,
{
    let start = period_start(frequency, date);
    match frequency {
        HabitFrequency::Weekly => start - 7,
        HabitFrequency::Monthly => {
            let last = start - 1;
            let d = day_of_month(last);
            last - d as i32 + 1
        },
        _ => start - 1,
    }
}

/// Whether the habit was done in the period (day, week or month) that contains `date`.
pub fn is_completed_in_period(habit: &Habit, date: i32) -> (r: bool)
    requires
        valid_day(date as int),
    ensures
        r == completed_spec(habit.frequency, strs(habit.completions@), date as int),
{
    let ghost cs = strs(habit.completions@);
    let target = period_start(&habit.frequency, date);
    let mut i: usize = 0;
    while i < habit.completions.len()
        invariant
            i <= habit.completions.len(),
            cs == strs(habit.completions@),
            target == period_start_spec(habit.frequency, date as int),
            forall|k: int| 0 <= k < i ==> !#[trigger] in_period(habit.frequency, cs[k], target as int),
        decreases habit.completions.len() - i,
    {
        match parse_ymd(habit.completions[i].as_str()) {
            Some(d) => {
                if period_start(&habit.frequency, d) == target {
                    assert(in_period(habit.frequency, cs[i as int], target as int));
                    return true;
                }
            },
            None => {},
        }
        assert(!in_period(habit.frequency, cs[i as int], target as int));
        i = i + 1;
    }
    false
}

/// Whether the habit is due on `day`: weekday habits skip Saturdays and Sundays.
pub fn is_due_on(habit: &Habit, day: i32) -> (r: bool)
    ensures
        r == due_on(habit.frequency, day as int),
{
    match habit.frequency {
        HabitFrequency::Weekdays => !weekday_is_weekend(weekday_of_day(day)),
        _ => true,
    }
}

/// Whether the habit is due today (local time).
pub fn is_due_today(habit: &Habit) -> (r: bool)
    ensures
        habit.frequency != HabitFrequency::Weekdays ==> r,
        exists|t: int| valid_day(t) && r == #[trigger] due_on(habit.frequency, t),
{
    let now = local_now();
    let r = is_due_on(habit, now.day);
    assert(valid_day(now.day as int) && r == due_on(habit.frequency, now.day as int));
    r
}

proof fn lemma_drop_period_all_outside(f: HabitFrequency, cs: Seq<Seq<char>>, target: int)
    requires
        forall|k: int| 0 <= k < cs.len() ==> !#[trigger] in_period(f, cs[k], target),
    ensures
        drop_period(f, cs, target) == cs,
    decreases cs.len(),
{
    if cs.len() > 0 {
        let d = cs.drop_last();
        assert forall|k: int| 0 <= k < d.len() implies !#[trigger] in_period(f, d[k], target) by {
            assert(d[k] == cs[k]);
        }
        lemma_drop_period_all_outside(f, d, target);
        assert(!in_period(f, cs[cs.len() - 1], target));
        assert(d.push(cs.last()) =~= cs);
    }
}

proof fn lemma_drop_period_outside(f: HabitFrequency, cs: Seq<Seq<char>>, target: int)
    ensures
        forall|k: int|
            0 <= k < drop_period(f, cs, target).len() ==> !#[trigger] in_period(
                f,
                drop_period(f, cs, target)[k],
                target,
            ),
    decreases cs.len(),
{
    if cs.len() > 0 {
        let rest = drop_period(f, cs.drop_last(), target);
        lemma_drop_period_outside(f, cs.drop_last(), target);
        if !in_period(f, cs.last(), target) {
            let d = drop_period(f, cs, target);
            assert(d == rest.push(cs.last()));
            assert forall|k: int| 0 <= k < d.len() implies !#[trigger] in_period(f, d[k], target) by {
                if k < rest.len() {
                    assert(d[k] == rest[k]);
                }
            }
        }
    }
}

/// Marks the habit done today when today's period is not done yet; otherwise removes
/// every completion in today's period.
pub fn toggle_completion_on(habit: &mut Habit, today: i32)
    requires
        valid_day(today as int),
    ensures
        final(habit).id == old(habit).id,
        final(habit).name == old(habit).name,
        final(habit).frequency == old(habit).frequency,
        final(habit).created_at == old(habit).created_at,
        strs(final(habit).completions@) == toggled(
            old(habit).frequency,
            strs(old(habit).completions@),
            today as int,
        ),
        completed_spec(old(habit).frequency, strs(old(habit).completions@), today as int)
            ==> !completed_spec(old(habit).frequency, strs(final(habit).completions@), today as int),
        !completed_spec(old(habit).frequency, strs(old(habit).completions@), today as int) && 1
            <= today <= LAST_FOUR_DIGIT_DAY ==> completed_spec(
            old(habit).frequency,
            strs(final(habit).completions@),
            today as int,
        ) && toggled(old(habit).frequency, strs(final(habit).completions@), today as int) == strs(
            old(habit).completions@,
        ),
{
    let ghost f = habit.frequency;
    let ghost cs = strs(habit.completions@);
    let ghost target = period_start_spec(f, today as int);
    if is_completed_in_period(habit, today) {
        let t = period_start(&habit.frequency, today);
        let mut kept: Vec<String> = Vec::new();
        let mut i: usize = 0;
        while i < habit.completions.len()
            invariant
                i <= habit.completions.len(),
                cs == strs(habit.completions@),
                f == habit.frequency,
                t == target,
                strs(kept@) == drop_period(f, cs.take(i as int), target),
            decreases habit.completions.len() - i,
        {
            let keep = match parse_ymd(habit.completions[i].as_str()) {
                Some(d) => period_start(&habit.frequency, d) != t,
                None => true,
            };
            assert(cs.take(i + 1).drop_last() =~= cs.take(i as int));
            assert(cs.take(i + 1).last() == cs[i as int]);
            if keep {
                let c = habit.completions[i].clone();
                kept.push(c);
                assert(strs(kept@) =~= drop_period(f, cs.take(i as int), target).push(cs[i as int]));
            }
            i = i + 1;
        }
        assert(cs.take(habit.completions.len() as int) =~= cs);
        habit.completions = kept;
        proof {
            lemma_drop_period_outside(f, cs, target);
        }
    } else {
        let day = LocalTime { day: today, hour: 0, minute: 0, second: 0 };
        let s = format_local(day, "%Y-%m-%d");
        habit.completions.push(s);
        proof {
            let fin = cs.push(date_text(today as int));
            assert(strs(habit.completions@) =~= fin);
            if 1 <= today <= LAST_FOUR_DIGIT_DAY {
                assert(in_period(f, fin[cs.len() as int], target));
                assert(completed_spec(f, fin, today as int));
                assert forall|k: int| 0 <= k < cs.len() implies !#[trigger] in_period(
                    f,
                    cs[k],
                    target,
                ) by {
                    if in_period(f, cs[k], target) {
                        assert(completed_spec(f, cs, today as int));
                    }
                }
                lemma_drop_period_all_outside(f, cs, target);
                assert(fin.drop_last() =~= cs);
            }
        }
    }
}

/// Toggles the habit for today (local time), as `toggle_completion_on` does.
pub fn toggle_completion(habit: &mut Habit)
    ensures
        final(habit).id == old(habit).id,
        final(habit).name == old(habit).name,
        final(habit).frequency == old(habit).frequency,
        final(habit).created_at == old(habit).created_at,
        exists|t: int|
            valid_day(t) && strs(final(habit).completions@) == #[trigger] toggled(
                old(habit).frequency,
                strs(old(habit).completions@),
                t,
            ),
{
    let now = local_now();
    toggle_completion_on(habit, now.day);
}

} // verus!

verus! {

/// The current streak on `today`: consecutive done periods counted back from today's
/// (today's period may still be open), over at most 366 steps.
pub fn current_streak_on(habit: &Habit, today: i32) -> (r: u32)
    requires
        MIN_DAY + 366 * 62 <= today <= MAX_DAY,
    ensures
        r == streak_walk(habit.frequency, strs(habit.completions@), today as int, today as int, streak_horizon()),
        r <= 366,
{
    let ghost f = habit.frequency;
    let ghost cs = strs(habit.completions@);
    let ghost total = streak_walk(f, cs, today as int, today as int, 366);
    let mut streak: u32 = 0;
    let mut cursor: i32 = today;
    let mut step: u32 = 0;
    while step < 366
        invariant
            step <= 366,
            streak <= step,
            MIN_DAY + 62 * (366 - step) <= cursor <= today <= MAX_DAY,
            f == habit.frequency,
            cs == strs(habit.completions@),
            streak + streak_walk(f, cs, today as int, cursor as int, (366 - step) as nat) == total,
            total == streak_walk(f, cs, today as int, today as int, streak_horizon()),
        decreases 366 - step,
    {
        if habit.frequency == HabitFrequency::Weekdays && weekday_is_weekend(weekday_of_day(cursor)) {
            cursor = cursor - 1;
            step = step + 1;
            continue;
        }
        if is_completed_in_period(habit, cursor) {
            streak = streak + 1;
        } else if cursor == today {
        } else {
            assert(streak_walk(f, cs, today as int, cursor as int, (366 - step) as nat) == 0);
            return streak;
        }
        cursor = prev_period(&habit.frequency, cursor);
        step = step + 1;
    }
    streak
}

/// The current streak on today's date (local time). The clock cannot reach back to
/// where chrono's calendar begins; were it to, the streak would be 0.
pub fn current_streak(habit: &Habit) -> (r: u32)
    ensures
        r <= 366,
        exists|t: int|
            valid_day(t) && r == #[trigger] streak_on_clock(habit.frequency, strs(habit.completions@), t),
{
    let now = local_now();
    if now.day < MIN_DAY + 366 * 62 {
        assert(0 == streak_on_clock(habit.frequency, strs(habit.completions@), now.day as int));
        return 0;
    }
    let r = current_streak_on(habit, now.day);
    assert(r == streak_on_clock(habit.frequency, strs(habit.completions@), now.day as int));
    r
}

/// The percentage of the last `n` days up to `today` (weekends left out for weekday
/// habits) whose period was done.
pub fn completion_rate_on(habit: &Habit, today: i32, n: u32) -> (r: u8)
    requires
        valid_day(today as int),
        n == 0 || valid_day(today - (n - 1)),
    ensures
        r == completion_rate_spec(habit.frequency, strs(habit.completions@), today as int, n as nat),
        r <= 100,
{
    if n == 0 {
        return 0;
    }
    let ghost f = habit.frequency;
    let ghost cs = strs(habit.completions@);
    let mut due: u32 = 0;
    let mut done: u32 = 0;
    let mut offset: u32 = 0;
    while offset < n
        invariant
            offset <= n,
            valid_day(today as int),
            valid_day(today - (n - 1)),
            f == habit.frequency,
            cs == strs(habit.completions@),
            done <= due <= offset,
            (due as nat, done as nat) == rate_counts(f, cs, today as int, offset as nat),
        decreases n - offset,
    {
        let date: i32 = today - offset as i32;
        if habit.frequency == HabitFrequency::Weekdays && weekday_is_weekend(weekday_of_day(date)) {
            offset = offset + 1;
            continue;
        }
        due = due + 1;
        if is_completed_in_period(habit, date) {
            done = done + 1;
        }
        offset = offset + 1;
    }
    if due == 0 {
        return 0;
    }
    let pct: u64 = (done as u64 * 100) / (due as u64);
    assert(pct as int == (done as int * 100) / (due as int));
    assert(pct <= 100) by (nonlinear_arith)
        requires
            pct as int == (done as int * 100) / (due as int),
            done <= due,
            due > 0,
    ;
    pct as u8
}

/// The completion rate over the last `n` days up to today (local time); 0 where those
/// days would reach before chrono's calendar begins.
pub fn completion_rate_last_n(habit: &Habit, n: u32) -> (r: u8)
    ensures
        r <= 100,
        n == 0 ==> r == 0,
        exists|t: int|
            valid_day(t) && r == #[trigger] rate_on_clock(habit.frequency, strs(habit.completions@), t, n as nat),
{
    let now = local_now();
    if n > 0 && (now.day as i64) - (n as i64 - 1) < MIN_DAY as i64 {
        assert(0 == rate_on_clock(habit.frequency, strs(habit.completions@), now.day as int, n as nat));
        return 0;
    }
    let r = completion_rate_on(habit, now.day, n);
    assert(r == rate_on_clock(habit.frequency, strs(habit.completions@), now.day as int, n as nat));
    r
}

/// A new habit with no completions, created at `now`: its id is the time as
/// `%Y%m%dT%H%M%S`, its creation date the date as `%Y-%m-%d`.
pub fn new_habit_at(name: String, frequency: HabitFrequency, now: LocalTime) -> (r: Habit)
    requires
        now.wf(),
        valid_day(now.day as int),
    ensures
        r.id@ == formatted_local(now.day as int, now.hour as int, now.minute as int, now.second as int, "%Y%m%dT%H%M%S"@),
        r.created_at@ == formatted_local(now.day as int, now.hour as int, now.minute as int, now.second as int, "%Y-%m-%d"@),
        r.name == name,
        r.frequency == frequency,
        r.completions@.len() == 0,
{
    let id = format_local(now, "%Y%m%dT%H%M%S");
    let created_at = format_local(now, "%Y-%m-%d");
    Habit { id, name, frequency, created_at, completions: Vec::new() }
}

/// A new habit created now (local time).
pub fn new_habit(name: String, frequency: HabitFrequency) -> (r: Habit)
    ensures
        r.name == name,
        r.frequency == frequency,
        r.completions@.len() == 0,
        exists|t: LocalTime|
            t.wf() && valid_day(t.day as int) && r.id@ == #[trigger] formatted_local(
                t.day as int,
                t.hour as int,
                t.minute as int,
                t.second as int,
                "%Y%m%dT%H%M%S"@,
            ) && r.created_at@ == formatted_local(
                t.day as int,
                t.hour as int,
                t.minute as int,
                t.second as int,
                "%Y-%m-%d"@,
            ),
{
    let now = local_now();
    new_habit_at(name, frequency, now)
}

} // verus!

verus! {

proof fn lemma_first_ge(s: Seq<int>, x: int, j: int)
    requires
        0 <= j <= s.len(),
        forall|k: int| 0 <= k < j ==> s[k] < x,
        j == s.len() || s[j] >= x,
    ensures
        first_ge(s, x) == j,
    decreases s.len(),
{
    if s.len() > 0 && j > 0 {
        let t = s.drop_first();
        assert forall|k: int| 0 <= k < j - 1 implies t[k] < x by {
            assert(t[k] == s[k + 1]);
        }
        if j < s.len() {
            assert(t[j - 1] == s[j]);
        }
        lemma_first_ge(t, x, j - 1);
    }
}

/// Puts `x` into the periods `v` as `insert_period` says.
fn insert_period_into(v: &mut Vec<i32>, x: i32)
    ensures
        ints(final(v)@) == insert_period(ints(old(v)@), x as int),
        final(v)@.len() <= old(v)@.len() + 1,
        forall|k: int| 0 <= k < final(v)@.len() ==> #[trigger] final(v)@[k] == x || old(v)@.contains(final(v)@[k]),
{
    let ghost s = ints(v@);
    let mut j: usize = 0;
    while j < v.len() && v[j] < x
        invariant
            j <= v.len(),
            s == ints(v@),
            v@ == old(v)@,
            forall|k: int| 0 <= k < j ==> v@[k] < x,
        decreases v.len() - j,
    {
        j = j + 1;
    }
    proof {
        assert forall|k: int| 0 <= k < j implies s[k] < x by {
            assert(s[k] == v@[k] as int);
        }
        lemma_first_ge(s, x as int, j as int);
    }
    if j < v.len() && v[j] == x {
        return;
    }
    v.insert(j, x);
    proof {
        assert(ints(v@) =~= s.insert(j as int, x as int));
        assert forall|k: int| 0 <= k < v@.len() implies #[trigger] v@[k] == x || old(v)@.contains(v@[k]) by {
            if k < j {
                assert(v@[k] == old(v)@[k]);
            } else if k > j {
                assert(v@[k] == old(v)@[k - 1]);
            }
        }
    }
}

/// `following_period` for a period start that chrono represents.
fn following_period_of(frequency: &HabitFrequency, start: i32) -> (r: i32)
    requires
        MIN_DAY - 6 <= start <= MAX_DAY,
        *frequency == HabitFrequency::Monthly ==> valid_day(start as int),
    ensures
        r == following_period(*frequency, start as int),
{
    match frequency {
        HabitFrequency::Weekdays => {
            let next = start + 1;
            match weekday_of_day(next) {
                Weekday::Sat => next + 2,
                Weekday::Sun => next + 1,
                _ => next,
            }
        },
        HabitFrequency::Daily => start + 1,
        HabitFrequency::Weekly => {
            let after = start + 7;
            after - days_from_monday_of(after)
        },
        HabitFrequency::Monthly => {
            let after = if start <= MAX_DAY - 31 {
                let later = start + 31;
                let d = day_of_month(later);
                later - d as i32 + 1
            } else {
                start
            };
            period_start(frequency, after)
        },
    }
}

/// The longest run of consecutive done periods (days, weeks, months, or weekdays
/// skipping weekends) in the habit's history; 0 without a completion that counts.
pub fn best_streak(habit: &Habit) -> (r: u32)
    requires
        habit.completions.len() <= u32::MAX,
    ensures
        r == best_streak_spec(habit.frequency, strs(habit.completions@)),
{
    let ghost f = habit.frequency;
    let ghost cs = strs(habit.completions@);
    let mut periods: Vec<i32> = Vec::new();
    let mut i: usize = 0;
    while i < habit.completions.len()
        invariant
            i <= habit.completions.len(),
            f == habit.frequency,
            cs == strs(habit.completions@),
            ints(periods@) == periods_of(f, cs.take(i as int)),
            periods@.len() <= i,
            forall|k: int| 0 <= k < periods@.len() ==> MIN_DAY - 6 <= #[trigger] periods@[k] <= MAX_DAY,
            forall|k: int|
                0 <= k < periods@.len() && f == HabitFrequency::Monthly ==> valid_day(
                    #[trigger] periods@[k] as int,
                ),
        decreases habit.completions.len() - i,
    {
        assert(cs.take(i + 1).drop_last() =~= cs.take(i as int));
        assert(cs.take(i + 1).last() == cs[i as int]);
        match parse_ymd(habit.completions[i].as_str()) {
            Some(d) => {
                let counts = !(habit.frequency == HabitFrequency::Weekdays && weekday_is_weekend(
                    weekday_of_day(d),
                ));
                if counts {
                    let p = period_start(&habit.frequency, d);
                    let ghost before = periods@;
                    insert_period_into(&mut periods, p);
                    assert forall|k: int| 0 <= k < periods@.len() implies MIN_DAY - 6
                        <= #[trigger] periods@[k] <= MAX_DAY by {
                        if periods@[k] != p {
                            let m = choose|m: int| 0 <= m < before.len() && before[m] == periods@[k];
                            assert(MIN_DAY - 6 <= before[m] <= MAX_DAY);
                        }
                    }
                    assert forall|k: int|
                        0 <= k < periods@.len() && f == HabitFrequency::Monthly implies valid_day(
                        #[trigger] periods@[k] as int,
                    ) by {
                        if periods@[k] != p {
                            let m = choose|m: int| 0 <= m < before.len() && before[m] == periods@[k];
                            assert(valid_day(before[m] as int));
                        }
                    }
                }
            },
            None => {},
        }
        i = i + 1;
    }
    assert(cs.take(habit.completions.len() as int) =~= cs);
    let ghost p = ints(periods@);
    if periods.len() == 0 {
        return 0;
    }
    let mut best: u32 = 1;
    let mut run: u32 = 1;
    let mut k: usize = 1;
    while k < periods.len()
        invariant
            1 <= k <= periods@.len(),
            periods@.len() <= u32::MAX,
            p == ints(periods@),
            f == habit.frequency,
            1 <= run <= k,
            1 <= best <= k,
            run == run_at(f, p, k - 1),
            best == best_through(f, p, k - 1),
            forall|m: int| 0 <= m < periods@.len() ==> MIN_DAY - 6 <= #[trigger] periods@[m] <= MAX_DAY,
            forall|m: int|
                0 <= m < periods@.len() && f == HabitFrequency::Monthly ==> valid_day(
                    #[trigger] periods@[m] as int,
                ),
        decreases periods@.len() - k,
    {
        let w0 = periods[k - 1];
        let w1 = periods[k];
        let next = following_period_of(&habit.frequency, w0);
        if w1 == next {
            run = run + 1;
        } else {
            run = 1;
        }
        if run > best {
            best = run;
        }
        k = k + 1;
    }
    best
}

} // verus!

verus! {

/// Whether `s` increases strictly.
pub open spec fn strictly_increasing(s: Seq<int>) -> bool {
    forall|i: int, j: int| 0 <= i < j < s.len() ==> s[i] < s[j]
}

proof fn lemma_first_ge_bounds(s: Seq<int>, x: int)
    requires
        strictly_increasing(s),
    ensures
        first_ge(s, x) <= s.len(),
        forall|k: int| 0 <= k < first_ge(s, x) ==> s[k] < x,
        first_ge(s, x) < s.len() ==> s[first_ge(s, x) as int] >= x,
    decreases s.len(),
{
    if s.len() > 0 && s[0] < x {
        let t = s.drop_first();
        assert forall|i: int, j: int| 0 <= i < j < t.len() implies t[i] < t[j] by {
            assert(t[i] == s[i + 1] && t[j] == s[j + 1]);
        }
        lemma_first_ge_bounds(t, x);
        assert forall|k: int| 0 <= k < first_ge(s, x) implies s[k] < x by {
            if k > 0 {
                assert(s[k] == t[k - 1]);
            }
        }
        if first_ge(s, x) < s.len() {
            assert(s[first_ge(s, x) as int] == t[first_ge(t, x) as int]);
        }
    }
}

proof fn lemma_insert_period(s: Seq<int>, x: int)
    requires
        strictly_increasing(s),
    ensures
        strictly_increasing(insert_period(s, x)),
        forall|y: int| #[trigger] insert_period(s, x).contains(y) <==> s.contains(y) || y == x,
{
    lemma_first_ge_bounds(s, x);
    let j = first_ge(s, x) as int;
    if !(j < s.len() && s[j] == x) {
        let t = s.insert(j, x);
        assert forall|a: int, b: int| 0 <= a < b < t.len() implies t[a] < t[b] by {
            if b < j {
                assert(t[a] == s[a] && t[b] == s[b]);
            } else if b == j {
                assert(t[a] == s[a]);
            } else if a < j {
                assert(t[a] == s[a] && t[b] == s[b - 1]);
                assert(s[b - 1] >= x);
            } else if a == j {
                assert(t[b] == s[b - 1]);
            } else {
                assert(t[a] == s[a - 1] && t[b] == s[b - 1]);
            }
        }
        assert forall|y: int| #[trigger] t.contains(y) <==> s.contains(y) || y == x by {
            if t.contains(y) {
                let m = choose|m: int| 0 <= m < t.len() && t[m] == y;
                if m < j {
                    assert(s[m] == y);
                } else if m > j {
                    assert(s[m - 1] == y);
                }
            }
            if s.contains(y) {
                let m = choose|m: int| 0 <= m < s.len() && s[m] == y;
                if m < j {
                    assert(t[m] == y);
                } else {
                    assert(t[m + 1] == y);
                }
            }
            if y == x {
                assert(t[j] == y);
            }
        }
    } else {
        assert(s.contains(x));
    }
}

/// The periods a best streak is counted over are distinct and in increasing order,
/// and they are exactly the periods of the completions that count.
pub proof fn law_periods_sorted_unique(f: HabitFrequency, cs: Seq<Seq<char>>)
    ensures
        strictly_increasing(periods_of(f, cs)),
        forall|p: int|
            #[trigger] periods_of(f, cs).contains(p) <==> exists|i: int|
                0 <= i < cs.len() && #[trigger] completion_period(f, cs[i]) == Some(p),
    decreases cs.len(),
{
    if cs.len() > 0 {
        let d = cs.drop_last();
        law_periods_sorted_unique(f, d);
        let rest = periods_of(f, d);
        match completion_period(f, cs.last()) {
            Some(x) => {
                lemma_insert_period(rest, x);
            },
            None => {},
        }
        assert forall|p: int|
            #[trigger] periods_of(f, cs).contains(p) <==> exists|i: int|
                0 <= i < cs.len() && #[trigger] completion_period(f, cs[i]) == Some(p) by {
            if periods_of(f, cs).contains(p) {
                if rest.contains(p) {
                    let i = choose|i: int| 0 <= i < d.len() && #[trigger] completion_period(f, d[i]) == Some(p);
                    assert(cs[i] == d[i]);
                } else {
                    assert(completion_period(f, cs[cs.len() - 1]) == Some(p));
                }
            }
            if exists|i: int| 0 <= i < cs.len() && #[trigger] completion_period(f, cs[i]) == Some(p) {
                let i = choose|i: int| 0 <= i < cs.len() && #[trigger] completion_period(f, cs[i]) == Some(p);
                if i < cs.len() - 1 {
                    assert(d[i] == cs[i]);
                    assert(rest.contains(p));
                }
            }
        }
    }
}

proof fn lemma_best_through_bounds(f: HabitFrequency, p: Seq<int>, i: int)
    requires
        i >= 0,
    ensures
        1 <= run_at(f, p, i) <= i + 1,
        1 <= best_through(f, p, i) <= i + 1,
        run_at(f, p, i) <= best_through(f, p, i),
    decreases i,
{
    if i > 0 {
        lemma_best_through_bounds(f, p, i - 1);
    }
}

/// The best streak is at least 1 when some completion counts, 0 otherwise, and never
/// more than the number of distinct periods done.
pub proof fn law_best_streak_bounds(f: HabitFrequency, cs: Seq<Seq<char>>)
    ensures
        best_streak_spec(f, cs) <= periods_of(f, cs).len(),
        (best_streak_spec(f, cs) == 0) == (periods_of(f, cs).len() == 0),
{
    let p = periods_of(f, cs);
    if p.len() > 0 {
        lemma_best_through_bounds(f, p, p.len() - 1);
    }
}

/// Whether a habit counts as done on a day depends only on the period the day falls in.
pub proof fn law_completion_follows_period(f: HabitFrequency, cs: Seq<Seq<char>>, a: int, b: int)
    requires
        period_start_spec(f, a) == period_start_spec(f, b),
    ensures
        completed_spec(f, cs, a) == completed_spec(f, cs, b),
{
}

} // verus!

verus! {

/// A weekly period starts on the Monday of the week, at most six days before the day.
pub proof fn law_weekly_period_starts_monday(day: int)
    ensures
        weekday_of(period_start_spec(HabitFrequency::Weekly, day)) == Weekday::Mon,
        day - 6 <= period_start_spec(HabitFrequency::Weekly, day) <= day,
{
    let r = (day - 1) % 7;
    assert(0 <= r < 7);
    assert(weekday_index(weekday_of(day)) == r);
    let s = day - r;
    assert((s - 1) % 7 == 0) by {
        assert(day - 1 == 7 * ((day - 1) / 7) + r);
        assert(s - 1 == 7 * ((day - 1) / 7));
    }
}

} // verus!

verus! {

/// The mark of one day in a habit's history strip: `·` for a weekend day of a weekday
/// habit, `█` when its period was done, `░` otherwise.
pub open spec fn day_mark(f: HabitFrequency, cs: Seq<Seq<char>>, day: int) -> char {
    if f == HabitFrequency::Weekdays && is_weekend(weekday_of(day)) {
        '·'
    } else if completed_spec(f, cs, day) {
        '█'
    } else {
        '░'
    }
}

/// The marks of the `n` days ending at `today`, oldest first.
pub open spec fn history_marks(f: HabitFrequency, cs: Seq<Seq<char>>, today: int, n: nat) -> Seq<char> {
    Seq::new(n, |i: int| day_mark(f, cs, today - (n - 1 - i)))
}

/// The habit's last 14 days, oldest first (see `day_mark`).
pub fn history_strip(habit: &Habit, today: i32) -> (r: String)
    requires
        valid_day(today - 13),
        valid_day(today as int),
    ensures
        r@ == history_marks(habit.frequency, strs(habit.completions@), today as int, 14),
{
    let ghost f = habit.frequency;
    let ghost cs = strs(habit.completions@);
    let mut v: Vec<char> = Vec::new();
    let mut k: i32 = 0;
    while k < 14
        invariant
            0 <= k <= 14,
            valid_day(today - 13),
            valid_day(today as int),
            f == habit.frequency,
            cs == strs(habit.completions@),
            v@ == history_marks(f, cs, today as int, 14).take(k as int),
        decreases 14 - k,
    {
        let day = today - (13 - k);
        let mark = if habit.frequency == HabitFrequency::Weekdays && weekday_is_weekend(weekday_of_day(day)) {
            '·'
        } else if is_completed_in_period(habit, day) {
            '█'
        } else {
            '░'
        };
        v.push(mark);
        k = k + 1;
        assert(v@ =~= history_marks(f, cs, today as int, 14).take(k as int));
    }
    assert(history_marks(f, cs, today as int, 14).take(14) =~= history_marks(f, cs, today as int, 14));
    crate::text::from_chars(&v)
}

/// How many habits are due on `day`, and how many of those are done.
pub open spec fn progress_counts(hs: Seq<Habit>, day: int) -> (nat, nat)
    decreases hs.len(),
{
    if hs.len() == 0 {
        (0, 0)
    } else {
        let (due, done) = progress_counts(hs.drop_last(), day);
        let h = hs.last();
        if due_on(h.frequency, day) {
            (due + 1, if completed_spec(h.frequency, strs(h.completions@), day) {
                done + 1
            } else {
                done
            })
        } else {
            (due, done)
        }
    }
}

/// Today's progress over all habits: `(done, due)` (see `progress_counts`).
pub fn today_progress(habits: &Vec<Habit>, today: i32) -> (r: (usize, usize))
    requires
        valid_day(today as int),
    ensures
        (r.1 as nat, r.0 as nat) == progress_counts(habits@, today as int),
        r.0 <= r.1 <= habits@.len(),
{
    let mut due: usize = 0;
    let mut done: usize = 0;
    let mut i: usize = 0;
    while i < habits.len()
        invariant
            i <= habits@.len(),
            valid_day(today as int),
            done <= due <= i,
            (due as nat, done as nat) == progress_counts(habits@.take(i as int), today as int),
        decreases habits@.len() - i,
    {
        assert(habits@.take(i + 1).drop_last() =~= habits@.take(i as int));
        let h = &habits[i];
        if is_due_on(h, today) {
            due = due + 1;
            if is_completed_in_period(h, today) {
                done = done + 1;
            }
        }
        i = i + 1;
    }
    assert(habits@.take(habits@.len() as int) =~= habits@);
    (done, due)
}

/// The number of cells (of 20) of today's progress bar.
pub open spec fn progress_cells(done: nat, due: nat) -> nat {
    if due > 0 {
        done * 20 / due
    } else {
        0
    }
}

pub fn progress_cells_of(done: usize, due: usize) -> (r: usize)
    requires
        done <= due,
        due * 20 <= usize::MAX,
    ensures
        r == progress_cells(done as nat, due as nat),
        r <= 20,
{
    if due > 0 {
        let r = done * 20 / due;
        assert(r <= 20) by (nonlinear_arith)
            requires
                r as int == (done as int * 20) / (due as int),
                done <= due,
                due > 0,
        ;
        r
    } else {
        0
    }
}

} // verus!

verus! {

/// The done periods that start no later than `x`.
spec fn done_through(f: HabitFrequency, cs: Seq<Seq<char>>, x: int) -> Set<int> {
    periods_of(f, cs).to_set().filter(|p: int| p <= x)
}

proof fn lemma_done_through(f: HabitFrequency, cs: Seq<Seq<char>>, y: int, x: int)
    requires
        y <= x,
    ensures
        done_through(f, cs, y).finite(),
        done_through(f, cs, y).len() <= done_through(f, cs, x).len(),
        y < x && periods_of(f, cs).to_set().contains(x) ==> done_through(f, cs, y).len() + 1 <= done_through(
            f,
            cs,
            x,
        ).len(),
{
    let s = periods_of(f, cs).to_set();
    vstd::seq_lib::seq_to_set_is_finite(periods_of(f, cs));
    s.lemma_len_filter(|p: int| p <= x);
    s.lemma_len_filter(|p: int| p <= y);
    let ly = done_through(f, cs, y);
    let lx = done_through(f, cs, x);
    assert(ly.subset_of(lx));
    vstd::set_lib::lemma_len_subset(ly, lx);
    if y < x && s.contains(x) {
        let ins = ly.insert(x);
        assert(!ly.contains(x));
        assert(ins.len() == ly.len() + 1);
        assert(ins.subset_of(lx));
        vstd::set_lib::lemma_len_subset(ins, lx);
    }
}

proof fn lemma_streak_walk_bounded(f: HabitFrequency, cs: Seq<Seq<char>>, today: int, cursor: int, fuel: nat)
    requires
        f != HabitFrequency::Monthly,
    ensures
        streak_walk(f, cs, today, cursor, fuel) <= done_through(f, cs, period_start_spec(f, cursor)).len(),
    decreases fuel,
{
    let x = period_start_spec(f, cursor);
    lemma_done_through(f, cs, x, x);
    if fuel > 0 {
        if f == HabitFrequency::Weekdays && is_weekend(weekday_of(cursor)) {
            lemma_streak_walk_bounded(f, cs, today, cursor - 1, (fuel - 1) as nat);
            lemma_done_through(f, cs, cursor - 1, cursor);
        } else {
            let prev = prev_period_spec(f, cursor);
            let y = period_start_spec(f, prev);
            assert(weekday_index(weekday_of(prev)) >= 0);
            assert(weekday_index(weekday_of(cursor)) >= 0);
            assert(y < x);
            lemma_streak_walk_bounded(f, cs, today, prev, (fuel - 1) as nat);
            lemma_done_through(f, cs, y, x);
            if completed_spec(f, cs, cursor) {
                let i = choose|i: int| 0 <= i < cs.len() && #[trigger] in_period(f, cs[i], x);
                assert(completion_period(f, cs[i]) == Some(x));
                law_periods_sorted_unique(f, cs);
                assert(periods_of(f, cs).contains(x));
                assert(periods_of(f, cs).to_set().contains(x));
            }
        }
    }
}

/// The current streak counts each done period at most once: for a daily, weekday
/// or weekly habit, the streak counted back from `today` is never more than the
/// number of distinct periods among the completions.
pub proof fn law_streak_at_most_done_periods(f: HabitFrequency, cs: Seq<Seq<char>>, today: int, fuel: nat)
    requires
        f != HabitFrequency::Monthly,
    ensures
        streak_walk(f, cs, today, today, fuel) <= periods_of(f, cs).len(),
{
    lemma_streak_walk_bounded(f, cs, today, today, fuel);
    let p = periods_of(f, cs);
    law_periods_sorted_unique(f, cs);
    assert(p.no_duplicates()) by {
        assert forall|i: int, j: int| 0 <= i < p.len() && 0 <= j < p.len() && i != j implies p[i] != p[j] by {
            if i < j {
                assert(p[i] < p[j]);
            } else {
                assert(p[j] < p[i]);
            }
        }
    }
    p.unique_seq_to_set();
    vstd::seq_lib::seq_to_set_is_finite(p);
    let d = done_through(f, cs, period_start_spec(f, today));
    assert(d.subset_of(p.to_set()));
    vstd::set_lib::lemma_len_subset(d, p.to_set());
}

/// The Monday of the week `m` weeks before the week of `x`, reached from `x` or from
/// that week's own Monday.
proof fn lemma_week_shift(x: int, m: int)
    ensures
        period_start_spec(HabitFrequency::Weekly, x) <= x,
        period_start_spec(HabitFrequency::Weekly, x - 7 * m) == period_start_spec(HabitFrequency::Weekly, x) - 7 * m,
        period_start_spec(HabitFrequency::Weekly, period_start_spec(HabitFrequency::Weekly, x) - 7 * m)
            == period_start_spec(HabitFrequency::Weekly, x) - 7 * m,
{
    let q = (x - 1) / 7;
    let r = (x - 1) % 7;
    assert(0 <= r < 7);
    assert(x - 1 == q * 7 + r);
    assert(weekday_index(weekday_of(x)) == r);
    vstd::arithmetic::div_mod::lemma_fundamental_div_mod_converse(x - 7 * m - 1, 7, q - m, r);
    assert(weekday_index(weekday_of(x - 7 * m)) == r);
    let s = x - r;
    vstd::arithmetic::div_mod::lemma_fundamental_div_mod_converse(s - 7 * m - 1, 7, q - m, 0);
    assert(weekday_index(weekday_of(s - 7 * m)) == 0);
}

proof fn lemma_weekly_run(cs: Seq<Seq<char>>, today: int, cursor: int, j: nat, k: nat, fuel: nat)
    requires
        period_start_spec(HabitFrequency::Weekly, cursor) == period_start_spec(HabitFrequency::Weekly, today) - 7
            * j,
        fuel > k,
        forall|i: int| 0 <= i < k ==> #[trigger] completed_spec(HabitFrequency::Weekly, cs, today - 7 * (j + i)),
        !completed_spec(HabitFrequency::Weekly, cs, today - 7 * (j + k)),
        k == 0 ==> cursor != today,
    ensures
        streak_walk(HabitFrequency::Weekly, cs, today, cursor, fuel) == k,
    decreases k,
{
    let f = HabitFrequency::Weekly;
    lemma_week_shift(today, j as int);
    law_completion_follows_period(f, cs, cursor, today - 7 * j);
    if k == 0 {
        assert(!completed_spec(f, cs, today - 7 * (j + k)));
    } else {
        assert(completed_spec(f, cs, today - 7 * (j + 0)));
        let prev = prev_period_spec(f, cursor);
        assert(prev == period_start_spec(f, today) - 7 * (j + 1));
        lemma_week_shift(today, (j + 1) as int);
        assert forall|i: int| 0 <= i < k - 1 implies #[trigger] completed_spec(f, cs, today - 7 * ((j + 1) + i)) by {
            assert(completed_spec(f, cs, today - 7 * (j + (i + 1))));
            assert(today - 7 * ((j + 1) + i) == today - 7 * (j + (i + 1)));
        }
        assert(today - 7 * ((j + 1) + (k - 1)) == today - 7 * (j + k));
        lemma_weekly_run(cs, today, prev, (j + 1) as nat, (k - 1) as nat, (fuel - 1) as nat);
    }
}

/// A weekly streak counts the run of done weeks that ends this week: when the `k`
/// weeks ending with the week of `today` are done (`k >= 1`) and the week before
/// them is not, the streak is `k`; when this week is not done yet, the run ending
/// last week counts the same way (`k >= 0`). The look back must reach past the run.
pub proof fn law_weekly_streak_counts_done_weeks(cs: Seq<Seq<char>>, today: int, k: nat, fuel: nat)
    ensures
        k >= 1 && fuel > k && (forall|i: int|
            0 <= i < k ==> #[trigger] completed_spec(HabitFrequency::Weekly, cs, today - 7 * i)) && !completed_spec(
            HabitFrequency::Weekly,
            cs,
            today - 7 * k,
        ) ==> streak_walk(HabitFrequency::Weekly, cs, today, today, fuel) == k,
        fuel > k + 1 && !completed_spec(HabitFrequency::Weekly, cs, today) && (forall|i: int|
            1 <= i <= k ==> #[trigger] completed_spec(HabitFrequency::Weekly, cs, today - 7 * i)) && !completed_spec(
            HabitFrequency::Weekly,
            cs,
            today - 7 * (k + 1),
        ) ==> streak_walk(HabitFrequency::Weekly, cs, today, today, fuel) == k,
{
    let f = HabitFrequency::Weekly;
    if k >= 1 && fuel > k && (forall|i: int| 0 <= i < k ==> #[trigger] completed_spec(f, cs, today - 7 * i))
        && !completed_spec(f, cs, today - 7 * k) {
        assert forall|i: int| 0 <= i < k implies #[trigger] completed_spec(f, cs, today - 7 * (0 + i)) by {
            assert(completed_spec(f, cs, today - 7 * i));
        }
        lemma_weekly_run(cs, today, today, 0, k, fuel);
    }
    if fuel > k + 1 && !completed_spec(f, cs, today) && (forall|i: int|
        1 <= i <= k ==> #[trigger] completed_spec(f, cs, today - 7 * i)) && !completed_spec(
        f,
        cs,
        today - 7 * (k + 1),
    ) {
        lemma_week_shift(today, 1);
        let prev = prev_period_spec(f, today);
        assert forall|i: int| 0 <= i < k implies #[trigger] completed_spec(f, cs, today - 7 * (1 + i)) by {
            assert(completed_spec(f, cs, today - 7 * (i + 1)));
        }
        assert(today - 7 * (1 + k) == today - 7 * (k + 1));
        lemma_weekly_run(cs, today, prev, 1, k, (fuel - 1) as nat);
    }
}

proof fn lemma_daily_run(cs: Seq<Seq<char>>, today: int, j: nat, k: nat, fuel: nat)
    requires
        fuel > k,
        forall|i: int| 0 <= i < k ==> #[trigger] completed_spec(HabitFrequency::Daily, cs, today - (j + i)),
        !completed_spec(HabitFrequency::Daily, cs, today - (j + k)),
        k == 0 ==> j > 0,
    ensures
        streak_walk(HabitFrequency::Daily, cs, today, today - j, fuel) == k,
    decreases k,
{
    let f = HabitFrequency::Daily;
    if k > 0 {
        assert(completed_spec(f, cs, today - (j + 0)));
        assert forall|i: int| 0 <= i < k - 1 implies #[trigger] completed_spec(f, cs, today - ((j + 1) + i)) by {
            assert(completed_spec(f, cs, today - (j + (i + 1))));
        }
        lemma_daily_run(cs, today, (j + 1) as nat, (k - 1) as nat, (fuel - 1) as nat);
        assert(today - (j + 1) == prev_period_spec(f, today - j));
    }
}

/// A daily streak counts the run of done days that ends today: when the `k` days
/// ending with `today` are done (`k >= 1`) and the day before them is not, the
/// streak is `k`; when today is not done yet, the run ending yesterday counts the
/// same way (`k >= 0`). The look back must reach past the run.
pub proof fn law_daily_streak_counts_done_days(cs: Seq<Seq<char>>, today: int, k: nat, fuel: nat)
    ensures
        k >= 1 && fuel > k && (forall|i: int|
            0 <= i < k ==> #[trigger] completed_spec(HabitFrequency::Daily, cs, today - i)) && !completed_spec(
            HabitFrequency::Daily,
            cs,
            today - k,
        ) ==> streak_walk(HabitFrequency::Daily, cs, today, today, fuel) == k,
        fuel > k + 1 && !completed_spec(HabitFrequency::Daily, cs, today) && (forall|i: int|
            1 <= i <= k ==> #[trigger] completed_spec(HabitFrequency::Daily, cs, today - i)) && !completed_spec(
            HabitFrequency::Daily,
            cs,
            today - (k + 1),
        ) ==> streak_walk(HabitFrequency::Daily, cs, today, today, fuel) == k,
{
    let f = HabitFrequency::Daily;
    if k >= 1 && fuel > k && (forall|i: int| 0 <= i < k ==> #[trigger] completed_spec(f, cs, today - i))
        && !completed_spec(f, cs, today - k) {
        assert forall|i: int| 0 <= i < k implies #[trigger] completed_spec(f, cs, today - (0 + i)) by {
            assert(completed_spec(f, cs, today - i));
        }
        assert(today - 0 == today);
        lemma_daily_run(cs, today, 0, k, fuel);
    }
    if fuel > k + 1 && !completed_spec(f, cs, today) && (forall|i: int|
        1 <= i <= k ==> #[trigger] completed_spec(f, cs, today - i)) && !completed_spec(f, cs, today - (k + 1)) {
        assert forall|i: int| 0 <= i < k implies #[trigger] completed_spec(f, cs, today - (1 + i)) by {
            assert(completed_spec(f, cs, today - (i + 1)));
        }
        lemma_daily_run(cs, today, 1, k, (fuel - 1) as nat);
    }
}

} // verus!
