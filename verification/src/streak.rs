use vstd::prelude::*;

verus! {

/// The run of days without an unblock inside the schedule. Days are counted as
/// chrono's `num_days_from_ce` counts them.
#[derive(Debug, Clone)]
pub struct StreakState {
    pub current: u32,
    pub best: u32,
    pub last_clean: Option<i32>,
    pub last_break: Option<i32>,
    pub last_break_reason: Option<String>,
    pub total_breaks: u32,
}

impl StreakState {
    /// The best run is never shorter than the current one.
    pub open spec fn wf(self) -> bool {
        self.best >= self.current
    }
}

impl Default for StreakState {
    fn default() -> (r: Self)
        ensures
            r.current == 0,
            r.best == 0,
            r.last_clean is None,
            r.last_break is None,
            r.last_break_reason is None,
            r.total_breaks == 0,
            r.wf(),
    {
        StreakState {
            current: 0,
            best: 0,
            last_clean: None,
            last_break: None,
            last_break_reason: None,
            total_breaks: 0,
        }
    }
}

/// Counts `today` as a clean day, once: the current run grows by one and the best
/// run follows it. Returns whether the state changed (and must be saved).
pub fn record_clean_day(state: &mut StreakState, today: i32) -> (changed: bool)
    requires
        old(state).last_clean != Some(today) ==> old(state).current < u32::MAX,
    ensures
        changed == (old(state).last_clean != Some(today)),
        !changed ==> *final(state) == *old(state),
        changed ==> {
            &&& final(state).current == old(state).current + 1
            &&& final(state).best == (if old(state).best >= old(state).current + 1 {
                old(state).best as int
            } else {
                old(state).current + 1
            })
            &&& final(state).last_clean == Some(today)
            &&& final(state).last_break == old(state).last_break
            &&& final(state).last_break_reason == old(state).last_break_reason
            &&& final(state).total_breaks == old(state).total_breaks
        },
        old(state).wf() ==> final(state).wf(),
        changed ==> final(state).wf(),
{
    if state.last_clean != Some(today) {
        state.current = state.current + 1;
        if state.best < state.current {
            state.best = state.current;
        }
        state.last_clean = Some(today);
        true
    } else {
        false
    }
}


/// Whether the daemon, having last looked on `last_seen` and now seeing `today`,
/// credits a clean day: only when it saw the date change while running (never on
/// its first look), and at most once a day.
pub open spec fn credits_clean_day(state: StreakState, last_seen: Option<i32>, today: i32) -> bool {
    last_seen matches Some(d) && d != today && state.last_clean != Some(today)
}

/// What the daemon does with the streak when it looks at the date: on a change of
/// date seen while running, `today` is counted as a clean day (see
/// `record_clean_day`); otherwise nothing changes. Returns whether the state changed.
pub fn observe_day(state: &mut StreakState, last_seen: Option<i32>, today: i32) -> (changed: bool)
    requires
        credits_clean_day(*old(state), last_seen, today) ==> old(state).current < u32::MAX,
    ensures
        changed == credits_clean_day(*old(state), last_seen, today),
        !changed ==> *final(state) == *old(state),
        changed ==> {
            &&& final(state).current == old(state).current + 1
            &&& final(state).best == (if old(state).best >= old(state).current + 1 {
                old(state).best as int
            } else {
                old(state).current + 1
            })
            &&& final(state).last_clean == Some(today)
            &&& final(state).last_break == old(state).last_break
            &&& final(state).last_break_reason == old(state).last_break_reason
            &&& final(state).total_breaks == old(state).total_breaks
        },
        old(state).wf() ==> final(state).wf(),
{
    match last_seen {
        Some(d) => {
            if d != today {
                record_clean_day(state, today)
            } else {
                false
            }
        },
        None => false,
    }
}

} // verus!

verus! {

/// Records an unblock inside the schedule on `today` with its reason: the current
/// run ends, and the break is counted.
pub fn record_break(state: &mut StreakState, today: i32, reason: &str)
    requires
        old(state).total_breaks < u32::MAX,
    ensures
        final(state).current == 0,
        final(state).best == old(state).best,
        final(state).last_clean == old(state).last_clean,
        final(state).last_break == Some(today),
        final(state).last_break_reason matches Some(r) && r@ == reason@,
        final(state).total_breaks == old(state).total_breaks + 1,
        final(state).wf(),
{
    state.current = 0;
    state.total_breaks = state.total_breaks + 1;
    state.last_break = Some(today);
    state.last_break_reason = Some(String::from_str(reason));
}

} // verus!
