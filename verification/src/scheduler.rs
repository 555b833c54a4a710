use vstd::prelude::*;
use crate::calendar::{Weekday, is_weekend, weekday_of, weekday_of_day, weekday_is_weekend};
use crate::config::ScheduleConfig;
use crate::num::{decimal, signed_decimal, signed_decimal_chars, tdiv, trem};
use crate::text::{extend, from_chars};

verus! {

/// A local wall-clock time: the day (counted as chrono's `num_days_from_ce`) and the
/// hour, minute and second within it.
#[derive(Debug, Clone, Copy, PartialEq, Eq, Structural)]
pub struct LocalTime {
    pub day: i32,
    pub hour: u32,
    pub minute: u32,
    pub second: u32,
}

impl LocalTime {
    /// The fields are in their ranges.
    pub open spec fn wf(self) -> bool {
        self.hour < 24 && self.minute < 60 && self.second < 60
    }

    /// Seconds since the start of day 0.
    pub open spec fn seconds(self) -> int {
        self.day * 86400 + self.hour * 3600 + self.minute * 60 + self.second
    }
}

/// Whether the schedule blocks at `hour` on a day that is `weekday`.
pub open spec fn block_time(c: ScheduleConfig, weekday: Weekday, hour: int) -> bool {
    if !c.block_weekends && is_weekend(weekday) {
        false
    } else if c.start < c.end {
        c.start <= hour && hour < c.end
    } else {
        hour >= c.start || hour < c.end
    }
}

/// Whether the schedule blocks at `now`.
pub open spec fn block_time_at(c: ScheduleConfig, now: LocalTime) -> bool {
    block_time(c, weekday_of(now.day as int), now.hour as int)
}

/// A Saturday moves to the next Monday, a Sunday to the next Monday.
pub open spec fn skip_weekend(day: int) -> int {
    if weekday_of(day) == Weekday::Sat {
        day + 2
    } else if weekday_of(day) == Weekday::Sun {
        day + 1
    } else {
        day
    }
}

/// When the schedule next changes state after `now`: the next time the end hour
/// (while blocking) or the start hour (otherwise) strikes, later than `now`; when
/// not blocking and weekends are free, moved past a weekend. None when that hour
/// is not an hour of the day.
pub open spec fn next_transition_spec(c: ScheduleConfig, now: LocalTime) -> Option<LocalTime> {
    let blocking = block_time_at(c, now);
    let h: int = if blocking {
        c.end as int
    } else {
        c.start as int
    };
    if h >= 24 {
        None
    } else {
        let same_day = LocalTime { day: now.day, hour: h as u32, minute: 0, second: 0 };
        let d1: int = if same_day.seconds() <= now.seconds() {
            now.day + 1
        } else {
            now.day as int
        };
        let d2: int = if !blocking && !c.block_weekends {
            skip_weekend(d1)
        } else {
            d1
        };
        Some(LocalTime { day: d2 as i32, hour: h as u32, minute: 0, second: 0 })
    }
}

/// Whether the schedule blocks at `now`.
pub fn is_block_time(config: &ScheduleConfig, now: &LocalTime) -> (r: bool)
    ensures
        r == block_time_at(*config, *now),
{
    let w = weekday_of_day(now.day);
    if !config.block_weekends && weekday_is_weekend(w) {
        return false;
    }
    let hour = now.hour;
    if config.start < config.end {
        hour >= config.start as u32 && hour < config.end as u32
    } else {
        hour >= config.start as u32 || hour < config.end as u32
    }
}

/// When the schedule next changes state (see `next_transition_spec`).
pub fn next_transition(config: &ScheduleConfig, now: &LocalTime) -> (r: Option<LocalTime>)
    requires
        now.wf(),
        now.day < i32::MAX - 3,
    ensures
        r == next_transition_spec(*config, *now),
{
    let blocking = is_block_time(config, now);
    let h: u32 = if blocking {
        config.end as u32
    } else {
        config.start as u32
    };
    if h >= 24 {
        return None;
    }
    let mut day: i32 = now.day;
    if h <= now.hour {
        day = day + 1;
    }
    if !blocking && !config.block_weekends {
        let w = weekday_of_day(day);
        if w == Weekday::Sat {
            day = day + 2;
        } else if w == Weekday::Sun {
            day = day + 1;
        }
    }
    Some(LocalTime { day, hour: h, minute: 0, second: 0 })
}

/// A day moved past a weekend is a weekday, and no earlier.
proof fn lemma_skip_weekend(day: int)
    ensures
        !is_weekend(weekday_of(skip_weekend(day))),
        skip_weekend(day) >= day,
{
    let r = (day - 1) % 7;
    assert((day + 2 - 1) % 7 == (r + 2) % 7);
    assert((day + 1 - 1) % 7 == (r + 1) % 7);
}

/// The next change of the schedule lies after `now`, and it is a time on the hour.
pub proof fn law_next_transition_is_later(c: ScheduleConfig, now: LocalTime)
    requires
        now.wf(),
        now.day < i32::MAX - 3,
    ensures
        next_transition_spec(c, now) matches Some(t) ==> t.seconds() > now.seconds() && t.wf()
            && t.minute == 0 && t.second == 0,
{
    lemma_skip_weekend(now.day + 1);
    lemma_skip_weekend(now.day as int);
    let blocking = block_time_at(c, now);
    let h: int = if blocking {
        c.end as int
    } else {
        c.start as int
    };
    if h < 24 {
        let same_day = LocalTime { day: now.day, hour: h as u32, minute: 0, second: 0 };
        let d1: int = if same_day.seconds() <= now.seconds() {
            now.day + 1
        } else {
            now.day as int
        };
        let d2: int = if !blocking && !c.block_weekends {
            skip_weekend(d1)
        } else {
            d1
        };
        assert(d2 <= now.day + 3);
        assert(d2 >= d1);
    }
}

/// At the next change the schedule is in the other state: it stops blocking at the
/// end hour and starts at the start hour (on a weekday when weekends are free). It
/// holds whenever the start and end hours differ.
pub proof fn law_next_transition_changes_state(c: ScheduleConfig, now: LocalTime)
    requires
        now.wf(),
        now.day < i32::MAX - 3,
        c.start != c.end,
    ensures
        next_transition_spec(c, now) matches Some(t) ==> block_time_at(c, t) != block_time_at(c, now),
{
    lemma_skip_weekend(now.day + 1);
    lemma_skip_weekend(now.day as int);
    let blocking = block_time_at(c, now);
    let h: int = if blocking {
        c.end as int
    } else {
        c.start as int
    };
    if h < 24 {
        let same_day = LocalTime { day: now.day, hour: h as u32, minute: 0, second: 0 };
        let d1: int = if same_day.seconds() <= now.seconds() {
            now.day + 1
        } else {
            now.day as int
        };
        let d2: int = if !blocking && !c.block_weekends {
            skip_weekend(d1)
        } else {
            d1
        };
        assert(d2 <= now.day + 3);
        assert(d2 >= d1);
    }
}

/// The text of the time left from `now` until `until`: `"<h>h <m>m"` when at least
/// an hour is left, else `"<m>m"` (whole hours and minutes, rounded toward zero).
pub open spec fn duration_text(secs: int) -> Seq<char> {
    let hours = tdiv(secs, 3600);
    let minutes = trem(tdiv(secs, 60), 60);
    if hours > 0 {
        signed_decimal(hours) + seq!['h', ' '] + signed_decimal(minutes) + seq!['m']
    } else {
        signed_decimal(minutes) + seq!['m']
    }
}

pub fn format_duration_until(until: &LocalTime, now: &LocalTime) -> (r: String)
    requires
        until.wf(),
        now.wf(),
    ensures
        r@ == duration_text(until.seconds() - now.seconds()),
{
    let su: i64 = until.day as i64 * 86400 + until.hour as i64 * 3600 + until.minute as i64 * 60
        + until.second as i64;
    let sn: i64 = now.day as i64 * 86400 + now.hour as i64 * 3600 + now.minute as i64 * 60
        + now.second as i64;
    let secs: i64 = su - sn;
    let neg = secs < 0;
    let a: i64 = if neg {
        -secs
    } else {
        secs
    };
    let h_abs: i64 = a / 3600;
    let m_total_abs: i64 = a / 60;
    let hours: i64 = if neg {
        -h_abs
    } else {
        h_abs
    };
    let m_total: i64 = if neg {
        -m_total_abs
    } else {
        m_total_abs
    };
    let minutes: i64 = m_total - 60 * (if neg {
        -(m_total_abs / 60)
    } else {
        m_total_abs / 60
    });
    assert(hours == tdiv(secs as int, 3600));
    assert(m_total == tdiv(secs as int, 60));
    assert(tdiv(m_total as int, 60) == (if neg {
        -(m_total_abs / 60)
    } else {
        m_total_abs / 60
    }));
    assert(minutes == trem(tdiv(secs as int, 60), 60));
    let mut out: Vec<char> = Vec::new();
    if hours > 0 {
        out = signed_decimal_chars(hours);
        out.push('h');
        out.push(' ');
    }
    let mc = signed_decimal_chars(minutes);
    extend(&mut out, &mc);
    out.push('m');
    assert(out@ =~= duration_text(su - sn));
    from_chars(&out)
}

/// The time left reads as whole hours and the minutes left over: for a gap of
/// `secs >= 0` seconds that is `h` hours, `m` minutes (`m < 60`) and under a minute,
/// the text is `"<h>h <m>m"` when `h > 0`, else `"<m>m"`.
pub proof fn law_duration_text_hours_and_minutes(secs: int, h: nat, m: nat)
    requires
        m < 60,
        h * 3600 + m * 60 <= secs < h * 3600 + m * 60 + 60,
    ensures
        h > 0 ==> duration_text(secs) == decimal(h) + seq!['h', ' '] + decimal(m) + seq!['m'],
        h == 0 ==> duration_text(secs) == decimal(m) + seq!['m'],
{
    let s: int = secs - h * 3600 - m * 60;
    vstd::arithmetic::div_mod::lemma_fundamental_div_mod_converse(secs, 3600, h as int, m * 60 + s);
    assert(secs == (h * 60 + m) * 60 + s) by (nonlinear_arith)
        requires s == secs - h * 3600 - m * 60;
    vstd::arithmetic::div_mod::lemma_fundamental_div_mod_converse(secs, 60, (h * 60 + m) as int, s);
    let t: int = (h * 60 + m) as int;
    vstd::arithmetic::div_mod::lemma_fundamental_div_mod_converse(t, 60, h as int, m as int);
    assert(tdiv(secs, 3600) == h);
    assert(tdiv(secs, 60) == t);
    assert(tdiv(t, 60) == h);
    assert(trem(t, 60) == m);
}

} // verus!
