use vstd::prelude::*;

verus! {

/// The days of the week.
#[derive(Debug, Clone, Copy, PartialEq, Eq, Structural)]
pub enum Weekday {
    Mon,
    Tue,
    Wed,
    Thu,
    Fri,
    Sat,
    Sun,
}

} // verus!

verus! {

/// The weekday at a position counted from Monday (0) to Sunday (6).
pub open spec fn weekday_from_index(i: int) -> Weekday {
    if i == 0 {
        Weekday::Mon
    } else if i == 1 {
        Weekday::Tue
    } else if i == 2 {
        Weekday::Wed
    } else if i == 3 {
        Weekday::Thu
    } else if i == 4 {
        Weekday::Fri
    } else if i == 5 {
        Weekday::Sat
    } else {
        Weekday::Sun
    }
}

/// The position of a weekday counted from Monday (0).
pub open spec fn weekday_index(w: Weekday) -> int {
    match w {
        Weekday::Mon => 0,
        Weekday::Tue => 1,
        Weekday::Wed => 2,
        Weekday::Thu => 3,
        Weekday::Fri => 4,
        Weekday::Sat => 5,
        Weekday::Sun => 6,
    }
}

/// The weekday of a day counted as chrono's `num_days_from_ce` counts it (day 1 is
/// Monday, January 1 of year 1 in the proleptic Gregorian calendar).
pub open spec fn weekday_of(day: int) -> Weekday {
    weekday_from_index((day - 1) % 7)
}

pub open spec fn is_weekend(w: Weekday) -> bool {
    w == Weekday::Sat || w == Weekday::Sun
}

/// The weekday of `day` (see `weekday_of`).
pub fn weekday_of_day(day: i32) -> (w: Weekday)
    ensures
        w == weekday_of(day as int),
{
    let d: i64 = day as i64 - 1;
    let mut r: i64 = d % 7;
    if r < 0 {
        r = r + 7;
    }
    assert(r == (day as int - 1) % 7) by {
        assert(0 <= r < 7);
        assert(d == 7 * (d / 7) + d % 7);
    }
    if r == 0 {
        Weekday::Mon
    } else if r == 1 {
        Weekday::Tue
    } else if r == 2 {
        Weekday::Wed
    } else if r == 3 {
        Weekday::Thu
    } else if r == 4 {
        Weekday::Fri
    } else if r == 5 {
        Weekday::Sat
    } else {
        Weekday::Sun
    }
}

pub fn weekday_is_weekend(w: Weekday) -> (r: bool)
    ensures
        r == is_weekend(w),
{
    match w {
        Weekday::Sat | Weekday::Sun => true,
        _ => false,
    }
}

} // verus!
