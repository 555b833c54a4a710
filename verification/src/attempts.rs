use vstd::prelude::*;

verus! {

/// The most days the log keeps.
pub const MAX_DAYS: usize = 60;

/// The unblock attempts of one day (counted as chrono's `num_days_from_ce`): how
/// many were started, how many went through, and how many were given up.
#[derive(Debug, Clone, Copy, PartialEq, Eq, Structural)]
pub struct DayAttempts {
    pub date: i32,
    pub initiated: u32,
    pub completed: u32,
    pub resisted: u32,
}

/// The log of attempts, one entry per day.
#[derive(Debug, Clone)]
pub struct AttemptsLog {
    pub days: Vec<DayAttempts>,
}

impl Default for AttemptsLog {
    fn default() -> (r: Self)
        ensures
            r.days@.len() == 0,
    {
        AttemptsLog { days: Vec::new() }
    }
}

/// `a - b`, or 0 when `b` is larger (`u32::saturating_sub`).
pub open spec fn sat_sub(a: u32, b: u32) -> u32 {
    if a >= b {
        (a - b) as u32
    } else {
        0
    }
}

/// The day with its resisted count recomputed.
pub open spec fn with_resisted(d: DayAttempts) -> DayAttempts {
    DayAttempts { resisted: sat_sub(d.initiated, d.completed), ..d }
}

/// A day without attempts.
pub open spec fn empty_day(date: i32) -> DayAttempts {
    DayAttempts { date, initiated: 0, completed: 0, resisted: 0 }
}

/// Where a stable sort by date puts an entry of `date` among the sorted `s`: after
/// every entry that is not later.
pub open spec fn insert_pos(s: Seq<DayAttempts>, date: i32) -> int
    decreases s.len(),
{
    if s.len() == 0 {
        0
    } else if s.last().date > date {
        insert_pos(s.drop_last(), date)
    } else {
        s.len() as int
    }
}

/// `s` sorted by date, entries of the same date in their order in `s` (a stable
/// sort).
pub open spec fn sort_by_date(s: Seq<DayAttempts>) -> Seq<DayAttempts>
    decreases s.len(),
{
    if s.len() == 0 {
        Seq::empty()
    } else {
        let t = sort_by_date(s.drop_last());
        t.insert(insert_pos(t, s.last().date), s.last())
    }
}

/// What normalizing keeps: the days sorted by date, each with its resisted count
/// recomputed, and only the last `MAX_DAYS` of them.
pub open spec fn normalized(s: Seq<DayAttempts>) -> Seq<DayAttempts> {
    let t = sort_by_date(s).map_values(|d: DayAttempts| with_resisted(d));
    if t.len() > MAX_DAYS {
        t.skip(t.len() - MAX_DAYS)
    } else {
        t
    }
}

pub open spec fn sorted_by_date(s: Seq<DayAttempts>) -> bool {
    forall|i: int, j: int| 0 <= i <= j < s.len() ==> (#[trigger] s[i]).date <= (#[trigger] s[j]).date
}

proof fn lemma_insert_pos(s: Seq<DayAttempts>, date: i32)
    requires
        sorted_by_date(s),
    ensures
        0 <= insert_pos(s, date) <= s.len(),
        forall|i: int| 0 <= i < insert_pos(s, date) ==> (#[trigger] s[i]).date <= date,
        forall|i: int| insert_pos(s, date) <= i < s.len() ==> (#[trigger] s[i]).date > date,
    decreases s.len(),
{
    if s.len() > 0 {
        if s.last().date > date {
            let t = s.drop_last();
            assert(sorted_by_date(t)) by {
                assert forall|i: int, j: int| 0 <= i <= j < t.len() implies (#[trigger] t[i]).date <= (
                #[trigger] t[j]).date by {
                    assert(t[i] == s[i] && t[j] == s[j]);
                }
            }
            lemma_insert_pos(t, date);
            assert forall|i: int| insert_pos(s, date) <= i < s.len() implies (#[trigger] s[i]).date > date by {
                if i < s.len() - 1 {
                    assert(s[i] == t[i]);
                }
            }
            assert forall|i: int| 0 <= i < insert_pos(s, date) implies (#[trigger] s[i]).date <= date by {
                assert(s[i] == t[i]);
            }
        } else {
            assert forall|i: int| 0 <= i < s.len() implies (#[trigger] s[i]).date <= date by {
                assert(s[i].date <= s[s.len() - 1].date);
            }
        }
    }
}

/// A stable sort by date leaves the days in order of date.
pub proof fn law_sort_by_date_sorted(s: Seq<DayAttempts>)
    ensures
        sorted_by_date(sort_by_date(s)),
        sort_by_date(s).len() == s.len(),
    decreases s.len(),
{
    if s.len() > 0 {
        law_sort_by_date_sorted(s.drop_last());
        let t = sort_by_date(s.drop_last());
        let x = s.last();
        lemma_insert_pos(t, x.date);
        let p = insert_pos(t, x.date);
        let u = t.insert(p, x);
        assert forall|i: int, j: int| 0 <= i <= j < u.len() implies (#[trigger] u[i]).date <= (
        #[trigger] u[j]).date by {
            if j < p {
                assert(u[i] == t[i] && u[j] == t[j]);
            } else if j == p {
                if i < p {
                    assert(u[i] == t[i]);
                }
            } else if i < p {
                assert(u[i] == t[i] && u[j] == t[j - 1]);
            } else if i == p {
                assert(u[j] == t[j - 1]);
            } else {
                assert(u[i] == t[i - 1] && u[j] == t[j - 1]);
            }
        }
    }
}

/// Sorting days already in order of date leaves them as they are.
proof fn lemma_sort_sorted(s: Seq<DayAttempts>)
    requires
        sorted_by_date(s),
    ensures
        sort_by_date(s) == s,
    decreases s.len(),
{
    if s.len() > 0 {
        let t = s.drop_last();
        assert(sorted_by_date(t)) by {
            assert forall|i: int, j: int| 0 <= i <= j < t.len() implies (#[trigger] t[i]).date <= (
            #[trigger] t[j]).date by {
                assert(t[i] == s[i] && t[j] == s[j]);
            }
        }
        lemma_sort_sorted(t);
        if t.len() > 0 {
            assert(t.last() == s[s.len() - 2]);
            assert(s[s.len() - 2].date <= s[s.len() - 1].date);
        }
        assert(insert_pos(t, s.last().date) == t.len());
        assert(t.insert(t.len() as int, s.last()) =~= s);
    }
}

/// What normalizing keeps is in order of date, with each resisted count recomputed.
proof fn lemma_normalized_shape(s: Seq<DayAttempts>)
    ensures
        sorted_by_date(normalized(s)),
        normalized(s).len() <= MAX_DAYS,
        forall|i: int| 0 <= i < normalized(s).len() ==> #[trigger] with_resisted(normalized(s)[i]) == normalized(s)[i],
{
    law_sort_by_date_sorted(s);
    let t = sort_by_date(s).map_values(|d: DayAttempts| with_resisted(d));
    let start: int = if t.len() > MAX_DAYS {
        t.len() - MAX_DAYS
    } else {
        0
    };
    let n = normalized(s);
    assert forall|i: int| 0 <= i < n.len() implies n[i] == t[i + start] by {}
    assert forall|a: int, b: int| 0 <= a <= b < n.len() implies (#[trigger] n[a]).date <= (#[trigger] n[b]).date by {
        assert(n[a] == t[a + start] && n[b] == t[b + start]);
        assert(sort_by_date(s)[a + start].date <= sort_by_date(s)[b + start].date);
    }
}

/// Normalizing twice is normalizing once: a log that was normalized when it was
/// read is saved unchanged.
pub proof fn law_normalize_idempotent(s: Seq<DayAttempts>)
    ensures
        normalized(normalized(s)) == normalized(s),
{
    let n = normalized(s);
    lemma_normalized_shape(s);
    lemma_sort_sorted(n);
    let t = sort_by_date(n).map_values(|d: DayAttempts| with_resisted(d));
    assert(t =~= n) by {
        assert forall|i: int| 0 <= i < n.len() implies t[i] == n[i] by {
            assert(with_resisted(n[i]) == n[i]);
        }
    }
}

/// Sorts `days` by date, keeping entries of the same date in order.
fn sort_days(days: &Vec<DayAttempts>) -> (r: Vec<DayAttempts>)
    ensures
        r@ == sort_by_date(days@),
{
    let mut out: Vec<DayAttempts> = Vec::new();
    let mut i: usize = 0;
    assert(days@.take(0) =~= Seq::<DayAttempts>::empty());
    while i < days.len()
        invariant
            i <= days.len(),
            out@ == sort_by_date(days@.take(i as int)),
        decreases days.len() - i,
    {
        let x = days[i];
        let ghost t = out@;
        let mut k: usize = out.len();
        proof {
            assert(t.take(k as int) =~= t);
        }
        while k > 0 && out[k - 1].date > x.date
            invariant
                k <= out.len(),
                out@ == t,
                insert_pos(t.take(k as int), x.date) == insert_pos(t, x.date),
            decreases k,
        {
            proof {
                assert(t.take(k as int).drop_last() =~= t.take(k - 1));
            }
            k = k - 1;
        }
        proof {
            assert(insert_pos(t.take(k as int), x.date) == k);
            assert(days@.take(i + 1).drop_last() =~= days@.take(i as int));
            assert(days@.take(i + 1).last() == x);
        }
        out.insert(k, x);
        i = i + 1;
    }
    assert(days@.take(days.len() as int) =~= days@);
    out
}

fn sat_sub_exec(a: u32, b: u32) -> (r: u32)
    ensures
        r == sat_sub(a, b),
{
    if a >= b {
        a - b
    } else {
        0
    }
}

/// Sorts the days by date, recomputes each resisted count, and keeps the last
/// `MAX_DAYS` days (see `normalized`).
pub fn normalize(log: &mut AttemptsLog)
    ensures
        final(log).days@ == normalized(old(log).days@),
        sorted_by_date(final(log).days@),
        final(log).days@.len() <= MAX_DAYS,
        forall|i: int|
            0 <= i < final(log).days@.len() ==> (#[trigger] final(log).days@[i]).resisted == sat_sub(
                final(log).days@[i].initiated,
                final(log).days@[i].completed,
            ),
{
    let sorted = sort_days(&log.days);
    proof {
        law_sort_by_date_sorted(log.days@);
    }
    let ghost mapped = sorted@.map_values(|d: DayAttempts| with_resisted(d));
    let mut fixed: Vec<DayAttempts> = Vec::new();
    let mut i: usize = 0;
    while i < sorted.len()
        invariant
            i <= sorted.len(),
            mapped == sorted@.map_values(|d: DayAttempts| with_resisted(d)),
            fixed@ == mapped.take(i as int),
        decreases sorted.len() - i,
    {
        let d = sorted[i];
        fixed.push(DayAttempts { resisted: sat_sub_exec(d.initiated, d.completed), ..d });
        i = i + 1;
        assert(fixed@ =~= mapped.take(i as int));
    }
    assert(mapped.take(sorted.len() as int) =~= mapped);
    let mut kept: Vec<DayAttempts> = Vec::new();
    let start: usize = if fixed.len() > MAX_DAYS {
        fixed.len() - MAX_DAYS
    } else {
        0
    };
    let mut j: usize = start;
    while j < fixed.len()
        invariant
            start <= j <= fixed.len(),
            kept@ == fixed@.subrange(start as int, j as int),
        decreases fixed.len() - j,
    {
        kept.push(fixed[j]);
        j = j + 1;
        assert(kept@ =~= fixed@.subrange(start as int, j as int));
    }
    proof {
        assert(kept@ =~= normalized(log.days@));
        let s = sort_by_date(log.days@);
        assert forall|a: int, b: int| 0 <= a <= b < kept@.len() implies (#[trigger] kept@[a]).date <= (
        #[trigger] kept@[b]).date by {
            assert(kept@[a] == with_resisted(s[a + start]));
            assert(kept@[b] == with_resisted(s[b + start]));
            assert(s[a + start].date <= s[b + start].date);
        }
    }
    log.days = kept;
}

/// The first entry of `date` in `s`, if any.
pub open spec fn find_day(s: Seq<DayAttempts>, date: i32) -> Option<int>
    decreases s.len(),
{
    if s.len() == 0 {
        None
    } else if s[0].date == date {
        Some(0)
    } else {
        match find_day(s.drop_first(), date) {
            Some(i) => Some(i + 1),
            None => None,
        }
    }
}

proof fn lemma_find_day(s: Seq<DayAttempts>, date: i32)
    ensures
        match find_day(s, date) {
            Some(i) => 0 <= i < s.len() && s[i].date == date && forall|j: int| 0 <= j < i ==> s[j].date != date,
            None => forall|j: int| 0 <= j < s.len() ==> s[j].date != date,
        },
    decreases s.len(),
{
    if s.len() > 0 && s[0].date != date {
        lemma_find_day(s.drop_first(), date);
        match find_day(s.drop_first(), date) {
            Some(i) => {
                assert forall|j: int| 0 <= j < i + 1 implies s[j].date != date by {
                    if j > 0 {
                        assert(s[j] == s.drop_first()[j - 1]);
                    }
                }
            },
            None => {
                assert forall|j: int| 0 <= j < s.len() implies s[j].date != date by {
                    if j > 0 {
                        assert(s[j] == s.drop_first()[j - 1]);
                    }
                }
            },
        }
    }
}

fn find_day_exec(days: &Vec<DayAttempts>, date: i32) -> (r: Option<usize>)
    ensures
        r matches Some(i) ==> i < days.len(),
        match (r, find_day(days@, date)) {
            (Some(i), Some(j)) => i as int == j,
            (None, None) => true,
            _ => false,
        },
{
    let mut i: usize = 0;
    proof {
        lemma_find_day(days@, date);
    }
    while i < days.len()
        invariant
            i <= days.len(),
            forall|j: int| 0 <= j < i ==> days@[j].date != date,
        decreases days.len() - i,
    {
        if days[i].date == date {
            proof {
                lemma_find_day(days@, date);
                match find_day(days@, date) {
                    Some(k) => {
                        if k < i {
                        } else if k > i {
                        }
                    },
                    None => {},
                }
            }
            return Some(i);
        }
        i = i + 1;
    }
    None
}

/// The entry of `date` in `s`, or an empty one.
pub open spec fn lookup_day(s: Seq<DayAttempts>, date: i32) -> DayAttempts {
    match find_day(s, date) {
        Some(i) => s[i],
        None => empty_day(date),
    }
}

/// The attempts of `today` (see `lookup_day`).
pub fn today(log: &AttemptsLog, date: i32) -> (r: DayAttempts)
    ensures
        r == lookup_day(log.days@, date),
{
    match find_day_exec(&log.days, date) {
        Some(i) => log.days[i],
        None => DayAttempts { date, initiated: 0, completed: 0, resisted: 0 },
    }
}

/// The attempts of the `n` days that end with `today`, oldest first, with empty
/// entries for the days the log lacks.
pub fn last_n_days(log: &AttemptsLog, today: i32, n: usize) -> (r: Vec<DayAttempts>)
    requires
        n <= 0x7fff_ffff,
        today as int - n as int + 1 >= i32::MIN,
    ensures
        r@.len() == n,
        forall|k: int| 0 <= k < n ==> #[trigger] r@[k] == lookup_day(log.days@, (today - n + 1 + k) as i32),
{
    let mut days: Vec<DayAttempts> = Vec::new();
    if n == 0 {
        return days;
    }
    let start: i32 = (today as i64 - (n as i64 - 1)) as i32;
    let mut offset: usize = 0;
    while offset < n
        invariant
            offset <= n,
            n <= 0x7fff_ffff,
            start == today - n + 1,
            today as int - n as int + 1 >= i32::MIN,
            days@.len() == offset,
            forall|k: int| 0 <= k < offset ==> #[trigger] days@[k] == lookup_day(log.days@, (today - n + 1 + k) as i32),
        decreases n - offset,
    {
        let date: i32 = (start as i64 + offset as i64) as i32;
        let d = match find_day_exec(&log.days, date) {
            Some(i) => log.days[i],
            None => DayAttempts { date, initiated: 0, completed: 0, resisted: 0 },
        };
        days.push(d);
        offset = offset + 1;
    }
    days
}

/// Which count an attempt adds to.
pub enum AttemptKind {
    Initiated,
    Completed,
}

/// The log with one more attempt of `kind` on `date`: the first entry of that date
/// counts it (or a new entry is added for it), its resisted count is recomputed,
/// and the log is normalized.
pub open spec fn recorded(s: Seq<DayAttempts>, date: i32, initiated: bool) -> Seq<DayAttempts> {
    normalized(counted(s, date, initiated))
}

/// A day with one more attempt of the kind, its resisted count recomputed.
pub open spec fn bumped(d: DayAttempts, initiated: bool) -> DayAttempts {
    if initiated {
        with_resisted(DayAttempts { initiated: (d.initiated + 1) as u32, ..d })
    } else {
        with_resisted(DayAttempts { completed: (d.completed + 1) as u32, ..d })
    }
}

/// The log with the attempt counted, before normalizing.
pub open spec fn counted(s: Seq<DayAttempts>, date: i32, initiated: bool) -> Seq<DayAttempts> {
    match find_day(s, date) {
        Some(i) => s.update(i, bumped(s[i], initiated)),
        None => s.push(bumped(empty_day(date), initiated)),
    }
}

/// The entry of `date` can take one more attempt without overflow.
pub open spec fn can_record(s: Seq<DayAttempts>, date: i32, initiated: bool) -> bool {
    match find_day(s, date) {
        Some(i) => if initiated {
            s[i].initiated < u32::MAX
        } else {
            s[i].completed < u32::MAX
        },
        None => true,
    }
}

/// The first entry of `date` is at `i` when `i` holds that date and no entry before
/// it does.
proof fn lemma_find_day_at(s: Seq<DayAttempts>, date: i32, i: int)
    requires
        0 <= i < s.len(),
        s[i].date == date,
        forall|j: int| 0 <= j < i ==> s[j].date != date,
    ensures
        find_day(s, date) == Some(i),
{
    lemma_find_day(s, date);
    match find_day(s, date) {
        Some(k) => {
            if k < i {
                assert(s[k].date != date);
            } else if k > i {
                assert(s[i].date != date);
            }
        },
        None => {
            assert(s[i].date != date);
        },
    }
}

/// Recording an attempt on a normalized log counts it: that day's entry has one more
/// attempt of the kind, the other count as it was, and its resisted count
/// recomputed. It holds unless the day is new and the log already holds sixty days,
/// all later than it: normalizing then keeps the sixty later days.
pub proof fn law_record_counts_day(s: Seq<DayAttempts>, date: i32, initiated: bool)
    requires
        sorted_by_date(s),
        s.len() <= MAX_DAYS,
        can_record(s, date, initiated),
        find_day(s, date) is Some || s.len() < MAX_DAYS || s[0].date <= date,
    ensures
        lookup_day(recorded(s, date, initiated), date) == bumped(lookup_day(s, date), initiated),
        lookup_day(recorded(s, date, initiated), date).date == date,
{
    lemma_find_day(s, date);
    let u = counted(s, date, initiated);
    let n = recorded(s, date, initiated);
    match find_day(s, date) {
        Some(i) => {
            assert(sorted_by_date(u)) by {
                assert forall|a: int, b: int| 0 <= a <= b < u.len() implies (#[trigger] u[a]).date <= (
                #[trigger] u[b]).date by {
                    assert(s[a].date <= s[b].date);
                }
            }
            lemma_sort_sorted(u);
            let t = sort_by_date(u).map_values(|d: DayAttempts| with_resisted(d));
            assert(n == t);
            assert(with_resisted(bumped(s[i], initiated)) == bumped(s[i], initiated));
            assert forall|j: int| 0 <= j < i implies n[j].date != date by {
                assert(n[j] == with_resisted(s[j]));
            }
            lemma_find_day_at(n, date, i);
        },
        None => {
            let e = bumped(empty_day(date), initiated);
            assert(with_resisted(e) == e);
            lemma_sort_sorted(s);
            lemma_insert_pos(s, date);
            let q = insert_pos(s, date);
            assert(u == s.push(e));
            assert(u.drop_last() =~= s);
            assert(sort_by_date(u) == s.insert(q, e));
            let v = s.insert(q, e);
            let t = v.map_values(|d: DayAttempts| with_resisted(d));
            assert(t[q] == e);
            assert forall|j: int| 0 <= j < q implies #[trigger] t[j].date < date by {
                assert(t[j] == with_resisted(s[j]));
                assert(s[j].date <= date && s[j].date != date);
            }
            if t.len() > MAX_DAYS {
                assert(s.len() == MAX_DAYS);
                assert(q >= 1) by {
                    if q == 0 {
                        assert(s[0].date > date);
                    }
                }
                assert(n == t.skip(1));
                assert(n[q - 1] == t[q]);
                assert forall|j: int| 0 <= j < q - 1 implies n[j].date != date by {
                    assert(n[j] == t[j + 1]);
                    assert(t[j + 1].date < date);
                }
                lemma_find_day_at(n, date, q - 1);
            } else {
                assert(n == t);
                assert forall|j: int| 0 <= j < q implies n[j].date != date by {
                    assert(t[j].date < date);
                }
                lemma_find_day_at(n, date, q);
            }
        },
    }
}

fn record(log: &mut AttemptsLog, today: i32, initiated: bool)
    requires
        can_record(old(log).days@, today, initiated),
    ensures
        final(log).days@ == recorded(old(log).days@, today, initiated),
{
    proof {
        lemma_find_day(log.days@, today);
    }
    match find_day_exec(&log.days, today) {
        Some(i) => {
            let mut d = log.days[i];
            if initiated {
                d.initiated = d.initiated + 1;
            } else {
                d.completed = d.completed + 1;
            }
            d.resisted = sat_sub_exec(d.initiated, d.completed);
            log.days.set(i, d);
        },
        None => {
            let mut d = DayAttempts { date: today, initiated: 0, completed: 0, resisted: 0 };
            if initiated {
                d.initiated = 1;
            } else {
                d.completed = 1;
            }
            d.resisted = sat_sub_exec(d.initiated, d.completed);
            log.days.push(d);
        },
    }
    normalize(log);
}

/// Records a started unblock on `today` (see `recorded`).
pub fn record_initiated(log: &mut AttemptsLog, today: i32)
    requires
        can_record(old(log).days@, today, true),
    ensures
        final(log).days@ == recorded(old(log).days@, today, true),
{
    record(log, today, true);
}

/// Records a completed unblock on `today` (see `recorded`).
pub fn record_completed(log: &mut AttemptsLog, today: i32)
    requires
        can_record(old(log).days@, today, false),
    ensures
        final(log).days@ == recorded(old(log).days@, today, false),
{
    record(log, today, false);
}

} // verus!
