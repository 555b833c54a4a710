use vstd::prelude::*;
use crate::calendar::{weekday_index, weekday_of, weekday_of_day};
use crate::clock::{format_local, formatted_local, valid_day};
use crate::journal::JournalEntry;
use crate::num::{decimal, decimal_chars};
use crate::scheduler::LocalTime;
use crate::text::{extend, extend_str, from_chars, to_chars};

verus! {

/// The number of journal entries on `day`.
pub open spec fn count_on(es: Seq<JournalEntry>, day: int) -> nat
    decreases es.len(),
{
    if es.len() == 0 {
        0
    } else {
        count_on(es.drop_last(), day) + if es.last().timestamp.day == day {
            1nat
        } else {
            0nat
        }
    }
}

/// The unblocks of each of the seven days ending at `today`, oldest first.
pub open spec fn week_counts(es: Seq<JournalEntry>, today: int) -> Seq<nat> {
    Seq::new(7, |i: int| count_on(es, today - (6 - i)))
}

/// The largest element of `s`, 0 for none.
pub open spec fn max_of(s: Seq<nat>) -> nat
    decreases s.len(),
{
    if s.len() == 0 {
        0
    } else if s.last() > max_of(s.drop_last()) {
        s.last()
    } else {
        max_of(s.drop_last())
    }
}

pub open spec fn sum_of(s: Seq<nat>) -> nat
    decreases s.len(),
{
    if s.len() == 0 {
        0
    } else {
        sum_of(s.drop_last()) + s.last()
    }
}

/// How many elements of `s` are 0.
pub open spec fn zeros_of(s: Seq<nat>) -> nat
    decreases s.len(),
{
    if s.len() == 0 {
        0
    } else {
        zeros_of(s.drop_last()) + if s.last() == 0 {
            1nat
        } else {
            0nat
        }
    }
}

/// How many elements at the end of `s` are 0.
pub open spec fn trailing_zeros(s: Seq<nat>) -> nat
    decreases s.len(),
{
    if s.len() == 0 || s.last() != 0 {
        0
    } else {
        trailing_zeros(s.drop_last()) + 1
    }
}

/// `c` repeated `n` times.
pub open spec fn repeat(c: char, n: nat) -> Seq<char> {
    Seq::new(n, |i: int| c)
}

/// The bar of a day with `count` unblocks when the worst day (at least 1) had `top`:
/// 20 cells, dotted when there were none, else filled in proportion (at least one).
pub open spec fn bar_text(count: nat, top: nat) -> Seq<char> {
    if count == 0 {
        repeat('·', 20)
    } else {
        let f = count * 20 / top;
        let filled: nat = if f < 1 {
            1
        } else {
            f
        };
        repeat('█', filled) + repeat('░', (20 - filled) as nat)
    }
}

/// The short Spanish name of the weekday of `day`.
pub open spec fn day_name(day: int) -> Seq<char> {
    let i = weekday_index(weekday_of(day));
    if i == 0 {
        "Lun"@
    } else if i == 1 {
        "Mar"@
    } else if i == 2 {
        "Mié"@
    } else if i == 3 {
        "Jue"@
    } else if i == 4 {
        "Vie"@
    } else if i == 5 {
        "Sáb"@
    } else {
        "Dom"@
    }
}

/// The report line of the day `i` (0 the oldest, 6 today) of the week ending `today`.
pub open spec fn week_line(today: int, i: int, count: nat, top: nat) -> Seq<char> {
    let day = today - (6 - i);
    let suffix = if i == 6 {
        " ← hoy"@
    } else if count == 0 {
        " ★"@
    } else {
        Seq::empty()
    };
    "  "@ + day_name(day) + " "@ + formatted_local(day, 0, 0, 0, "%d/%m"@) + "  │ "@ + bar_text(count, top)
        + " │  "@ + decimal(count) + " desbloq"@ + suffix + "\n"@
}

pub open spec fn week_lines(today: int, counts: Seq<nat>, top: nat, n: int) -> Seq<char>
    decreases n,
{
    if n <= 0 {
        Seq::empty()
    } else {
        week_lines(today, counts, top, n - 1) + week_line(today, n - 1, counts[n - 1], top)
    }
}

/// The closing remark for a week with `total` unblocks.
pub open spec fn verdict(total: nat) -> Seq<char> {
    if total == 0 {
        "  ¡Semana perfecta! El colibrí está orgulloso de ti.\n"@
    } else if total <= 3 {
        "  Muy bien. Casi impecable.\n"@
    } else if total <= 10 {
        "  Hay margen de mejora. Tú puedes.\n"@
    } else {
        "  Semana dura. ¿Has pensado en el Modo Monje?\n"@
    }
}

/// The weekly report: a bar per day of the week ending `today` (scaled to the worst
/// day), then the week's total, its clean days, its worst day, the current run of
/// clean days, and a remark on the total.
pub open spec fn weekly_report_text(es: Seq<JournalEntry>, today: int) -> Seq<char> {
    let counts = week_counts(es, today);
    let worst = max_of(counts);
    let top: nat = if worst < 1 {
        1
    } else {
        worst
    };
    "╔══════════════════════════════════════════════╗\n"@
        + "║        PARAMO · Reporte Semanal              ║\n"@
        + "╚══════════════════════════════════════════════╝\n\n"@ + week_lines(today, counts, top, 7)
        + "\n  ──────────────────────────────────────────────\n"@ + "  Desbloq. esta semana:   "@
        + decimal(sum_of(counts)) + "\n"@ + "  Días sin romper:         "@ + decimal(zeros_of(counts))
        + " / 7\n"@ + "  Peor día:                "@ + decimal(worst) + " desbloq.\n"@
        + "  Racha actual:            "@ + decimal(trailing_zeros(counts)) + " días\n"@ + "\n"@
        + verdict(sum_of(counts))
}

proof fn lemma_max_of(s: Seq<nat>)
    ensures
        forall|i: int| 0 <= i < s.len() ==> #[trigger] s[i] <= max_of(s),
    decreases s.len(),
{
    if s.len() > 0 {
        lemma_max_of(s.drop_last());
        assert forall|i: int| 0 <= i < s.len() implies #[trigger] s[i] <= max_of(s) by {
            if i < s.len() - 1 {
                assert(s[i] == s.drop_last()[i]);
            }
        }
    }
}

proof fn lemma_count_on_bound(es: Seq<JournalEntry>, day: int)
    ensures
        count_on(es, day) <= es.len(),
    decreases es.len(),
{
    if es.len() > 0 {
        lemma_count_on_bound(es.drop_last(), day);
    }
}

/// How many journal entries fall on `day`: the unblocks made that day.
pub fn count_entries_on(es: &Vec<JournalEntry>, day: i32) -> (r: usize)
    ensures
        r == count_on(es@, day as int),
{
    let mut n: usize = 0;
    let mut i: usize = 0;
    while i < es.len()
        invariant
            i <= es@.len(),
            n == count_on(es@.take(i as int), day as int),
            n <= i,
        decreases es@.len() - i,
    {
        assert(es@.take(i + 1).drop_last() =~= es@.take(i as int));
        if es[i].timestamp.day == day {
            n = n + 1;
        }
        i = i + 1;
    }
    assert(es@.take(es@.len() as int) =~= es@);
    n
}

fn push_repeat(out: &mut Vec<char>, c: char, n: usize)
    ensures
        final(out)@ == old(out)@ + repeat(c, n as nat),
{
    let mut k: usize = 0;
    while k < n
        invariant
            k <= n,
            out@ == old(out)@ + repeat(c, k as nat),
        decreases n - k,
    {
        out.push(c);
        k = k + 1;
        assert(out@ =~= old(out)@ + repeat(c, k as nat));
    }
}

fn push_day_name(out: &mut Vec<char>, day: i32)
    ensures
        final(out)@ == old(out)@ + day_name(day as int),
{
    let w = weekday_of_day(day);
    match w {
        crate::calendar::Weekday::Mon => extend_str(out, "Lun"),
        crate::calendar::Weekday::Tue => extend_str(out, "Mar"),
        crate::calendar::Weekday::Wed => extend_str(out, "Mié"),
        crate::calendar::Weekday::Thu => extend_str(out, "Jue"),
        crate::calendar::Weekday::Fri => extend_str(out, "Vie"),
        crate::calendar::Weekday::Sat => extend_str(out, "Sáb"),
        crate::calendar::Weekday::Sun => extend_str(out, "Dom"),
    }
}

/// Appends the report line of day `d` of the week ending `today`.
fn push_week_line(out: &mut Vec<char>, today: i32, d: usize, c: usize, top: usize)
    requires
        d < 7,
        valid_day(today - 6),
        valid_day(today as int),
        1 <= top,
        c <= top,
        top * 20 <= usize::MAX,
    ensures
        final(out)@ == old(out)@ + week_line(today as int, d as int, c as nat, top as nat),
{
    let day: i32 = today - (6 - d as i32);
    extend_str(out, "  ");
    push_day_name(out, day);
    extend_str(out, " ");
    let date = format_local(LocalTime { day, hour: 0, minute: 0, second: 0 }, "%d/%m");
    extend_str(out, date.as_str());
    extend_str(out, "  │ ");
    if c == 0 {
        push_repeat(out, '·', 20);
    } else {
        let f: usize = c * 20 / top;
        assert(f as int == (c as int * 20) / (top as int));
        assert(f <= 20) by (nonlinear_arith)
            requires
                f as int == (c as int * 20) / (top as int),
                c <= top,
                top >= 1,
        ;
        let filled: usize = if f < 1 {
            1
        } else {
            f
        };
        push_repeat(out, '█', filled);
        push_repeat(out, '░', 20 - filled);
    }
    extend_str(out, " │  ");
    let cc = decimal_chars(c as u64);
    extend(out, &cc);
    extend_str(out, " desbloq");
    if d == 6 {
        extend_str(out, " ← hoy");
    } else if c == 0 {
        extend_str(out, " ★");
    }
    extend_str(out, "\n");
    assert(out@ =~= old(out)@ + week_line(today as int, d as int, c as nat, top as nat));
}

/// The weekly report of the unblocks in `entries` for the week ending `today` (see
/// `weekly_report_text`).
pub fn weekly_report(entries: &Vec<JournalEntry>, today: i32) -> (r: String)
    requires
        valid_day(today - 6),
        valid_day(today as int),
        entries@.len() * 20 <= usize::MAX,
    ensures
        r@ == weekly_report_text(entries@, today as int),
{
    let ghost es = entries@;
    let mut counts: Vec<usize> = Vec::new();
    let mut i: usize = 0;
    while i < 7
        invariant
            i <= 7,
            counts@.len() == i,
            valid_day(today - 6),
            forall|k: int| 0 <= k < i ==> #[trigger] counts@[k] == count_on(es, today - (6 - k)),
            forall|k: int| 0 <= k < i ==> #[trigger] counts@[k] <= es.len(),
            es == entries@,
        decreases 7 - i,
    {
        let day: i32 = today - (6 - i as i32);
        let c = count_entries_on(entries, day);
        proof {
            lemma_count_on_bound(es, day as int);
        }
        counts.push(c);
        i = i + 1;
    }
    let ghost cs = week_counts(es, today as int);
    assert(counts@.map_values(|c: usize| c as nat) =~= cs);
    let ghost cv = counts@.map_values(|c: usize| c as nat);
    // the worst day, the total, the clean days and the current run
    let mut worst: usize = 0;
    let mut total: usize = 0;
    let mut clean: usize = 0;
    let mut run: usize = 0;
    let mut k: usize = 0;
    while k < 7
        invariant
            k <= 7,
            counts@.len() == 7,
            cv == counts@.map_values(|c: usize| c as nat),
            worst == max_of(cv.take(k as int)),
            total == sum_of(cv.take(k as int)),
            clean == zeros_of(cv.take(k as int)),
            run == trailing_zeros(cv.take(k as int)),
            worst <= es.len(),
            total <= k * es.len(),
            clean <= k,
            run <= k,
            es.len() * 20 <= usize::MAX,
            forall|m: int| 0 <= m < 7 ==> #[trigger] counts@[m] <= es.len(),
        decreases 7 - k,
    {
        assert(cv.take(k + 1).drop_last() =~= cv.take(k as int));
        let c = counts[k];
        if c > worst {
            worst = c;
        }
        assert(total + c <= (k + 1) * es.len() <= usize::MAX) by (nonlinear_arith)
            requires
                total <= k * es.len(),
                c <= es.len(),
                k < 7,
                es.len() * 20 <= usize::MAX,
        ;
        total = total + c;
        if c == 0 {
            clean = clean + 1;
            run = run + 1;
        } else {
            run = 0;
        }
        k = k + 1;
    }
    assert(cv.take(7) =~= cv);
    proof {
        lemma_max_of(cv);
        assert forall|m: int| 0 <= m < 7 implies #[trigger] counts@[m] <= worst by {
            assert(cv[m] == counts@[m] as nat);
        }
    }
    let top: usize = if worst < 1 {
        1
    } else {
        worst
    };
    let mut out: Vec<char> = Vec::new();
    extend_str(&mut out, "╔══════════════════════════════════════════════╗\n");
    extend_str(&mut out, "║        PARAMO · Reporte Semanal              ║\n");
    extend_str(&mut out, "╚══════════════════════════════════════════════╝\n\n");
    let ghost head = out@;
    let mut d: usize = 0;
    while d < 7
        invariant
            d <= 7,
            counts@.len() == 7,
            cv == counts@.map_values(|c: usize| c as nat),
            cv == cs,
            top as nat == (if max_of(cs) < 1 {
                1
            } else {
                max_of(cs)
            }),
            worst == max_of(cs),
            1 <= top,
            top == 1 || top <= es.len(),
            forall|m: int| 0 <= m < 7 ==> #[trigger] counts@[m] <= worst,
            es.len() * 20 <= usize::MAX,
            valid_day(today - 6),
            valid_day(today as int),
            out@ == head + week_lines(today as int, cs, top as nat, d as int),
        decreases 7 - d,
    {
        let c = counts[d];
        assert(top * 20 <= usize::MAX) by (nonlinear_arith)
            requires
                top == 1 || top <= es.len(),
                es.len() * 20 <= usize::MAX,
        ;
        push_week_line(&mut out, today, d, c, top);
        assert(cs[d as int] == c);
        assert(week_lines(today as int, cs, top as nat, d + 1) == week_lines(today as int, cs, top as nat, d as int) + week_line(
            today as int,
            d as int,
            c as nat,
            top as nat,
        ));
        assert(out@ =~= head + week_lines(today as int, cs, top as nat, d + 1));
        d = d + 1;
    }
    extend_str(&mut out, "\n  ──────────────────────────────────────────────\n");
    extend_str(&mut out, "  Desbloq. esta semana:   ");
    let t = decimal_chars(total as u64);
    extend(&mut out, &t);
    extend_str(&mut out, "\n");
    extend_str(&mut out, "  Días sin romper:         ");
    let cl = decimal_chars(clean as u64);
    extend(&mut out, &cl);
    extend_str(&mut out, " / 7\n");
    extend_str(&mut out, "  Peor día:                ");
    let w = decimal_chars(worst as u64);
    extend(&mut out, &w);
    extend_str(&mut out, " desbloq.\n");
    extend_str(&mut out, "  Racha actual:            ");
    let rn = decimal_chars(run as u64);
    extend(&mut out, &rn);
    extend_str(&mut out, " días\n");
    extend_str(&mut out, "\n");
    if total == 0 {
        extend_str(&mut out, "  ¡Semana perfecta! El colibrí está orgulloso de ti.\n");
    } else if total <= 3 {
        extend_str(&mut out, "  Muy bien. Casi impecable.\n");
    } else if total <= 10 {
        extend_str(&mut out, "  Hay margen de mejora. Tú puedes.\n");
    } else {
        extend_str(&mut out, "  Semana dura. ¿Has pensado en el Modo Monje?\n");
    }
    assert(out@ =~= weekly_report_text(es, today as int));
    from_chars(&out)
}

} // verus!
