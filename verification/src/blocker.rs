use vstd::prelude::*;
use crate::config::Config;
use crate::hosts::{
    add_block, added_block, block_section, build_block_section, existing_block, has_expected_block,
    is_blocked, remove_block, removed_block, block_lines, single_line, law_added_block_is_blocked,
    law_added_block_is_expected, law_unblock_undoes_block, lemma_no_marker_no_line, no_marker_line,
    count_lines,
};
use crate::text::{lines_of, contains_sub, strs, to_chars, extend, extend_str, from_chars, trim};
use crate::calendar::{Weekday, weekday_of, weekday_of_day};
use crate::num::{two_digits, two_digit_chars};
use crate::scheduler::{LocalTime, block_time_at, duration_text, format_duration_until, is_block_time, next_transition, next_transition_spec};

verus! {

/// What a sync did to the hosts file.
#[derive(Debug, Clone, Copy, PartialEq, Eq, Structural)]
pub enum BlockerAction {
    Blocked,
    Unblocked,
    Updated,
    AlreadyCorrect(BlockState),
}

/// Whether the hosts file holds the block.
#[derive(Debug, Clone, Copy, PartialEq, Eq, Structural)]
pub enum BlockState {
    Blocked,
    Unblocked,
}

/// The managed section that the configuration asks for.
pub open spec fn config_section(c: Config) -> Seq<char> {
    block_section(c.hosts.marker@, strs(c.domains.list@), strs(c.hosts.redirect_ips@))
}

/// What a sync does: the action, and the new hosts content when it writes one.
/// While the schedule blocks, a file without the marker gets the section appended,
/// and a file whose section is not the expected one gets its sections replaced;
/// outside the schedule a file with the marker gets its sections removed; otherwise
/// the file is left as it is.
pub open spec fn sync_spec(c: Config, should_block: bool, content: Seq<char>) -> (BlockerAction, Option<Seq<char>>) {
    let m = c.hosts.marker@;
    let blocked = contains_sub(content, m);
    let current = existing_block(content, m) == Some(config_section(c));
    if should_block {
        if !blocked {
            (BlockerAction::Blocked, Some(added_block(content, config_section(c))))
        } else if !current {
            (BlockerAction::Updated, Some(added_block(removed_block(content, m), config_section(c))))
        } else {
            (BlockerAction::AlreadyCorrect(BlockState::Blocked), None)
        }
    } else if blocked {
        (BlockerAction::Unblocked, Some(removed_block(content, m)))
    } else {
        (BlockerAction::AlreadyCorrect(BlockState::Unblocked), None)
    }
}

/// Brings the hosts content in line with the schedule (see `sync_spec`): returns
/// the action and, when the file must change, its new content (after which the DNS
/// cache is flushed).
pub fn run(config: &Config, should_block: bool, content: &str) -> (r: (BlockerAction, Option<String>))
    ensures
        r.0 == sync_spec(*config, should_block, content@).0,
        match (r.1, sync_spec(*config, should_block, content@).1) {
            (Some(s), Some(t)) => s@ == t,
            (None, None) => true,
            _ => false,
        },
{
    let marker = config.hosts.marker.as_str();
    let currently_blocked = is_blocked(content, marker);
    let block_section = build_block_section(marker, config.domains.list.as_slice(), config.hosts.redirect_ips.as_slice());
    let block_is_current = match has_expected_block(
        content,
        marker,
        config.domains.list.as_slice(),
        config.hosts.redirect_ips.as_slice(),
    ) {
        Ok(b) => b,
        Err(_) => false,
    };
    if should_block {
        if !currently_blocked || !block_is_current {
            let action = if currently_blocked {
                BlockerAction::Updated
            } else {
                BlockerAction::Blocked
            };
            let base = if currently_blocked {
                match remove_block(content, marker) {
                    Ok(s) => s,
                    Err(_) => String::new(),
                }
            } else {
                String::from_str(content)
            };
            let new_content = add_block(base.as_str(), block_section.as_str());
            (action, Some(new_content))
        } else {
            (BlockerAction::AlreadyCorrect(BlockState::Blocked), None)
        }
    } else if currently_blocked {
        let new_content = match remove_block(content, marker) {
            Ok(s) => s,
            Err(_) => String::new(),
        };
        (BlockerAction::Unblocked, Some(new_content))
    } else {
        (BlockerAction::AlreadyCorrect(BlockState::Unblocked), None)
    }
}

/// The hosts content after a manual block: the sections removed when the marker is
/// there, then the configured section appended.
pub open spec fn blocked_now(c: Config, content: Seq<char>) -> Seq<char> {
    if contains_sub(content, c.hosts.marker@) {
        added_block(removed_block(content, c.hosts.marker@), config_section(c))
    } else {
        added_block(content, config_section(c))
    }
}

/// The hosts content after a manual block (see `blocked_now`).
pub fn block_now(config: &Config, content: &str) -> (r: String)
    ensures
        r@ == blocked_now(*config, content@),
{
    let marker = config.hosts.marker.as_str();
    let block_section = build_block_section(marker, config.domains.list.as_slice(), config.hosts.redirect_ips.as_slice());
    if is_blocked(content, marker) {
        let temp = match remove_block(content, marker) {
            Ok(s) => s,
            Err(_) => String::new(),
        };
        add_block(temp.as_str(), block_section.as_str())
    } else {
        add_block(content, block_section.as_str())
    }
}

/// The hosts content after a manual unblock: every managed section removed.
pub fn unblock_now(config: &Config, content: &str) -> (r: String)
    ensures
        r@ == removed_block(content@, config.hosts.marker@),
{
    match remove_block(content, config.hosts.marker.as_str()) {
        Ok(s) => s,
        Err(_) => String::new(),
    }
}

} // verus!

verus! {

/// Sync is stable: when the schedule blocks and the hosts file holds no marker, a
/// sync writes the block, and a second sync finds it correct and writes nothing.
/// It holds whenever each line of the section is a single line and no entry line
/// equals the marker.
pub proof fn law_sync_then_sync_is_correct(c: Config, content: Seq<char>)
    requires
        !contains_sub(content, c.hosts.marker@),
        forall|i: int|
            0 <= i < block_lines(c.hosts.marker@, strs(c.domains.list@), strs(c.hosts.redirect_ips@)).len()
                ==> single_line(
                #[trigger] block_lines(c.hosts.marker@, strs(c.domains.list@), strs(c.hosts.redirect_ips@))[i],
            ),
        forall|i: int|
            0 < i < block_lines(c.hosts.marker@, strs(c.domains.list@), strs(c.hosts.redirect_ips@)).len() - 1
                ==> #[trigger] block_lines(c.hosts.marker@, strs(c.domains.list@), strs(c.hosts.redirect_ips@))[i]
                != c.hosts.marker@,
    ensures
        sync_spec(c, true, content).0 == BlockerAction::Blocked,
        sync_spec(c, true, content).1 matches Some(n) && sync_spec(c, true, n) == (
            BlockerAction::AlreadyCorrect(BlockState::Blocked),
            None::<Seq<char>>,
        ),
{
    let m = c.hosts.marker@;
    let ds = strs(c.domains.list@);
    let ips = strs(c.hosts.redirect_ips@);
    law_added_block_is_blocked(content, m, ds, ips);
    lemma_no_marker_no_line(content, m);
    law_added_block_is_expected(content, m, ds, ips);
}

/// While the schedule blocks, a sync leaves the hosts file holding exactly the
/// configured section: when it reports the block already correct, the file's
/// section is the configured one and nothing is written; otherwise it writes a file
/// whose section is the configured one (a stale section is replaced). It holds under
/// the conditions of blocking (a marker that is not empty, sections of single lines
/// whose entries are not the marker), when what is left of the file once its
/// sections are removed has no marker line.
pub proof fn law_blocking_sync_leaves_configured_section(c: Config, content: Seq<char>)
    requires
        c.hosts.marker@.len() > 0,
        no_marker_line(
            if contains_sub(content, c.hosts.marker@) {
                removed_block(content, c.hosts.marker@)
            } else {
                content
            },
            c.hosts.marker@,
        ),
        forall|i: int|
            0 <= i < block_lines(c.hosts.marker@, strs(c.domains.list@), strs(c.hosts.redirect_ips@)).len()
                ==> single_line(
                #[trigger] block_lines(c.hosts.marker@, strs(c.domains.list@), strs(c.hosts.redirect_ips@))[i],
            ),
        forall|i: int|
            0 < i < block_lines(c.hosts.marker@, strs(c.domains.list@), strs(c.hosts.redirect_ips@)).len() - 1
                ==> #[trigger] block_lines(c.hosts.marker@, strs(c.domains.list@), strs(c.hosts.redirect_ips@))[i]
                != c.hosts.marker@,
    ensures
        sync_spec(c, true, content).0 == BlockerAction::AlreadyCorrect(BlockState::Blocked) ==> existing_block(
            content,
            c.hosts.marker@,
        ) == Some(config_section(c)) && sync_spec(c, true, content).1 == None::<Seq<char>>,
        sync_spec(c, true, content).0 != BlockerAction::AlreadyCorrect(BlockState::Blocked) ==> (sync_spec(
            c,
            true,
            content,
        ).1 matches Some(n) && existing_block(n, c.hosts.marker@) == Some(config_section(c))),
{
    let m = c.hosts.marker@;
    let ds = strs(c.domains.list@);
    let ips = strs(c.hosts.redirect_ips@);
    if contains_sub(content, m) {
        law_added_block_is_expected(removed_block(content, m), m, ds, ips);
    } else {
        law_added_block_is_expected(content, m, ds, ips);
    }
}


/// A manual block leaves the configured section in place, found by the check for
/// the expected block, with exactly two marker lines, also over a file that already
/// held sections. It holds under the conditions of blocking (a marker that is not
/// empty, sections of single lines whose entries are not the marker), when what is
/// left of the file once its sections are removed has no marker line (trimming a
/// kept line could otherwise make it one).
pub proof fn law_block_now_is_expected(c: Config, content: Seq<char>)
    requires
        c.hosts.marker@.len() > 0,
        no_marker_line(
            if contains_sub(content, c.hosts.marker@) {
                removed_block(content, c.hosts.marker@)
            } else {
                content
            },
            c.hosts.marker@,
        ),
        forall|i: int|
            0 <= i < block_lines(c.hosts.marker@, strs(c.domains.list@), strs(c.hosts.redirect_ips@)).len()
                ==> single_line(
                #[trigger] block_lines(c.hosts.marker@, strs(c.domains.list@), strs(c.hosts.redirect_ips@))[i],
            ),
        forall|i: int|
            0 < i < block_lines(c.hosts.marker@, strs(c.domains.list@), strs(c.hosts.redirect_ips@)).len() - 1
                ==> #[trigger] block_lines(c.hosts.marker@, strs(c.domains.list@), strs(c.hosts.redirect_ips@))[i]
                != c.hosts.marker@,
    ensures
        existing_block(blocked_now(c, content), c.hosts.marker@) == Some(config_section(c)),
        count_lines(lines_of(blocked_now(c, content)), c.hosts.marker@) == 2,
{
    let m = c.hosts.marker@;
    let ds = strs(c.domains.list@);
    let ips = strs(c.hosts.redirect_ips@);
    if contains_sub(content, m) {
        law_added_block_is_expected(removed_block(content, m), m, ds, ips);
    } else {
        law_added_block_is_expected(content, m, ds, ips);
    }
}

/// Leaving the schedule undoes entering it: when a file without the marker is
/// blocked by a sync, the sync outside the schedule unblocks it and gives the file
/// back, trimmed, with one final `'\n'`. It holds under the conditions of blocking
/// and when the file has no `"\r\n"` line ending.
pub proof fn law_sync_out_of_schedule_restores(c: Config, content: Seq<char>)
    requires
        !contains_sub(content, c.hosts.marker@),
        !contains_sub(content, seq!['\r', '\n']),
        forall|i: int|
            0 <= i < block_lines(c.hosts.marker@, strs(c.domains.list@), strs(c.hosts.redirect_ips@)).len()
                ==> single_line(
                #[trigger] block_lines(c.hosts.marker@, strs(c.domains.list@), strs(c.hosts.redirect_ips@))[i],
            ),
        forall|i: int|
            0 < i < block_lines(c.hosts.marker@, strs(c.domains.list@), strs(c.hosts.redirect_ips@)).len() - 1
                ==> #[trigger] block_lines(c.hosts.marker@, strs(c.domains.list@), strs(c.hosts.redirect_ips@))[i]
                != c.hosts.marker@,
    ensures
        sync_spec(c, true, content).1 matches Some(n) && sync_spec(c, false, n) == (
            BlockerAction::Unblocked,
            Some(trim(content) + seq!['\n']),
        ),
{
    let m = c.hosts.marker@;
    let ds = strs(c.domains.list@);
    let ips = strs(c.hosts.redirect_ips@);
    law_added_block_is_blocked(content, m, ds, ips);
    lemma_no_marker_no_line(content, m);
    law_unblock_undoes_block(content, m, ds, ips);
}

} // verus!

verus! {

/// Spanish name of a weekday, as the status line shows it.
pub open spec fn day_name_es(w: Weekday) -> Seq<char> {
    match w {
        Weekday::Mon => "Lunes"@,
        Weekday::Tue => "Martes"@,
        Weekday::Wed => "Miércoles"@,
        Weekday::Thu => "Jueves"@,
        Weekday::Fri => "Viernes"@,
        Weekday::Sat => "Sábado"@,
        Weekday::Sun => "Domingo"@,
    }
}

/// `HH:MM` of a time.
pub open spec fn hhmm(t: LocalTime) -> Seq<char> {
    two_digits(t.hour as nat) + seq![':'] + two_digits(t.minute as nat)
}

/// The status line: day, time, block state and schedule state, then, when the
/// schedule changes at some later time, the time of the change and how far it is.
pub open spec fn status_text(c: Config, now: LocalTime, content: Seq<char>) -> Seq<char> {
    let blocked = contains_sub(content, c.hosts.marker@);
    let head = day_name_es(weekday_of(now.day as int)) + seq![' '] + hhmm(now) + " | "@ + (if blocked {
        "🔴 BLOQUEADO"@
    } else {
        "🟢 DESBLOQUEADO"@
    }) + " | "@ + (if block_time_at(c.schedule, now) {
        "Horario de bloqueo activo"@
    } else {
        "Fuera del horario de bloqueo"@
    });
    match next_transition_spec(c.schedule, now) {
        Some(next) => head + "\nPróximo cambio: "@ + hhmm(next) + " ("@ + duration_text(
            next.seconds() - now.seconds(),
        ) + " desde ahora)"@,
        None => head,
    }
}

fn day_name(w: Weekday) -> (r: &'static str)
    ensures
        r@ == day_name_es(w),
{
    match w {
        Weekday::Mon => "Lunes",
        Weekday::Tue => "Martes",
        Weekday::Wed => "Miércoles",
        Weekday::Thu => "Jueves",
        Weekday::Fri => "Viernes",
        Weekday::Sat => "Sábado",
        Weekday::Sun => "Domingo",
    }
}

fn hhmm_chars(t: &LocalTime) -> (r: Vec<char>)
    ensures
        r@ == hhmm(*t),
{
    let mut v = two_digit_chars(t.hour as u64);
    v.push(':');
    let m = two_digit_chars(t.minute as u64);
    extend(&mut v, &m);
    v
}

/// The status line for `now` and the current hosts content (see `status_text`).
pub fn get_status(config: &Config, now: &LocalTime, content: &str) -> (r: String)
    requires
        now.wf(),
        now.day < i32::MAX - 3,
    ensures
        r@ == status_text(*config, *now, content@),
{
    let should_block = is_block_time(&config.schedule, now);
    let currently_blocked = is_blocked(content, config.hosts.marker.as_str());
    let next = next_transition(&config.schedule, now);
    let mut out = to_chars(day_name(weekday_of_day(now.day)));
    out.push(' ');
    let t = hhmm_chars(now);
    extend(&mut out, &t);
    extend_str(&mut out, " | ");
    extend_str(&mut out, if currently_blocked {
        "🔴 BLOQUEADO"
    } else {
        "🟢 DESBLOQUEADO"
    });
    extend_str(&mut out, " | ");
    extend_str(&mut out, if should_block {
        "Horario de bloqueo activo"
    } else {
        "Fuera del horario de bloqueo"
    });
    match next {
        Some(n) => {
            extend_str(&mut out, "\nPróximo cambio: ");
            let nt = hhmm_chars(&n);
            extend(&mut out, &nt);
            extend_str(&mut out, " (");
            let d = format_duration_until(&n, now);
            extend_str(&mut out, d.as_str());
            extend_str(&mut out, " desde ahora)");
        },
        None => {},
    }
    assert(out@ =~= status_text(*config, *now, content@));
    from_chars(&out)
}

} // verus!

verus! {

/// What the dashboard shows of the blocker at a moment.
#[derive(Debug, Clone)]
pub struct StatusSnapshot {
    pub now: LocalTime,
    pub hosts_blocked: bool,
    pub schedule_active: bool,
    pub next_transition: Option<LocalTime>,
    pub site_count: usize,
}

/// The blocker's state at `now` for the current hosts content: whether the block is
/// in the file, whether the schedule blocks, when it next changes, how many sites.
pub fn status_snapshot(config: &Config, now: &LocalTime, content: &str) -> (r: StatusSnapshot)
    requires
        now.wf(),
        now.day < i32::MAX - 3,
    ensures
        r.now == *now,
        r.hosts_blocked == contains_sub(content@, config.hosts.marker@),
        r.schedule_active == block_time_at(config.schedule, *now),
        r.next_transition == next_transition_spec(config.schedule, *now),
        r.site_count == config.domains.list@.len(),
{
    StatusSnapshot {
        now: *now,
        hosts_blocked: is_blocked(content, config.hosts.marker.as_str()),
        schedule_active: is_block_time(&config.schedule, now),
        next_transition: next_transition(&config.schedule, now),
        site_count: config.domains.list.len(),
    }
}

/// `HH:MM` of a time (see `hhmm`).
pub fn hhmm_text(t: &LocalTime) -> (r: String)
    ensures
        r@ == hhmm(*t),
{
    let v = hhmm_chars(t);
    from_chars(&v)
}

} // verus!
