use vstd::prelude::*;
use crate::clock::{local_time_at, local_time_of, parse_rfc3339, rfc3339_instant, valid_day};
use crate::scheduler::LocalTime;
use crate::text::{extend_str, from_chars, split_once, split_once_chars, to_chars};

verus! {

/// The reason recorded for an unblock: the given one, or `(sin motivo)` when empty.
pub open spec fn resolved_reason(reason: Seq<char>) -> Seq<char> {
    if reason.len() == 0 {
        "(sin motivo)"@
    } else {
        reason
    }
}

pub fn resolve_reason(reason: &str) -> (r: String)
    ensures
        r@ == resolved_reason(reason@),
{
    if reason.unicode_len() == 0 {
        String::from_str("(sin motivo)")
    } else {
        String::from_str(reason)
    }
}

/// The wall entry for removing a site: `[Eliminado sitio <site>] <reason>`. Unlike
/// an unblock, it does not break the streak.
pub fn append_site_removal(site: &str, reason: &str) -> (r: String)
    ensures
        r@ == "[Eliminado sitio "@ + site@ + "] "@ + resolved_reason(reason@),
{
    let resolved = resolve_reason(reason);
    let mut v = to_chars("[Eliminado sitio ");
    extend_str(&mut v, site);
    extend_str(&mut v, "] ");
    extend_str(&mut v, resolved.as_str());
    from_chars(&v)
}

/// A line of the journal file: the timestamp, `|`, the entry.
pub fn entry_line(timestamp: &str, entry: &str) -> (r: String)
    ensures
        r@ == timestamp@ + "|"@ + entry@,
{
    let mut v = to_chars(timestamp);
    extend_str(&mut v, "|");
    extend_str(&mut v, entry);
    from_chars(&v)
}

/// A journal line split into its timestamp and its entry, at the first `|`.
pub fn parse_entry_line(line: &str) -> (r: Option<(String, String)>)
    ensures
        match (r, split_once(line@, "|"@)) {
            (Some((a, b)), Some((x, y))) => a@ == x && b@ == y,
            (None, None) => true,
            _ => false,
        },
{
    let l = to_chars(line);
    let p = to_chars("|");
    match split_once_chars(&l, &p) {
        Some((a, b)) => Some((from_chars(&a), from_chars(&b))),
        None => None,
    }
}

/// What a journal line that reads holds: the instant its timestamp names (seconds
/// since the Unix epoch) and the reason. A line reads when it has a `|` and its text
/// before the first `|` is an RFC 3339 timestamp.
pub open spec fn readable_entry(line: Seq<char>) -> Option<(int, Seq<char>)> {
    match split_once(line, "|"@) {
        Some((ts, reason)) => match rfc3339_instant(ts) {
            Some(secs) => Some((secs, reason)),
            None => None,
        },
        None => None,
    }
}

/// What the lines that read hold, in the order of the lines.
pub open spec fn readable_entries(lines: Seq<Seq<char>>) -> Seq<(int, Seq<char>)>
    decreases lines.len(),
{
    if lines.len() == 0 {
        seq![]
    } else {
        let rest = readable_entries(lines.drop_last());
        match readable_entry(lines.last()) {
            Some(e) => rest.push(e),
            None => rest,
        }
    }
}

/// The texts of a list of lines.
pub open spec fn line_texts(lines: Seq<String>) -> Seq<Seq<char>> {
    lines.map_values(|l: String| l@)
}

/// One journal entry: when (local time) and the recorded reason.
#[derive(Debug, Clone)]
pub struct JournalEntry {
    pub timestamp: LocalTime,
    pub reason: String,
}

/// `e` is what the line holding the instant and reason `r` reads as: the reason, and
/// the local time of the instant.
pub open spec fn entry_of(e: JournalEntry, r: (int, Seq<char>)) -> bool {
    e.reason@ == r.1 && local_time_of(e.timestamp, r.0)
}

/// Reads one journal line `timestamp|reason`. A line without `|`, or whose timestamp is
/// no RFC 3339 time, gives nothing; otherwise the entry's reason is the text after the
/// first `|`, and its time the local time of the instant the timestamp names.
pub fn parse_journal_line(line: &str) -> (r: Option<JournalEntry>)
    ensures
        match readable_entry(line@) {
            Some(x) => r matches Some(e) && entry_of(e, x),
            None => r is None,
        },
{
    let (ts, reason) = match parse_entry_line(line) {
        Some(parts) => parts,
        None => return None,
    };
    let secs = match parse_rfc3339(ts.as_str()) {
        Some(s) => s,
        None => return None,
    };
    let timestamp = local_time_at(secs);
    Some(JournalEntry { timestamp, reason })
}

/// The entries of the journal lines that read, most recent (last written) first: each
/// is what the matching line of `readable_entries` reads as, in reverse order.
pub fn entries_from_lines(lines: &Vec<String>) -> (r: Vec<JournalEntry>)
    ensures
        r@.len() == readable_entries(line_texts(lines@)).len(),
        forall|k: int|
            0 <= k < r@.len() ==> entry_of(
                #[trigger] r@[k],
                readable_entries(line_texts(lines@))[r@.len() - 1 - k],
            ),
{
    let ghost texts = line_texts(lines@);
    let mut read: Vec<JournalEntry> = Vec::new();
    let mut i: usize = 0;
    while i < lines.len()
        invariant
            i <= lines@.len(),
            texts == line_texts(lines@),
            read@.len() == readable_entries(texts.take(i as int)).len(),
            forall|k: int|
                0 <= k < read@.len() ==> entry_of(#[trigger] read@[k], readable_entries(texts.take(i as int))[k]),
        decreases lines@.len() - i,
    {
        proof {
            assert(texts.take(i + 1).drop_last() =~= texts.take(i as int));
            assert(texts.take(i + 1).last() == lines@[i as int]@);
        }
        match parse_journal_line(lines[i].as_str()) {
            Some(e) => {
                read.push(e);
            },
            None => {},
        }
        i = i + 1;
    }
    proof {
        assert(texts.take(lines@.len() as int) =~= texts);
    }
    let ghost all = read@;
    let ghost es = readable_entries(texts);
    let mut out: Vec<JournalEntry> = Vec::new();
    while read.len() > 0
        invariant
            read@ == all.take(read@.len() as int),
            all.len() == es.len(),
            out@.len() == all.len() - read@.len(),
            forall|k: int| 0 <= k < all.len() ==> entry_of(#[trigger] all[k], es[k]),
            forall|k: int| 0 <= k < out@.len() ==> (#[trigger] out@[k]) == all[all.len() - 1 - k],
        decreases read@.len(),
    {
        let e = read.pop().unwrap();
        out.push(e);
        assert(read@ =~= all.take(read@.len() as int));
    }
    assert forall|k: int| 0 <= k < out@.len() implies entry_of(#[trigger] out@[k], es[out@.len() - 1 - k]) by {
        assert(out@[k] == all[all.len() - 1 - k]);
    }
    out
}

} // verus!
