use vstd::prelude::*;
use crate::habits::{Habit, completed_spec, due_on, is_completed_in_period, is_due_on};
use crate::clock::valid_day;
use crate::i18n::{I18n, Msg, arg_views, fill, text};
use crate::num::{decimal, decimal_chars};
use crate::report::repeat;
use crate::text::{extend, extend_str, from_chars, strs, to_chars, trim, trim_chars};
use crate::blocker::{StatusSnapshot, hhmm, hhmm_text};
use crate::calendar::{weekday_of, weekday_of_day};
use crate::config::ScheduleConfig;
use crate::i18n::{Language, language_code, language_native_name, weekday_msg};
use crate::num::{two_digits, two_digit_chars};

verus! {

/// The tabs of the dashboard, in their order.
#[derive(Debug, Clone, Copy, PartialEq, Eq, Structural)]
pub enum TabId {
    Home,
    Sites,
    Schedule,
    Settings,
    Diagnostics,
    Streak,
    Wall,
    Exit,
}

/// The number of tabs.
pub const TAB_COUNT: usize = 8;

/// The position of a tab.
pub open spec fn tab_index(t: TabId) -> int {
    match t {
        TabId::Home => 0,
        TabId::Sites => 1,
        TabId::Schedule => 2,
        TabId::Settings => 3,
        TabId::Diagnostics => 4,
        TabId::Streak => 5,
        TabId::Wall => 6,
        TabId::Exit => 7,
    }
}

/// The tab at position `i` (the last one for positions past it).
pub open spec fn tab_at(i: int) -> TabId {
    if i == 0 {
        TabId::Home
    } else if i == 1 {
        TabId::Sites
    } else if i == 2 {
        TabId::Schedule
    } else if i == 3 {
        TabId::Settings
    } else if i == 4 {
        TabId::Diagnostics
    } else if i == 5 {
        TabId::Streak
    } else if i == 6 {
        TabId::Wall
    } else {
        TabId::Exit
    }
}

impl TabId {
    /// Every tab, in order.
    pub fn all() -> (r: [TabId; 8])
        ensures
            forall|i: int| 0 <= i < 8 ==> #[trigger] r[i] == tab_at(i),
    {
        [
            TabId::Home,
            TabId::Sites,
            TabId::Schedule,
            TabId::Settings,
            TabId::Diagnostics,
            TabId::Streak,
            TabId::Wall,
            TabId::Exit,
        ]
    }

    /// The position of the tab.
    pub fn index(self) -> (r: usize)
        ensures
            r == tab_index(self),
    {
        match self {
            TabId::Home => 0,
            TabId::Sites => 1,
            TabId::Schedule => 2,
            TabId::Settings => 3,
            TabId::Diagnostics => 4,
            TabId::Streak => 5,
            TabId::Wall => 6,
            TabId::Exit => 7,
        }
    }

    /// The tab at `index`, counted round the tabs.
    pub fn from_index(index: usize) -> (r: TabId)
        ensures
            r == tab_at(index as int % 8),
    {
        let all = TabId::all();
        all[index % TAB_COUNT]
    }
}

/// The tab after `t`, the first after the last.
pub fn next_tab(t: TabId) -> (r: TabId)
    ensures
        r == tab_at((tab_index(t) + 1) % 8),
{
    TabId::from_index(t.index() + 1)
}

/// The tab before `t`, the last before the first.
pub fn previous_tab(t: TabId) -> (r: TabId)
    ensures
        r == tab_at((tab_index(t) + 7) % 8),
{
    TabId::from_index((t.index() + TAB_COUNT - 1) % TAB_COUNT)
}

/// Moving to the next tab and back, or back and on, returns to the same tab.
pub proof fn law_tab_round_trip(t: TabId)
    ensures
        tab_at((tab_index(tab_at((tab_index(t) + 1) % 8)) + 7) % 8) == t,
        tab_at((tab_index(tab_at((tab_index(t) + 7) % 8)) + 1) % 8) == t,
{
}

/// The selection after moving down a list of `len` items: the next item, the first
/// after the last, the first when nothing was selected, nothing in an empty list.
pub open spec fn next_selection(selected: Option<usize>, len: nat) -> Option<usize> {
    if len == 0 {
        None
    } else {
        match selected {
            Some(i) => Some(((i + 1) % (len as int)) as usize),
            None => Some(0),
        }
    }
}

/// The selection after moving up: the previous item, the last before the first.
pub open spec fn previous_selection(selected: Option<usize>, len: nat) -> Option<usize> {
    if len == 0 {
        None
    } else {
        match selected {
            Some(i) => Some(((i + len - 1) % (len as int)) as usize),
            None => Some(0),
        }
    }
}

pub fn select_next(selected: Option<usize>, len: usize) -> (r: Option<usize>)
    requires
        selected matches Some(i) ==> i < usize::MAX,
    ensures
        r == next_selection(selected, len as nat),
{
    if len == 0 {
        return None;
    }
    match selected {
        Some(i) => Some((i + 1) % len),
        None => Some(0),
    }
}

pub fn select_previous(selected: Option<usize>, len: usize) -> (r: Option<usize>)
    requires
        selected matches Some(i) ==> i + len <= usize::MAX,
    ensures
        r == previous_selection(selected, len as nat),
{
    if len == 0 {
        return None;
    }
    match selected {
        Some(i) => Some((i + len - 1) % len),
        None => Some(0),
    }
}

/// Moving down and back up a list returns to the item selected.
pub proof fn law_selection_round_trip(i: usize, len: usize)
    requires
        i < len,
    ensures
        previous_selection(next_selection(Some(i), len as nat), len as nat) == Some(i),
        next_selection(previous_selection(Some(i), len as nat), len as nat) == Some(i),
{
    let n = len as int;
    let up: int = if i + 1 < n {
        i + 1
    } else {
        0
    };
    if i + 1 < n {
        vstd::arithmetic::div_mod::lemma_small_mod((i + 1) as nat, len as nat);
    } else {
        vstd::arithmetic::div_mod::lemma_mod_add_multiples_vanish(0, n);
        vstd::arithmetic::div_mod::lemma_small_mod(0, len as nat);
    }
    assert((i + 1) % n == up);
    // back up from `up`
    if up > 0 {
        vstd::arithmetic::div_mod::lemma_mod_add_multiples_vanish(up - 1, n);
        vstd::arithmetic::div_mod::lemma_small_mod((up - 1) as nat, len as nat);
        assert((up + n - 1) % n == up - 1);
    } else {
        vstd::arithmetic::div_mod::lemma_small_mod((n - 1) as nat, len as nat);
        assert((up + n - 1) % n == n - 1);
    }
    // down from the one above `i`
    let down: int = if i > 0 {
        i - 1
    } else {
        n - 1
    };
    if i > 0 {
        vstd::arithmetic::div_mod::lemma_mod_add_multiples_vanish(i - 1, n);
        vstd::arithmetic::div_mod::lemma_small_mod((i - 1) as nat, len as nat);
    } else {
        vstd::arithmetic::div_mod::lemma_small_mod((n - 1) as nat, len as nat);
    }
    assert((i + n - 1) % n == down);
    if down + 1 < n {
        vstd::arithmetic::div_mod::lemma_small_mod((down + 1) as nat, len as nat);
    } else {
        vstd::arithmetic::div_mod::lemma_mod_add_multiples_vanish(0, n);
        vstd::arithmetic::div_mod::lemma_small_mod(0, len as nat);
    }
    assert((down + 1) % n == i);
}

/// The schedule field below `c` (start, end, weekends), the first after the last.
pub fn schedule_cursor_down(c: usize) -> (r: usize)
    requires
        c < 3,
    ensures
        r == (c + 1) % 3,
{
    (c + 1) % 3
}

/// The schedule field above `c`, the last before the first.
pub fn schedule_cursor_up(c: usize) -> (r: usize)
    requires
        c < 3,
    ensures
        r == (c + 2) % 3,
{
    (c + 2) % 3
}

/// An hour moved by `delta`: below 0 it becomes 23, above 23 it becomes 0.
pub open spec fn wrapped_hour(value: int, delta: int) -> int {
    let raw = value + delta;
    if raw < 0 {
        23
    } else if raw > 23 {
        0
    } else {
        raw
    }
}

pub fn wrap_hour(value: u8, delta: i8) -> (r: u8)
    ensures
        r == wrapped_hour(value as int, delta as int),
{
    let raw: i16 = value as i16 + delta as i16;
    if raw < 0 {
        23
    } else if raw > 23 {
        0
    } else {
        raw as u8
    }
}

} // verus!

verus! {

/// The number of phrases shown during the first countdown.
pub const PHRASE_COUNT: usize = 50;

/// The number of frames of the wave shown during the final countdown.
pub const WAVE_COUNT: usize = 6;

/// The phrase at position `i` of those shown during the first countdown.
pub open spec fn phrase_text(i: int) -> Seq<char> {
    if i == 0 {
        "Brillando"@
    } else if i == 1 {
        "Zumbando"@
    } else if i == 2 {
        "Revoloteando"@
    } else if i == 3 {
        "Saltando"@
    } else if i == 4 {
        "Flotando"@
    } else if i == 5 {
        "Destellando"@
    } else if i == 6 {
        "Chapoteando"@
    } else if i == 7 {
        "Sonriendo"@
    } else if i == 8 {
        "Resplandeciendo"@
    } else if i == 9 {
        "Canturreando"@
    } else if i == 10 {
        "Dançando"@
    } else if i == 11 {
        "Girando"@
    } else if i == 12 {
        "Burbujeando"@
    } else if i == 13 {
        "Crepitando"@
    } else if i == 14 {
        "Pintando"@
    } else if i == 15 {
        "Tejiendo"@
    } else if i == 16 {
        "Explorando"@
    } else if i == 17 {
        "Saltimbanqueando"@
    } else if i == 18 {
        "Chapurreando"@
    } else if i == 19 {
        "Lumineando"@
    } else if i == 20 {
        "Zarandeando"@
    } else if i == 21 {
        "Tintineando"@
    } else if i == 22 {
        "Rebotando"@
    } else if i == 23 {
        "Culebreando"@
    } else if i == 24 {
        "Espiraleando"@
    } else if i == 25 {
        "Saltarínando"@
    } else if i == 26 {
        "Voloteando"@
    } else if i == 27 {
        "Susurrando"@
    } else if i == 28 {
        "Chispeando"@
    } else if i == 29 {
        "Danilando"@
    } else if i == 30 {
        "Burbujeleteando"@
    } else if i == 31 {
        "Prismando"@
    } else if i == 32 {
        "Meneoando"@
    } else if i == 33 {
        "Brincolineando"@
    } else if i == 34 {
        "Planteando"@
    } else if i == 35 {
        "Revolineando"@
    } else if i == 36 {
        "Sonorineando"@
    } else if i == 37 {
        "Floreando"@
    } else if i == 38 {
        "Risueñeando"@
    } else if i == 39 {
        "Lumineleando"@
    } else if i == 40 {
        "Carcajeando"@
    } else if i == 41 {
        "Tintoreando"@
    } else if i == 42 {
        "Brillulineando"@
    } else if i == 43 {
        "Zumbileando"@
    } else if i == 44 {
        "Espumando"@
    } else if i == 45 {
        "Chapoteleando"@
    } else if i == 46 {
        "Vuelineando"@
    } else if i == 47 {
        "Trinando"@
    } else if i == 48 {
        "Susurrileando"@
    } else {
        "Ventileando"@
    }
}

/// The frame at position `i` of the wave.
pub open spec fn wave_text(i: int) -> Seq<char> {
    if i == 0 {
        "≈   ≈   ≈   ≈   ≈   ≈   ≈"@
    } else if i == 1 {
        " ≈   ≈   ≈   ≈   ≈   ≈   "@
    } else if i == 2 {
        "  ≈   ≈   ≈   ≈   ≈   ≈  "@
    } else if i == 3 {
        "   ≈   ≈   ≈   ≈   ≈   ≈ "@
    } else if i == 4 {
        "  ≈   ≈   ≈   ≈   ≈   ≈  "@
    } else {
        " ≈   ≈   ≈   ≈   ≈   ≈   "@
    }
}

/// The phrase at position `i` (see `phrase_text`).
pub fn distraction_phrase(i: usize) -> (r: &'static str)
    ensures
        r@ == phrase_text(i as int),
{
    match i {
        0 => "Brillando",
        1 => "Zumbando",
        2 => "Revoloteando",
        3 => "Saltando",
        4 => "Flotando",
        5 => "Destellando",
        6 => "Chapoteando",
        7 => "Sonriendo",
        8 => "Resplandeciendo",
        9 => "Canturreando",
        10 => "Dançando",
        11 => "Girando",
        12 => "Burbujeando",
        13 => "Crepitando",
        14 => "Pintando",
        15 => "Tejiendo",
        16 => "Explorando",
        17 => "Saltimbanqueando",
        18 => "Chapurreando",
        19 => "Lumineando",
        20 => "Zarandeando",
        21 => "Tintineando",
        22 => "Rebotando",
        23 => "Culebreando",
        24 => "Espiraleando",
        25 => "Saltarínando",
        26 => "Voloteando",
        27 => "Susurrando",
        28 => "Chispeando",
        29 => "Danilando",
        30 => "Burbujeleteando",
        31 => "Prismando",
        32 => "Meneoando",
        33 => "Brincolineando",
        34 => "Planteando",
        35 => "Revolineando",
        36 => "Sonorineando",
        37 => "Floreando",
        38 => "Risueñeando",
        39 => "Lumineleando",
        40 => "Carcajeando",
        41 => "Tintoreando",
        42 => "Brillulineando",
        43 => "Zumbileando",
        44 => "Espumando",
        45 => "Chapoteleando",
        46 => "Vuelineando",
        47 => "Trinando",
        48 => "Susurrileando",
        _ => "Ventileando",
    }
}

/// The wave frame at position `i` (see `wave_text`).
pub fn wave_frame(i: usize) -> (r: &'static str)
    ensures
        r@ == wave_text(i as int),
{
    match i {
        0 => "≈   ≈   ≈   ≈   ≈   ≈   ≈",
        1 => " ≈   ≈   ≈   ≈   ≈   ≈   ",
        2 => "  ≈   ≈   ≈   ≈   ≈   ≈  ",
        3 => "   ≈   ≈   ≈   ≈   ≈   ≈ ",
        4 => "  ≈   ≈   ≈   ≈   ≈   ≈  ",
        _ => " ≈   ≈   ≈   ≈   ≈   ≈   ",
    }
}

} // verus!

verus! {

/// What a friction flow stands in front of.
#[derive(Debug, Clone, PartialEq, Eq)]
pub enum FrictionAction {
    Unblock,
    RemoveSite(String),
}

/// The friction before an unblock or a site removal: a first countdown, a reason that
/// must be given, then a final countdown. Times are milliseconds of a monotonic clock.
#[derive(Debug, Clone, PartialEq, Eq)]
pub enum FrictionFlow {
    Countdown { action: FrictionAction, started_ms: u64, duration_secs: u64 },
    ReasonPrompt { action: FrictionAction, value: String },
    FinalCountdown { action: FrictionAction, started_ms: u64, reason: String },
}

/// The length of the final countdown, in seconds.
pub const FINAL_COUNTDOWN_SECS: u64 = 60;

/// The length of the first countdown before an unblock, in seconds.
pub const UNBLOCK_COUNTDOWN_SECS: u64 = 30;

/// The length of the first countdown before a site removal, in seconds.
pub const REMOVAL_COUNTDOWN_SECS: u64 = 30;

/// Whole seconds from `started` to `now`; none when the clock reads earlier.
pub open spec fn elapsed_secs(started: u64, now: u64) -> int {
    if now >= started {
        (now - started) / 1000
    } else {
        0
    }
}

fn elapsed_secs_of(started: u64, now: u64) -> (r: u64)
    ensures
        r == elapsed_secs(started, now),
{
    if now >= started {
        (now - started) / 1000
    } else {
        0
    }
}

/// The flow that an unblock request starts: none outside the schedule (the unblock
/// goes ahead at once), otherwise a first countdown of `UNBLOCK_COUNTDOWN_SECS`.
pub fn unblock_friction(schedule_active: bool, now_ms: u64) -> (r: Option<FrictionFlow>)
    ensures
        !schedule_active ==> r is None,
        schedule_active ==> r == Some(
            FrictionFlow::Countdown {
                action: FrictionAction::Unblock,
                started_ms: now_ms,
                duration_secs: UNBLOCK_COUNTDOWN_SECS,
            },
        ),
{
    if !schedule_active {
        return None;
    }
    Some(
        FrictionFlow::Countdown {
            action: FrictionAction::Unblock,
            started_ms: now_ms,
            duration_secs: UNBLOCK_COUNTDOWN_SECS,
        },
    )
}

/// The flow that removing `site` starts: a countdown of `REMOVAL_COUNTDOWN_SECS`.
pub fn removal_friction(site: String, now_ms: u64) -> (r: FrictionFlow)
    ensures
        r == (FrictionFlow::Countdown {
            action: FrictionAction::RemoveSite(site),
            started_ms: now_ms,
            duration_secs: REMOVAL_COUNTDOWN_SECS,
        }),
{
    FrictionFlow::Countdown {
        action: FrictionAction::RemoveSite(site),
        started_ms: now_ms,
        duration_secs: REMOVAL_COUNTDOWN_SECS,
    }
}

/// How the flow moves on at `now`, from `before` to `after`, handing over `done`: a
/// first countdown that has run out asks for the reason (nothing typed yet); a final
/// countdown that has run out ends the flow and hands over the action and its reason;
/// anything else stays as it is.
pub open spec fn flow_advanced(
    before: Option<FrictionFlow>,
    now: u64,
    after: Option<FrictionFlow>,
    done: Option<(FrictionAction, String)>,
) -> bool {
    match before {
        Some(FrictionFlow::Countdown { action, started_ms, duration_secs }) => if elapsed_secs(started_ms, now) >= duration_secs {
            &&& done is None
            &&& after matches Some(FrictionFlow::ReasonPrompt { action: a, value: v })
            &&& a == action && v@.len() == 0
        } else {
            after == before && done is None
        },
        Some(FrictionFlow::FinalCountdown { action, started_ms, reason }) => if elapsed_secs(started_ms, now) >= FINAL_COUNTDOWN_SECS {
            after is None && done == Some((action, reason))
        } else {
            after == before && done is None
        },
        _ => after == before && done is None,
    }
}

/// Moves the flow on as time passes (see `advanced_flow`); returns the action and
/// reason when the flow is done.
pub fn advance_flow(flow: &mut Option<FrictionFlow>, now_ms: u64) -> (r: Option<(FrictionAction, String)>)
    ensures
        flow_advanced(*old(flow), now_ms, *final(flow), r),
{
    let current = flow.take();
    match current {
        Some(FrictionFlow::Countdown { action, started_ms, duration_secs }) => {
            if elapsed_secs_of(started_ms, now_ms) >= duration_secs {
                let empty = String::new();
                *flow = Some(FrictionFlow::ReasonPrompt { action, value: empty });
            } else {
                *flow = Some(FrictionFlow::Countdown { action, started_ms, duration_secs });
            }
            None
        },
        Some(FrictionFlow::FinalCountdown { action, started_ms, reason }) => {
            if elapsed_secs_of(started_ms, now_ms) >= FINAL_COUNTDOWN_SECS {
                Some((action, reason))
            } else {
                *flow = Some(FrictionFlow::FinalCountdown { action, started_ms, reason });
                None
            }
        },
        other => {
            *flow = other;
            None
        },
    }
}

/// A key pressed during a flow. A character typed with Control held is `Other`.
#[derive(Debug, Clone, Copy, PartialEq, Eq, Structural)]
pub enum FlowKey {
    Esc,
    Enter,
    Backspace,
    Char(char),
    Other,
}

/// What a key in a flow has to tell the user.
#[derive(Debug, Clone, Copy, PartialEq, Eq, Structural)]
pub enum FlowNotice {
    Cancelled,
    ReasonRequired,
}

} // verus!

verus! {

/// How a key moves the flow from `before` to `after`, with `notice` for the user: Esc
/// cancels any flow; while the reason is asked for, Enter moves to the final countdown
/// (started `now`) with the reason trimmed, or asks again when it is empty, Backspace
/// drops the last character typed and a character is added; nothing else changes.
pub open spec fn flow_keyed(
    before: Option<FrictionFlow>,
    key: FlowKey,
    now: u64,
    after: Option<FrictionFlow>,
    notice: Option<FlowNotice>,
) -> bool {
    if key == FlowKey::Esc {
        after is None && notice == Some(FlowNotice::Cancelled)
    } else {
        match before {
            Some(FrictionFlow::ReasonPrompt { action, value }) => match key {
                FlowKey::Enter => if trim(value@).len() == 0 {
                    after == before && notice == Some(FlowNotice::ReasonRequired)
                } else {
                    &&& notice is None
                    &&& after matches Some(FrictionFlow::FinalCountdown { action: a, started_ms, reason })
                    &&& a == action && started_ms == now && reason@ == trim(value@)
                },
                FlowKey::Backspace => {
                    &&& notice is None
                    &&& after matches Some(FrictionFlow::ReasonPrompt { action: a, value: v })
                    &&& a == action
                    &&& v@ == (if value@.len() == 0 {
                        value@
                    } else {
                        value@.drop_last()
                    })
                },
                FlowKey::Char(c) => {
                    &&& notice is None
                    &&& after matches Some(FrictionFlow::ReasonPrompt { action: a, value: v })
                    &&& a == action && v@ == value@.push(c)
                },
                _ => after == before && notice is None,
            },
            _ => after == before && notice is None,
        }
    }
}

/// Handles a key pressed during a flow (see `flow_keyed`).
pub fn flow_key(flow: &mut Option<FrictionFlow>, key: FlowKey, now_ms: u64) -> (r: Option<FlowNotice>)
    ensures
        flow_keyed(*old(flow), key, now_ms, *final(flow), r),
{
    if key == FlowKey::Esc {
        *flow = None;
        return Some(FlowNotice::Cancelled);
    }
    let current = flow.take();
    match current {
        Some(FrictionFlow::ReasonPrompt { action, value }) => {
            match key {
                FlowKey::Enter => {
                    let chars = to_chars(value.as_str());
                    let t = trim_chars(&chars);
                    if t.len() == 0 {
                        *flow = Some(FrictionFlow::ReasonPrompt { action, value });
                        Some(FlowNotice::ReasonRequired)
                    } else {
                        let reason = from_chars(&t);
                        *flow = Some(FrictionFlow::FinalCountdown { action, started_ms: now_ms, reason });
                        None
                    }
                },
                FlowKey::Backspace => {
                    let mut chars = to_chars(value.as_str());
                    if chars.len() > 0 {
                        chars.pop();
                    }
                    let v = from_chars(&chars);
                    *flow = Some(FrictionFlow::ReasonPrompt { action, value: v });
                    None
                },
                FlowKey::Char(c) => {
                    let mut chars = to_chars(value.as_str());
                    chars.push(c);
                    let v = from_chars(&chars);
                    *flow = Some(FrictionFlow::ReasonPrompt { action, value: v });
                    None
                },
                _ => {
                    *flow = Some(FrictionFlow::ReasonPrompt { action, value });
                    None
                },
            }
        },
        other => {
            *flow = other;
            None
        },
    }
}

/// A flow in its final countdown holds a reason that is not empty.
pub open spec fn flow_sound(f: Option<FrictionFlow>) -> bool {
    f matches Some(FrictionFlow::FinalCountdown { reason, .. }) ==> reason@.len() > 0
}

/// No key skips the friction: from a sound flow, whatever key is pressed, the flow
/// stays sound; a final countdown is only reached with a reason typed.
pub proof fn law_keys_keep_reason(
    before: Option<FrictionFlow>,
    key: FlowKey,
    now: u64,
    after: Option<FrictionFlow>,
    notice: Option<FlowNotice>,
)
    requires
        flow_sound(before),
        flow_keyed(before, key, now, after, notice),
    ensures
        flow_sound(after),
{
}

/// Time does not skip the friction either: the flow stays sound, and the action is
/// handed over only when a final countdown with a reason has run its full length.
pub proof fn law_action_only_after_final_countdown(
    before: Option<FrictionFlow>,
    now: u64,
    after: Option<FrictionFlow>,
    done: Option<(FrictionAction, String)>,
)
    requires
        flow_sound(before),
        flow_advanced(before, now, after, done),
    ensures
        flow_sound(after),
        done matches Some((action, reason)) ==> {
            &&& reason@.len() > 0
            &&& before matches Some(FrictionFlow::FinalCountdown { action: a, started_ms, reason: r })
            &&& a == action && r == reason
            &&& elapsed_secs(started_ms, now) >= FINAL_COUNTDOWN_SECS
        },
{
}

/// What the first countdown shows: the seconds left and which phrase.
#[derive(Debug, Clone)]
pub struct CountdownView {
    pub remaining: u64,
    pub phrase: usize,
}

/// The first countdown at `now`: the seconds left (never below 0) and a phrase that
/// changes every three seconds, round the phrases.
pub fn countdown_view(started_ms: u64, duration_secs: u64, now_ms: u64) -> (r: CountdownView)
    ensures
        ({
            let e = if elapsed_secs(started_ms, now_ms) < duration_secs {
                elapsed_secs(started_ms, now_ms)
            } else {
                duration_secs as int
            };
            r.remaining == duration_secs - e && r.phrase == (e / 3) % (PHRASE_COUNT as int)
        }),
        r.phrase < PHRASE_COUNT,
{
    let raw = elapsed_secs_of(started_ms, now_ms);
    let e = if raw < duration_secs {
        raw
    } else {
        duration_secs
    };
    CountdownView { remaining: duration_secs - e, phrase: ((e / 3) % (PHRASE_COUNT as u64)) as usize }
}

/// The progress bar of the final countdown: 30 cells, filled in proportion to the
/// seconds gone, then the seconds left.
pub open spec fn final_bar(elapsed: int) -> Seq<char> {
    let filled = (elapsed * 30 / 60) as nat;
    "["@ + repeat('█', filled) + repeat('░', (30 - filled) as nat) + "] "@ + decimal((60 - elapsed) as nat)
        + "s"@
}

/// What the final countdown shows.
#[derive(Debug, Clone)]
pub struct FinalView {
    pub remaining: u64,
    pub wave: usize,
    pub bar: String,
    pub breath_in: bool,
}

/// The final countdown at `now`: the seconds left, the wave frame (a new one every
/// 120 ms), the bar, and whether to breathe in (four seconds in, four out).
pub fn final_view(started_ms: u64, now_ms: u64) -> (r: FinalView)
    ensures
        ({
            let e = if elapsed_secs(started_ms, now_ms) < 60 {
                elapsed_secs(started_ms, now_ms)
            } else {
                60
            };
            let ms = if now_ms >= started_ms {
                now_ms - started_ms
            } else {
                0
            };
            &&& r.remaining == 60 - e
            &&& r.wave == (ms / 120) % (WAVE_COUNT as int)
            &&& r.bar@ == final_bar(e)
            &&& r.breath_in == ((e / 4) % 2 == 0)
        }),
        r.wave < WAVE_COUNT,
{
    let raw = elapsed_secs_of(started_ms, now_ms);
    let e: u64 = if raw < 60 {
        raw
    } else {
        60
    };
    let ms: u64 = if now_ms >= started_ms {
        now_ms - started_ms
    } else {
        0
    };
    let filled: usize = (e as usize) * 30 / 60;
    let mut bar: Vec<char> = Vec::new();
    bar.push('[');
    proof {
        reveal_strlit("[");
        assert(bar@ =~= "["@ + repeat('█', 0));
    }
    let mut k: usize = 0;
    while k < filled
        invariant
            k <= filled <= 30,
            bar@ == "["@ + repeat('█', k as nat),
        decreases filled - k,
    {
        bar.push('█');
        k = k + 1;
        assert(bar@ =~= "["@ + repeat('█', k as nat));
    }
    let ghost head = bar@;
    let mut m: usize = 0;
    while m < 30 - filled
        invariant
            m <= 30 - filled,
            filled <= 30,
            bar@ == head + repeat('░', m as nat),
        decreases 30 - filled - m,
    {
        bar.push('░');
        m = m + 1;
        assert(bar@ =~= head + repeat('░', m as nat));
    }
    extend_str(&mut bar, "] ");
    let rem = decimal_chars(60 - e);
    extend(&mut bar, &rem);
    extend_str(&mut bar, "s");
    assert(bar@ =~= final_bar(e as int));
    FinalView {
        remaining: 60 - e,
        wave: ((ms / 120) % (WAVE_COUNT as u64)) as usize,
        bar: from_chars(&bar),
        breath_in: (e / 4) % 2 == 0,
    }
}

/// The title of the first countdown.
pub fn countdown_title(action: &FrictionAction, i18n: I18n) -> (r: String)
    ensures
        r@ == match action {
            FrictionAction::Unblock => text(i18n@, Msg::CountdownTitle),
            FrictionAction::RemoveSite(site) => fill(text(i18n@, Msg::SiteRemoveCountdownTitle), seq![site@]),
        },
{
    match action {
        FrictionAction::Unblock => String::from_str(i18n.t(Msg::CountdownTitle)),
        FrictionAction::RemoveSite(site) => {
            let args = [site.as_str()];
            let r = i18n.format(Msg::SiteRemoveCountdownTitle, &args);
            assert(arg_views(args@) =~= seq![site@]);
            r
        },
    }
}

/// The line under the title of the first countdown.
pub fn countdown_subtitle(action: &FrictionAction, i18n: I18n) -> (r: &'static str)
    ensures
        r@ == match action {
            FrictionAction::Unblock => text(i18n@, Msg::CountdownSubtitle),
            FrictionAction::RemoveSite(_) => text(i18n@, Msg::SiteRemoveCountdownSubtitle),
        },
{
    match action {
        FrictionAction::Unblock => i18n.t(Msg::CountdownSubtitle),
        FrictionAction::RemoveSite(_) => i18n.t(Msg::SiteRemoveCountdownSubtitle),
    }
}

/// The title of the reason prompt.
pub fn reason_title(action: &FrictionAction, i18n: I18n) -> (r: String)
    ensures
        r@ == match action {
            FrictionAction::Unblock => text(i18n@, Msg::ReasonPromptTitle),
            FrictionAction::RemoveSite(site) => fill(text(i18n@, Msg::SiteRemoveReasonTitle), seq![site@]),
        },
{
    match action {
        FrictionAction::Unblock => String::from_str(i18n.t(Msg::ReasonPromptTitle)),
        FrictionAction::RemoveSite(site) => {
            let args = [site.as_str()];
            let r = i18n.format(Msg::SiteRemoveReasonTitle, &args);
            assert(arg_views(args@) =~= seq![site@]);
            r
        },
    }
}

/// The title of the final countdown.
pub fn final_title(action: &FrictionAction, i18n: I18n) -> (r: String)
    ensures
        r@ == match action {
            FrictionAction::Unblock => text(i18n@, Msg::FinalCountdownTitle),
            FrictionAction::RemoveSite(site) => fill(text(i18n@, Msg::SiteRemoveFinalTitle), seq![site@]),
        },
{
    match action {
        FrictionAction::Unblock => String::from_str(i18n.t(Msg::FinalCountdownTitle)),
        FrictionAction::RemoveSite(site) => {
            let args = [site.as_str()];
            let r = i18n.format(Msg::SiteRemoveFinalTitle, &args);
            assert(arg_views(args@) =~= seq![site@]);
            r
        },
    }
}

/// The reason as the final countdown quotes it: `"<reason>"`.
pub fn quoted_reason(reason: &str) -> (r: String)
    ensures
        r@ == seq!['"'] + reason@ + seq!['"'],
{
    let mut v: Vec<char> = Vec::new();
    v.push('"');
    extend_str(&mut v, reason);
    v.push('"');
    from_chars(&v)
}

} // verus!

verus! {

/// `label: value`.
pub open spec fn labelled(label: Seq<char>, value: Seq<char>) -> Seq<char> {
    label + ": "@ + value
}

fn labelled_text(label: &str, value: &str) -> (r: String)
    ensures
        r@ == labelled(label@, value@),
{
    let mut v = to_chars(label);
    extend_str(&mut v, ": ");
    extend_str(&mut v, value);
    from_chars(&v)
}

/// The lines of the home screen's status panel: the weekday and time, a blank line,
/// the block state, the schedule state, the number of sites and the time of the next
/// change (`--:--` when there is none).
pub open spec fn home_lines_spec(s: StatusSnapshot, l: Language) -> Seq<Seq<char>> {
    seq![
        text(l, weekday_msg(weekday_of(s.now.day as int))) + " "@ + hhmm(s.now),
        Seq::empty(),
        text(l, if s.hosts_blocked {
            Msg::BlockedLabel
        } else {
            Msg::UnblockedLabel
        }),
        text(l, if s.schedule_active {
            Msg::ScheduleActiveLabel
        } else {
            Msg::ScheduleInactiveLabel
        }),
        labelled(text(l, Msg::ConfiguredSitesLabel), decimal(s.site_count as nat)),
        labelled(text(l, Msg::NextChangeLabel), match s.next_transition {
            Some(t) => hhmm(t),
            None => "--:--"@,
        }),
    ]
}

pub fn home_lines(s: &StatusSnapshot, i18n: I18n) -> (r: Vec<String>)
    ensures
        strs(r@) == home_lines_spec(*s, i18n@),
{
    let mut out: Vec<String> = Vec::new();
    let mut first = to_chars(i18n.weekday(weekday_of_day(s.now.day)));
    extend_str(&mut first, " ");
    let t = hhmm_text(&s.now);
    extend_str(&mut first, t.as_str());
    out.push(from_chars(&first));
    out.push(String::new());
    out.push(String::from_str(if s.hosts_blocked {
        i18n.t(Msg::BlockedLabel)
    } else {
        i18n.t(Msg::UnblockedLabel)
    }));
    out.push(String::from_str(if s.schedule_active {
        i18n.t(Msg::ScheduleActiveLabel)
    } else {
        i18n.t(Msg::ScheduleInactiveLabel)
    }));
    let count = from_chars(&decimal_chars(s.site_count as u64));
    out.push(labelled_text(i18n.t(Msg::ConfiguredSitesLabel), count.as_str()));
    let next = match &s.next_transition {
        Some(n) => hhmm_text(n),
        None => String::from_str("--:--"),
    };
    out.push(labelled_text(i18n.t(Msg::NextChangeLabel), next.as_str()));
    assert(strs(out@) =~= home_lines_spec(*s, i18n@));
    out
}

/// The side panel of the sites screen: how many sites, and the selected one (`-` for
/// none or for a position past the list).
pub open spec fn sites_side_spec(sites: Seq<Seq<char>>, selected: Option<usize>, l: Language) -> Seq<Seq<char>> {
    seq![
        labelled(text(l, Msg::ConfiguredSitesLabel), decimal(sites.len())),
        labelled(text(l, Msg::SelectedLabel), match selected {
            Some(i) => if i < sites.len() {
                sites[i as int]
            } else {
                "-"@
            },
            None => "-"@,
        }),
    ]
}

pub fn sites_side_lines(sites: &Vec<String>, selected: Option<usize>, i18n: I18n) -> (r: Vec<String>)
    ensures
        strs(r@) == sites_side_spec(strs(sites@), selected, i18n@),
{
    let mut out: Vec<String> = Vec::new();
    let count = from_chars(&decimal_chars(sites.len() as u64));
    out.push(labelled_text(i18n.t(Msg::ConfiguredSitesLabel), count.as_str()));
    let chosen: &str = match selected {
        Some(i) => if i < sites.len() {
            sites[i].as_str()
        } else {
            "-"
        },
        None => "-",
    };
    out.push(labelled_text(i18n.t(Msg::SelectedLabel), chosen));
    assert(strs(out@) =~= sites_side_spec(strs(sites@), selected, i18n@));
    out
}

/// The rows of the schedule screen: the start and end hours (`HH:00`) and whether
/// weekends are blocked.
pub open spec fn schedule_rows_spec(c: ScheduleConfig, l: Language) -> Seq<Seq<char>> {
    seq![
        labelled(text(l, Msg::StartLabel), two_digits(c.start as nat) + ":00"@),
        labelled(text(l, Msg::EndLabel), two_digits(c.end as nat) + ":00"@),
        labelled(text(l, Msg::WeekendsLabel), text(l, if c.block_weekends {
            Msg::WeekendsOn
        } else {
            Msg::WeekendsOff
        })),
    ]
}

pub fn schedule_rows(c: &ScheduleConfig, i18n: I18n) -> (r: Vec<String>)
    ensures
        strs(r@) == schedule_rows_spec(*c, i18n@),
{
    let mut out: Vec<String> = Vec::new();
    let mut s = two_digit_chars(c.start as u64);
    extend_str(&mut s, ":00");
    let st = from_chars(&s);
    out.push(labelled_text(i18n.t(Msg::StartLabel), st.as_str()));
    let mut e = two_digit_chars(c.end as u64);
    extend_str(&mut e, ":00");
    let et = from_chars(&e);
    out.push(labelled_text(i18n.t(Msg::EndLabel), et.as_str()));
    out.push(labelled_text(i18n.t(Msg::WeekendsLabel), if c.block_weekends {
        i18n.t(Msg::WeekendsOn)
    } else {
        i18n.t(Msg::WeekendsOff)
    }));
    assert(strs(out@) =~= schedule_rows_spec(*c, i18n@));
    out
}

/// The language line of the settings screen: `label: <name> (<code>)`.
pub fn language_line(language: Language, i18n: I18n) -> (r: String)
    ensures
        r@ == labelled(text(i18n@, Msg::LanguageLabel), language_native_name(language) + " ("@
            + language_code(language) + ")"@),
{
    let mut v = to_chars(language.native_name());
    extend_str(&mut v, " (");
    extend_str(&mut v, language.code());
    extend_str(&mut v, ")");
    let value = from_chars(&v);
    labelled_text(i18n.t(Msg::LanguageLabel), value.as_str())
}

/// The language after a toggle on the settings screen.
pub fn toggled_language(language: Language) -> (r: Language)
    ensures
        r == (match language {
            Language::Es => Language::En,
            Language::En => Language::Es,
        }),
{
    match language {
        Language::Es => Language::En,
        Language::En => Language::Es,
    }
}

/// How a habit shows in the list: not due today, done in its period, or still open.
#[derive(Debug, Clone, Copy, PartialEq, Eq, Structural)]
pub enum HabitStatus {
    NotDue,
    Done,
    Pending,
}

pub fn habit_status(habit: &Habit, today: i32) -> (r: HabitStatus)
    requires
        valid_day(today as int),
    ensures
        r == (if !due_on(habit.frequency, today as int) {
            HabitStatus::NotDue
        } else if completed_spec(habit.frequency, strs(habit.completions@), today as int) {
            HabitStatus::Done
        } else {
            HabitStatus::Pending
        }),
{
    if !is_due_on(habit, today) {
        HabitStatus::NotDue
    } else if is_completed_in_period(habit, today) {
        HabitStatus::Done
    } else {
        HabitStatus::Pending
    }
}

/// A name cut to `max` characters: longer names keep their first `max - 1` characters
/// and end in `…`.
pub open spec fn truncated_name(name: Seq<char>, max: nat) -> Seq<char> {
    if name.len() <= max {
        name
    } else {
        name.take(max - 1) + seq!['…']
    }
}

pub fn truncate_habit_name(name: &str, max: usize) -> (r: String)
    requires
        max >= 1,
    ensures
        r@ == truncated_name(name@, max as nat),
{
    let chars = to_chars(name);
    if chars.len() <= max {
        return String::from_str(name);
    }
    let mut v: Vec<char> = Vec::new();
    let mut i: usize = 0;
    while i < max - 1
        invariant
            i <= max - 1,
            max - 1 < chars@.len(),
            v@ == chars@.take(i as int),
        decreases max - 1 - i,
    {
        v.push(chars[i]);
        i = i + 1;
        assert(v@ =~= chars@.take(i as int));
    }
    v.push('…');
    from_chars(&v)
}

/// The filled cells (of 6) of a day's attempts bar: the share of attempts resisted,
/// rounded to the nearest cell; none on a day without attempts.
pub open spec fn attempts_cells(resisted: int, initiated: int) -> int {
    if initiated == 0 {
        0
    } else {
        (resisted * 6 + initiated / 2) / initiated
    }
}

pub fn attempts_bar(resisted: u32, initiated: u32) -> (r: String)
    requires
        resisted * 6 + initiated / 2 <= u32::MAX,
    ensures
        r@ == repeat('█', attempts_cells(resisted as int, initiated as int) as nat) + repeat(
            '░',
            (if attempts_cells(resisted as int, initiated as int) < 6 {
                6 - attempts_cells(resisted as int, initiated as int)
            } else {
                0
            }) as nat,
        ),
{
    let filled: u32 = if initiated == 0 {
        0
    } else {
        (resisted * 6 + initiated / 2) / initiated
    };
    let empty: u32 = if filled < 6 {
        6 - filled
    } else {
        0
    };
    let mut v: Vec<char> = Vec::new();
    let mut k: u32 = 0;
    while k < filled
        invariant
            k <= filled,
            v@ == repeat('█', k as nat),
        decreases filled - k,
    {
        v.push('█');
        k = k + 1;
        assert(v@ =~= repeat('█', k as nat));
    }
    let ghost head = v@;
    let mut m: u32 = 0;
    while m < empty
        invariant
            m <= empty,
            v@ == head + repeat('░', m as nat),
        decreases empty - m,
    {
        v.push('░');
        m = m + 1;
        assert(v@ =~= head + repeat('░', m as nat));
    }
    from_chars(&v)
}

} // verus!
