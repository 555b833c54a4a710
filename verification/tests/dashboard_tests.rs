use paramo::blocker::StatusSnapshot;
use paramo::config::ScheduleConfig;
use paramo::dashboard::{
    advance_flow, attempts_bar, countdown_title, countdown_view, final_title,
    final_view, flow_key, home_lines, language_line, next_tab, previous_tab, quoted_reason,
    reason_title, removal_friction, schedule_cursor_down, schedule_cursor_up, schedule_rows,
    select_next, select_previous, sites_side_lines, toggled_language, truncate_habit_name,
    unblock_friction, wrap_hour, FlowKey, FlowNotice, FrictionAction, FrictionFlow, TabId,
    distraction_phrase, wave_frame,
};
use paramo::i18n::{I18n, Language};
use paramo::scheduler::LocalTime;

#[test]
fn tabs_go_round() {
    assert_eq!(TabId::all().len(), 8);
    assert_eq!(TabId::from_index(9), TabId::Sites);
    assert_eq!(TabId::Exit.index(), 7);
    assert_eq!(next_tab(TabId::Exit), TabId::Home);
    assert_eq!(previous_tab(TabId::Home), TabId::Exit);
    for t in TabId::all() {
        assert_eq!(previous_tab(next_tab(t)), t);
        assert_eq!(next_tab(previous_tab(t)), t);
    }
}

#[test]
fn selection_wraps_around() {
    assert_eq!(select_next(Some(2), 3), Some(0));
    assert_eq!(select_next(None, 3), Some(0));
    assert_eq!(select_next(Some(0), 0), None);
    assert_eq!(select_previous(Some(0), 3), Some(2));
    assert_eq!(select_previous(None, 3), Some(0));
    for i in 0..4 {
        assert_eq!(select_previous(select_next(Some(i), 4), 4), Some(i));
    }
    assert_eq!(schedule_cursor_down(2), 0);
    assert_eq!(schedule_cursor_up(0), 2);
}

#[test]
fn hours_wrap() {
    assert_eq!(wrap_hour(0, -1), 23);
    assert_eq!(wrap_hour(23, 1), 0);
    assert_eq!(wrap_hour(9, 1), 10);
    assert_eq!(wrap_hour(9, -1), 8);
}

#[test]
fn unblock_countdown_is_thirty_seconds() {
    assert_eq!(unblock_friction(false, 10), None);
    assert_eq!(
        unblock_friction(true, 10),
        Some(FrictionFlow::Countdown { action: FrictionAction::Unblock, started_ms: 10, duration_secs: 30 })
    );
}

#[test]
fn unblock_flow_runs_through() {
    let mut flow = unblock_friction(true, 1_000);
    assert_eq!(advance_flow(&mut flow, 30_999), None);
    assert!(matches!(flow, Some(FrictionFlow::Countdown { .. })));
    assert_eq!(advance_flow(&mut flow, 31_000), None);
    assert_eq!(
        flow,
        Some(FrictionFlow::ReasonPrompt { action: FrictionAction::Unblock, value: String::new() })
    );
    assert_eq!(flow_key(&mut flow, FlowKey::Enter, 40_000), Some(FlowNotice::ReasonRequired));
    for c in " aburrido!".chars() {
        assert_eq!(flow_key(&mut flow, FlowKey::Char(c), 40_000), None);
    }
    assert_eq!(flow_key(&mut flow, FlowKey::Backspace, 40_000), None);
    assert_eq!(flow_key(&mut flow, FlowKey::Other, 40_000), None);
    assert_eq!(flow_key(&mut flow, FlowKey::Char(' '), 40_000), None);
    assert_eq!(flow_key(&mut flow, FlowKey::Enter, 41_000), None);
    assert_eq!(
        flow,
        Some(FrictionFlow::FinalCountdown {
            action: FrictionAction::Unblock,
            started_ms: 41_000,
            reason: "aburrido".to_string()
        })
    );
    assert_eq!(advance_flow(&mut flow, 100_999), None);
    assert_eq!(
        advance_flow(&mut flow, 101_000),
        Some((FrictionAction::Unblock, "aburrido".to_string()))
    );
    assert_eq!(flow, None);
}

#[test]
fn escape_cancels_any_flow() {
    let mut flow = Some(removal_friction("tiktok.com".to_string(), 0));
    assert_eq!(flow_key(&mut flow, FlowKey::Esc, 5), Some(FlowNotice::Cancelled));
    assert_eq!(flow, None);
    let mut counting = unblock_friction(true, 0);
    assert_eq!(flow_key(&mut counting, FlowKey::Char('x'), 5), None);
    assert!(matches!(counting, Some(FrictionFlow::Countdown { .. })));
}

#[test]
fn countdown_view_counts_down_and_rotates_phrases() {
    let v = countdown_view(1_000, 30, 8_500);
    assert_eq!(v.remaining, 23);
    assert_eq!(v.phrase, 2);
    let done = countdown_view(1_000, 30, 999_000);
    assert_eq!(done.remaining, 0);
    assert_eq!(done.phrase, 10);
    assert_eq!(countdown_view(5_000, 30, 0).remaining, 30);
    assert_eq!(distraction_phrase(0), "Brillando");
    assert_eq!(distraction_phrase(49), "Ventileando");
}

#[test]
fn final_view_fills_the_bar() {
    let v = final_view(0, 30_000);
    assert_eq!(v.remaining, 30);
    assert_eq!(v.bar, format!("[{}{}] 30s", "█".repeat(15), "░".repeat(15)));
    assert_eq!(v.wave, 250 % 6);
    assert!(v.breath_in == ((30 / 4) % 2 == 0));
    let end = final_view(0, 75_000);
    assert_eq!(end.remaining, 0);
    assert_eq!(end.bar, format!("[{}] 0s", "█".repeat(30)));
    let start = final_view(10, 0);
    assert_eq!(start.bar, format!("[{}] 60s", "░".repeat(30)));
    assert!(start.breath_in);
    assert_eq!(wave_frame(0), "≈   ≈   ≈   ≈   ≈   ≈   ≈");
}

#[test]
fn flow_titles_name_the_site() {
    let es = I18n::new(Language::Es);
    let site = FrictionAction::RemoveSite("tiktok.com".to_string());
    assert!(countdown_title(&site, es).contains("tiktok.com"));
    assert!(reason_title(&site, es).contains("tiktok.com"));
    assert!(final_title(&site, es).contains("tiktok.com"));
    assert_eq!(countdown_title(&FrictionAction::Unblock, es), es.countdown_title());
    assert_eq!(final_title(&FrictionAction::Unblock, es), es.final_countdown_title());
    assert_eq!(quoted_reason("aburrido"), "\"aburrido\"");
}

#[test]
fn home_lines_show_state() {
    let en = I18n::new(Language::En);
    let snapshot = StatusSnapshot {
        now: LocalTime { day: 738963, hour: 9, minute: 5, second: 0 },
        hosts_blocked: true,
        schedule_active: true,
        next_transition: Some(LocalTime { day: 738963, hour: 18, minute: 0, second: 0 }),
        site_count: 4,
    };
    let lines = home_lines(&snapshot, en);
    assert_eq!(
        lines,
        vec![
            format!("{} 09:05", en.weekday(paramo::calendar::Weekday::Mon)),
            String::new(),
            en.blocked_label().to_string(),
            en.schedule_active_label().to_string(),
            format!("{}: 4", en.configured_sites_label()),
            format!("{}: 18:00", en.next_change_label()),
        ]
    );
    let idle = StatusSnapshot { next_transition: None, hosts_blocked: false, ..snapshot };
    let lines = home_lines(&idle, en);
    assert_eq!(lines[2], en.unblocked_label());
    assert_eq!(lines[5], format!("{}: --:--", en.next_change_label()));
}

#[test]
fn side_panels_and_rows() {
    let en = I18n::new(Language::En);
    let sites = vec!["a.com".to_string(), "b.com".to_string()];
    assert_eq!(
        sites_side_lines(&sites, Some(1), en),
        vec![format!("{}: 2", en.configured_sites_label()), format!("{}: b.com", en.selected_label())]
    );
    assert_eq!(sites_side_lines(&sites, Some(5), en)[1], format!("{}: -", en.selected_label()));
    let rows = schedule_rows(&ScheduleConfig { start: 9, end: 18, block_weekends: true }, en);
    assert_eq!(
        rows,
        vec![
            format!("{}: 09:00", en.start_label()),
            format!("{}: 18:00", en.end_label()),
            format!("{}: {}", en.weekends_label(), en.weekends_on()),
        ]
    );
    assert_eq!(
        language_line(Language::Es, en),
        format!("{}: Español (es)", en.language_label())
    );
    assert_eq!(toggled_language(Language::Es), Language::En);
    assert_eq!(toggled_language(Language::En), Language::Es);
}

#[test]
fn habit_names_are_cut() {
    assert_eq!(truncate_habit_name("leer", 10), "leer");
    assert_eq!(truncate_habit_name("meditar cada mañana", 8), "meditar…");
}

#[test]
fn attempts_bar_rounds_resisted_share() {
    assert_eq!(attempts_bar(0, 0), "░░░░░░");
    assert_eq!(attempts_bar(3, 3), "██████");
    assert_eq!(attempts_bar(1, 3), "██░░░░");
    assert_eq!(attempts_bar(1, 4), "██░░░░");
}
