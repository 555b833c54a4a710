use paramo::attempts::{normalize, DayAttempts};
use paramo::attempts::{last_n_days, record_completed, record_initiated, today, AttemptsLog};
use paramo::i18n::{I18n, Language};
use paramo::install::{is_homebrew_binary, prefer_stable_binary_path};
use paramo::ipc::{command_response, connection_gate, interpret_response, parse_command, IpcCommand};
use paramo::journal::{append_site_removal, entries_from_lines, entry_line, parse_journal_line};
use paramo::launchd::{
    bootout_service, bootstrap_target, kickstart_service, query_service, service_disabled,
    BootoutAction, BootoutPhase, CommandResult,
};
use paramo::paths::{join_path, user_config_dir_in, user_journal_file, user_preferences_file, user_witness_file};
use paramo::streak::{observe_day, record_break, record_clean_day, StreakState};

fn run(success: bool, stdout: &str, stderr: &str) -> CommandResult {
    CommandResult {
        success,
        status: if success { "exit status: 0".to_string() } else { "exit status: 113".to_string() },
        stdout: stdout.to_string(),
        stderr: stderr.to_string(),
    }
}

#[test]
fn disabled_state_is_read_or_the_failure_reported() {
    let out = run(true, "disabled services = {\n\t\"com.paramo.blocker\" => disabled\n}", "");
    assert_eq!(service_disabled("com.paramo.blocker", &out), Ok(Some(true)));
    assert_eq!(service_disabled("com.other", &out), Ok(None));
    let failed = run(false, "", "boom");
    assert_eq!(
        service_disabled("com.paramo.blocker", &failed),
        Err("`launchctl print-disabled system` exited with status exit status: 113 | stderr: boom".to_string())
    );
}

#[test]
fn service_query_reads_print_output() {
    let loaded = query_service("com.paramo.blocker", Some(false), &run(true, "pid = 42\nprogram = /usr/local/bin/paramo", "")).unwrap();
    assert!(loaded.loaded);
    assert_eq!(loaded.pid.as_deref(), Some("42"));
    assert_eq!(loaded.disabled, Some(false));
    let missing = query_service("com.paramo.blocker", None, &run(false, "", "Could not find service \"x\" in domain")).unwrap();
    assert!(!missing.loaded);
    let broken = query_service("com.paramo.blocker", None, &run(false, "", "denied"));
    assert_eq!(
        broken.err().as_deref(),
        Some("`launchctl print system/com.paramo.blocker` exited with status exit status: 113 | stderr: denied")
    );
}

#[test]
fn launchctl_arguments() {
    assert_eq!(bootstrap_target("/Library/LaunchDaemons/x.plist"), vec!["bootstrap", "system", "/Library/LaunchDaemons/x.plist"]);
    assert_eq!(kickstart_service("com.paramo.blocker"), vec!["kickstart", "-k", "system/com.paramo.blocker"]);
}

#[test]
fn bootout_steps() {
    let label = "com.paramo.blocker";
    assert!(matches!(bootout_service(label, &BootoutPhase::Begin), BootoutAction::QueryStatus));
    assert!(matches!(
        bootout_service(label, &BootoutPhase::Checked { loaded: false }),
        BootoutAction::Finish { result: Ok(false) }
    ));
    match bootout_service(label, &BootoutPhase::Checked { loaded: true }) {
        BootoutAction::RunBootout { args } => assert_eq!(args, vec!["bootout", "system/com.paramo.blocker"]),
        other => panic!("unexpected {:?}", other),
    }
    assert!(matches!(
        bootout_service(label, &BootoutPhase::Ran { run: run(true, "", "") }),
        BootoutAction::Finish { result: Ok(true) }
    ));
    assert!(matches!(
        bootout_service(label, &BootoutPhase::Ran { run: run(false, "", "") }),
        BootoutAction::QueryStatus
    ));
    assert!(matches!(
        bootout_service(label, &BootoutPhase::Rechecked { failed: run(false, "", "x"), loaded: false }),
        BootoutAction::Finish { result: Ok(true) }
    ));
    match bootout_service(label, &BootoutPhase::Rechecked { failed: run(false, "out", ""), loaded: true }) {
        BootoutAction::Finish { result: Err(e) } => assert_eq!(
            e,
            "`launchctl bootout system/com.paramo.blocker` exited with status exit status: 113 | stdout: out"
        ),
        other => panic!("unexpected {:?}", other),
    }
}

#[test]
fn ipc_requests_and_replies() {
    assert_eq!(parse_command(" block\n"), IpcCommand::Block);
    assert_eq!(parse_command("sync"), IpcCommand::Sync);
    assert_eq!(parse_command(" reboot "), IpcCommand::Unknown("reboot".to_string()));
    assert_eq!(command_response(&IpcCommand::Block, &Ok(())), "ok");
    assert_eq!(command_response(&IpcCommand::Unblock, &Err("nope".to_string())), "nope");
    assert_eq!(command_response(&IpcCommand::Unknown("x".to_string()), &Ok(())), "Unknown command: x");
    assert_eq!(interpret_response("ok\n"), Ok(()));
    assert_eq!(interpret_response("  "), Err("El daemon no devolvió ninguna respuesta.".to_string()));
    assert_eq!(interpret_response("bad\n"), Err("bad".to_string()));
    assert_eq!(connection_gate(&Ok(501), 501), None);
    assert_eq!(connection_gate(&Ok(0), 501), None);
    assert_eq!(connection_gate(&Ok(502), 501), Some("Unauthorized client uid: 502".to_string()));
    assert_eq!(
        connection_gate(&Err("no peer".to_string()), 501),
        Some("Failed to validate client identity: no peer".to_string())
    );
}

#[test]
fn journal_lines() {
    assert_eq!(append_site_removal("tiktok.com", ""), "[Eliminado sitio tiktok.com] (sin motivo)");
    assert_eq!(entry_line("2024-03-18T10:00:00+00:00", "aburrido"), "2024-03-18T10:00:00+00:00|aburrido");
    let e = parse_journal_line("2024-03-18T10:00:00+00:00|aburrido|mucho").unwrap();
    assert_eq!(e.reason, "aburrido|mucho");
    assert!(parse_journal_line("sin separador").is_none());
    assert!(parse_journal_line("ayer|aburrido").is_none());
    let lines = vec![
        "2024-03-18T10:00:00+00:00|primero".to_string(),
        "roto".to_string(),
        "2024-03-19T10:00:00+00:00|segundo".to_string(),
    ];
    let entries = entries_from_lines(&lines);
    let reasons: Vec<&str> = entries.iter().map(|e| e.reason.as_str()).collect();
    assert_eq!(reasons, vec!["segundo", "primero"]);
}

#[test]
fn streak_records() {
    let mut s = StreakState::default();
    assert!(record_clean_day(&mut s, 100));
    assert!(!record_clean_day(&mut s, 100));
    assert!(record_clean_day(&mut s, 101));
    assert_eq!((s.current, s.best), (2, 2));
    record_break(&mut s, 102, "aburrido");
    assert_eq!((s.current, s.best, s.total_breaks), (0, 2, 1));
    assert_eq!(s.last_break, Some(102));
    assert_eq!(s.last_break_reason.as_deref(), Some("aburrido"));
}

#[test]
fn attempts_are_counted_per_day() {
    let mut log = AttemptsLog { days: Vec::new() };
    record_initiated(&mut log, 10);
    record_initiated(&mut log, 10);
    record_completed(&mut log, 10);
    record_initiated(&mut log, 8);
    let d = today(&log, 10);
    assert_eq!((d.initiated, d.completed, d.resisted), (2, 1, 1));
    assert_eq!(log.days.iter().map(|d| d.date).collect::<Vec<_>>(), vec![8, 10]);
    let week = last_n_days(&log, 10, 3);
    assert_eq!(week.iter().map(|d| (d.date, d.initiated)).collect::<Vec<_>>(), vec![(8, 1), (9, 0), (10, 2)]);
    assert_eq!(today(&log, 11).initiated, 0);
}

#[test]
fn binary_locations() {
    assert!(is_homebrew_binary("/opt/homebrew/Cellar/paramo/0.1.0/bin/paramo"));
    assert!(!is_homebrew_binary("/Users/me/target/release/paramo"));
    assert_eq!(prefer_stable_binary_path("/x/paramo", [false, true]), "/usr/local/bin/paramo");
    assert_eq!(prefer_stable_binary_path("/x/paramo", [false, false]), "/x/paramo");
}

#[test]
fn user_paths() {
    assert_eq!(join_path("/a/b", "c.json"), "/a/b/c.json");
    let dir = user_config_dir_in(Some("/Users/me"));
    assert_eq!(dir, "/Users/me/.config/paramo");
    assert_eq!(user_config_dir_in(None), "./paramo");
    assert!(user_witness_file(&dir).starts_with(&dir));
    let _ = I18n::new(Language::Es);
}

#[test]
fn normalizing_twice_changes_nothing() {
    let mut days = Vec::new();
    for k in 0..70 {
        let date = 1000 - (k * 7) % 70;
        days.push(DayAttempts { date, initiated: (k % 5) as u32, completed: (k % 3) as u32, resisted: 99 });
    }
    let mut log = AttemptsLog { days };
    normalize(&mut log);
    assert_eq!(log.days.len(), 60);
    assert!(log.days.windows(2).all(|w| w[0].date <= w[1].date));
    assert!(log.days.iter().all(|d| d.resisted == d.initiated.saturating_sub(d.completed)));
    let once = log.days.clone();
    normalize(&mut log);
    assert_eq!(log.days, once);
}

#[test]
fn replies_read_back_as_sent() {
    let sync = parse_command("sync\n");
    let ok = format!("{}\n", command_response(&sync, &Ok(())));
    assert_eq!(interpret_response(&ok), Ok(()));
    let failed = format!("{}\n", command_response(&sync, &Err(" permiso denegado ".to_string())));
    assert_eq!(interpret_response(&failed), Err("permiso denegado".to_string()));
    let unknown = format!("{}\n", command_response(&parse_command("reboot"), &Ok(())));
    assert_eq!(interpret_response(&unknown), Err("Unknown command: reboot".to_string()));
}

#[test]
fn clean_day_only_on_a_date_change_seen_while_running() {
    let mut s = StreakState::default();
    assert!(!observe_day(&mut s, None, 100));
    assert_eq!(s.current, 0);
    assert!(!observe_day(&mut s, Some(100), 100));
    assert!(observe_day(&mut s, Some(100), 101));
    assert_eq!((s.current, s.last_clean), (1, Some(101)));
    assert!(!observe_day(&mut s, Some(100), 101));
    assert_eq!(s.current, 1);
}

#[test]
fn language_codes_read_back() {
    for l in [Language::Es, Language::En] {
        assert_eq!(Language::parse(l.code()), Some(l));
    }
    assert_eq!(Language::parse(" EN "), Some(Language::En));
    assert_eq!(Language::parse("Español"), Some(Language::Es));
    assert_eq!(Language::parse("fr"), None);
}

#[test]
fn user_files_share_the_application_directory() {
    for home in [Some("/Users/me"), Some("/Users/me/"), None] {
        let dir = user_config_dir_in(home);
        for file in [user_preferences_file(&dir), user_journal_file(&dir), user_witness_file(&dir)] {
            assert_eq!(std::path::Path::new(&file).parent(), Some(std::path::Path::new(&dir)));
        }
    }
}

#[test]
fn recording_counts_an_earlier_day_of_a_full_log() {
    let days: Vec<DayAttempts> =
        (0..60).map(|k| DayAttempts { date: 100 + 2 * k, initiated: 0, completed: 0, resisted: 0 }).collect();
    let mut log = AttemptsLog { days };
    record_completed(&mut log, 101);
    let d = today(&log, 101);
    assert_eq!((d.date, d.initiated, d.completed, d.resisted), (101, 0, 1, 0));
    assert_eq!(log.days.len(), 60);
    assert_eq!(log.days[0].date, 101);
    // a new day before all sixty is the one that normalizing drops
    record_initiated(&mut log, 50);
    assert_eq!(today(&log, 50).initiated, 0);
}
