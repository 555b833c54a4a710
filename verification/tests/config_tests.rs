use paramo::config::{config_source, Config, ConfigSource, SiteMutation};

fn sites(c: &Config) -> Vec<&str> {
    c.domains.list.iter().map(|s| s.as_str()).collect()
}

#[test]
fn default_config_matches_documented_defaults() {
    let c = Config::default();
    assert_eq!((c.schedule.start, c.schedule.end, c.schedule.block_weekends), (9, 18, false));
    assert_eq!(sites(&c), vec!["tiktok.com", "instagram.com", "pornhub.com", "youtube.com"]);
    assert_eq!(c.hosts.file, "/etc/hosts");
    assert_eq!(c.hosts.marker, "# --- PARAMO BLOCK ---");
    assert_eq!(c.hosts.redirect_ips, vec!["127.0.0.1".to_string(), "::1".to_string()]);
}

#[test]
fn add_site_normalizes_and_refuses_duplicates() {
    let mut c = Config::default();
    assert_eq!(c.add_site("  Reddit.COM "), Ok(SiteMutation::Added("reddit.com".to_string())));
    assert_eq!(sites(&c).last(), Some(&"reddit.com"));
    assert_eq!(
        c.add_site("TIKTOK.com"),
        Ok(SiteMutation::AlreadyPresent("tiktok.com".to_string()))
    );
    assert_eq!(c.domains.list.len(), 5);
    assert_eq!(c.add_site("   "), Err("invalid site: '   '".to_string()));
    assert_eq!(c.domains.list.len(), 5);
}

#[test]
fn remove_site_undoes_add() {
    let mut c = Config::default();
    let before: Vec<String> = c.domains.list.clone();
    c.add_site("reddit.com").unwrap();
    assert_eq!(c.remove_site(" REDDIT.com"), Ok(SiteMutation::Removed("reddit.com".to_string())));
    assert_eq!(c.domains.list, before);
    assert_eq!(
        c.remove_site("reddit.com"),
        Ok(SiteMutation::NotFound("reddit.com".to_string()))
    );
    assert_eq!(c.remove_site(""), Err("invalid site: ''".to_string()));
}

#[test]
fn schedule_hours_are_checked() {
    let mut c = Config::default();
    assert_eq!(c.set_schedule(22, 8, true), Ok(()));
    assert_eq!((c.schedule.start, c.schedule.end, c.schedule.block_weekends), (22, 8, true));
    assert_eq!(c.set_schedule(24, 8, false), Err("Invalid hour (0-23)".to_string()));
    assert_eq!((c.schedule.start, c.schedule.end, c.schedule.block_weekends), (22, 8, true));
}

#[test]
fn update_value_sets_known_keys() {
    let mut c = Config::default();
    assert_eq!(c.update_value("schedule.block_start", "7"), Ok(()));
    assert_eq!(c.schedule.start, 7);
    assert_eq!(c.update_value("schedule.block_weekends", "true"), Ok(()));
    assert!(c.schedule.block_weekends);
    assert_eq!(c.update_value("logging.level", "debug"), Ok(()));
    assert_eq!(c.logging.level, "debug");
    assert_eq!(c.update_value("schedule.block_end", "x"), Err("Invalid hour (0-23)".to_string()));
    assert_eq!(
        c.update_value("schedule.block_weekends", "maybe"),
        Err("Invalid boolean (true/false)".to_string())
    );
    assert_eq!(
        c.update_value("nope", "1"),
        Err("Unknown configuration key: nope".to_string())
    );
}

#[test]
fn config_source_prefers_active_file() {
    assert_eq!(config_source(true, true), ConfigSource::Active);
    assert_eq!(config_source(false, true), ConfigSource::Legacy);
    assert_eq!(config_source(false, false), ConfigSource::EmbeddedDefault);
}

#[test]
fn update_value_refuses_hours_past_23() {
    let mut c = Config::default();
    let start = c.schedule.start;
    assert_eq!(c.update_value("schedule.block_start", "24"), Err("Invalid hour (0-23)".to_string()));
    assert_eq!(c.schedule.start, start);
    assert_eq!(c.update_value("schedule.block_end", "255"), Err("Invalid hour (0-23)".to_string()));
    assert_eq!(c.update_value("schedule.block_start", "23"), Ok(()));
    assert_eq!(c.schedule.start, 23);
    assert_eq!(c.update_value("schedule.block_start", "9"), Ok(()));
    assert_eq!(c.schedule.start, 9);
}
