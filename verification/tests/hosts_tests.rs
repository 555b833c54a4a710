use paramo::blocker::{block_now, run, unblock_now, BlockState, BlockerAction};
use paramo::config::Config;
use paramo::hosts::{add_block, build_block_section, is_blocked, remove_block};

#[test]
fn test_build_block_section() {
    let marker = "# --- TEST ---";
    let domains = vec!["example.com".to_string(), "test.com".to_string()];
    let ips = vec!["127.0.0.1".to_string()];

    let result = build_block_section(marker, &domains, &ips);
    assert!(result.contains("example.com"));
    assert!(result.contains("test.com"));
    assert!(result.contains("www.example.com"));
    assert!(result.contains("127.0.0.1"));
    assert!(result.starts_with(marker));
    assert!(result.ends_with(marker));
}

#[test]
fn test_add_and_remove_block() {
    let marker = "# --- TEST ---";
    let block = "# --- TEST ---\n127.0.0.1 example.com\n# --- TEST ---";
    let content = "# Original hosts content\n";

    let with_block = add_block(content, block);
    assert!(with_block.contains("# Original hosts content"));
    assert!(with_block.contains("example.com"));

    let without_block = remove_block(&with_block, marker).unwrap();
    assert!(!without_block.contains("example.com"));
}

#[test]
fn test_remove_block_removes_duplicate_sections() {
    let marker = "# --- TEST ---";
    let block = "# --- TEST ---\n127.0.0.1 example.com\n# --- TEST ---";
    let content = format!("header\n\n{}\n\n{}\n", block, block);

    let without_block = remove_block(&content, marker).unwrap();
    assert_eq!(without_block, "header\n");
}

#[test]
fn test_is_blocked() {
    let marker = "# --- TEST ---";
    let content_blocked = "some content\n# --- TEST ---\nblocked";
    let content_not_blocked = "some content\nno marker here";

    assert!(is_blocked(content_blocked, marker));
    assert!(!is_blocked(content_not_blocked, marker));
}

#[test]
fn test_build_block_section_expands_youtube_aliases() {
    let marker = "# --- TEST ---";
    let domains = vec!["youtube.com".to_string()];
    let ips = vec!["127.0.0.1".to_string()];

    let result = build_block_section(marker, &domains, &ips);
    assert!(result.contains("127.0.0.1 youtube.com"));
    assert!(result.contains("127.0.0.1 www.youtube.com"));
    assert!(result.contains("127.0.0.1 m.youtube.com"));
    assert!(result.contains("127.0.0.1 youtu.be"));
}

#[test]
fn schedule_sync_blocks_then_restores_the_file() {
    let mut config = Config::default();
    config.domains.list = vec!["example.com".to_string()];
    let content = "127.0.0.1 localhost\n\n";

    let (action, written) = run(&config, true, content);
    assert_eq!(action, BlockerAction::Blocked);
    let blocked = written.unwrap();
    assert!(is_blocked(&blocked, &config.hosts.marker));

    let (again, nothing) = run(&config, true, &blocked);
    assert_eq!(again, BlockerAction::AlreadyCorrect(BlockState::Blocked));
    assert!(nothing.is_none());

    let (action, restored) = run(&config, false, &blocked);
    assert_eq!(action, BlockerAction::Unblocked);
    assert_eq!(restored.unwrap(), "127.0.0.1 localhost\n");
}

#[test]
fn subdomains_get_no_www_alias() {
    let ips = vec!["127.0.0.1".to_string()];
    let sub = build_block_section("# M", &vec!["m.tiktok.com".to_string()], &ips);
    assert_eq!(sub, "# M\n127.0.0.1 m.tiktok.com\n# M");
    let www = build_block_section("# M", &vec!["www.tiktok.com".to_string()], &ips);
    assert_eq!(www, "# M\n127.0.0.1 tiktok.com\n127.0.0.1 www.tiktok.com\n# M");
    let plain = build_block_section("# M", &vec!["tiktok.com".to_string()], &ips);
    assert_eq!(plain, "# M\n127.0.0.1 tiktok.com\n127.0.0.1 www.tiktok.com\n# M");
}

#[test]
fn manual_block_replaces_an_old_section_and_unblock_twice_is_once() {
    let mut config = Config::default();
    config.domains.list = vec!["example.com".to_string()];
    let marker = config.hosts.marker.clone();
    let old = format!("127.0.0.1 localhost\n\n{}\n127.0.0.1 old.com\n{}\n", marker, marker);
    let blocked = block_now(&config, &old);
    assert_eq!(blocked.lines().filter(|l| *l == marker).count(), 2);
    assert!(!blocked.contains("old.com"));
    assert!(blocked.contains("127.0.0.1 example.com"));
    let once = unblock_now(&config, &blocked);
    assert_eq!(once, "127.0.0.1 localhost\n");
    assert_eq!(unblock_now(&config, &once), once);
}
