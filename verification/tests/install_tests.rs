use paramo::blocker::BlockerAction;
use paramo::i18n::{I18n, Language};
use paramo::install::{config_install_message, sync_action_message, ConfigInstallAction};
use paramo::paths;

#[test]
fn test_sync_action_message_is_stable() {
    let text = sync_action_message(BlockerAction::Updated, I18n::new(Language::En));
    assert!(text.contains("hosts"));
}

#[test]
fn test_config_install_message_mentions_destination() {
    let text = config_install_message(ConfigInstallAction::Migrated, I18n::new(Language::Es));
    assert!(text.contains(paths::SYSTEM_CONFIG_FILE));
}
