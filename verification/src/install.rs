use vstd::prelude::*;
use crate::blocker::BlockerAction;
use crate::i18n::{I18n, Msg, fill, text};
use crate::launchd::{ServiceStatus, opt_view};
use crate::paths::{LAUNCHD_LABEL, LEGACY_SYSTEM_CONFIG_FILE, MANUAL_BINARY_DEST, SYSTEM_CONFIG_FILE};
use crate::text::{chars_eq, contains_chars, contains_sub, starts_with, starts_with_chars, to_chars};

verus! {

/// The lines that install and uninstall report.
#[derive(Debug, Clone)]
pub struct InstallSummary {
    pub lines: Vec<String>,
}

/// What installation did with the configuration file.
#[derive(Debug, Clone, Copy, PartialEq, Eq, Structural)]
pub enum ConfigInstallAction {
    Preserved,
    Migrated,
    Created,
}

/// The existing system file is kept, else the earlier installation's file is
/// migrated, else the file is created.
pub fn config_install_action(active_exists: bool, legacy_exists: bool) -> (r: ConfigInstallAction)
    ensures
        r == (if active_exists {
            ConfigInstallAction::Preserved
        } else if legacy_exists {
            ConfigInstallAction::Migrated
        } else {
            ConfigInstallAction::Created
        }),
{
    if active_exists {
        ConfigInstallAction::Preserved
    } else if legacy_exists {
        ConfigInstallAction::Migrated
    } else {
        ConfigInstallAction::Created
    }
}

pub open spec fn config_install_text(l: crate::i18n::Language, action: ConfigInstallAction) -> Seq<char> {
    match action {
        ConfigInstallAction::Preserved => fill(text(l, Msg::InstallConfigPreserved), seq![SYSTEM_CONFIG_FILE@]),
        ConfigInstallAction::Migrated => fill(
            text(l, Msg::InstallConfigMigrated),
            seq![LEGACY_SYSTEM_CONFIG_FILE@, SYSTEM_CONFIG_FILE@],
        ),
        ConfigInstallAction::Created => fill(text(l, Msg::InstallConfigCreated), seq![SYSTEM_CONFIG_FILE@]),
    }
}

/// The report line for what installation did with the configuration.
pub fn config_install_message(action: ConfigInstallAction, i18n: I18n) -> (r: String)
    ensures
        r@ == config_install_text(i18n@, action),
{
    match action {
        ConfigInstallAction::Preserved => {
            let args = [SYSTEM_CONFIG_FILE];
            assert(crate::i18n::arg_views(args@) =~= seq![SYSTEM_CONFIG_FILE@]);
            i18n.format(Msg::InstallConfigPreserved, &args)
        },
        ConfigInstallAction::Migrated => {
            let args = [LEGACY_SYSTEM_CONFIG_FILE, SYSTEM_CONFIG_FILE];
            assert(crate::i18n::arg_views(args@) =~= seq![LEGACY_SYSTEM_CONFIG_FILE@, SYSTEM_CONFIG_FILE@]);
            i18n.format(Msg::InstallConfigMigrated, &args)
        },
        ConfigInstallAction::Created => {
            let args = [SYSTEM_CONFIG_FILE];
            assert(crate::i18n::arg_views(args@) =~= seq![SYSTEM_CONFIG_FILE@]);
            i18n.format(Msg::InstallConfigCreated, &args)
        },
    }
}

pub open spec fn sync_action_msg(action: BlockerAction) -> Msg {
    match action {
        BlockerAction::Blocked => Msg::InstallSyncBlocked,
        BlockerAction::Unblocked => Msg::InstallSyncUnblocked,
        BlockerAction::Updated => Msg::InstallSyncUpdated,
        BlockerAction::AlreadyCorrect(_) => Msg::InstallSyncAlreadyCorrect,
    }
}

/// The report line for what the first sync did to the hosts file.
pub fn sync_action_message(action: BlockerAction, i18n: I18n) -> (r: String)
    ensures
        r@ == text(i18n@, sync_action_msg(action)),
{
    let key = match action {
        BlockerAction::Blocked => Msg::InstallSyncBlocked,
        BlockerAction::Unblocked => Msg::InstallSyncUnblocked,
        BlockerAction::Updated => Msg::InstallSyncUpdated,
        BlockerAction::AlreadyCorrect(_) => Msg::InstallSyncAlreadyCorrect,
    };
    String::from_str(i18n.t(key))
}

pub open spec fn launchd_status_text(l: crate::i18n::Language, s: ServiceStatus) -> Seq<char> {
    let suffix = match opt_view(s.pid) {
        Some(p) => fill(text(l, Msg::InstallPidSuffix), seq![p]),
        None => Seq::empty(),
    };
    fill(text(l, Msg::InstallLaunchdVerified), seq![LAUNCHD_LABEL@, suffix])
}

/// The report line for the loaded service, with its pid when known.
pub fn launchd_status_message(status: &ServiceStatus, i18n: I18n) -> (r: String)
    ensures
        r@ == launchd_status_text(i18n@, *status),
{
    let pid_suffix = match &status.pid {
        Some(pid) => {
            let args = [pid.as_str()];
            assert(crate::i18n::arg_views(args@) =~= seq![pid@]);
            i18n.format(Msg::InstallPidSuffix, &args)
        },
        None => String::new(),
    };
    let args = [LAUNCHD_LABEL, pid_suffix.as_str()];
    assert(crate::i18n::arg_views(args@) =~= seq![LAUNCHD_LABEL@, pid_suffix@]);
    i18n.format(Msg::InstallLaunchdVerified, &args)
}

pub open spec fn homebrew_path(p: Seq<char>) -> bool {
    contains_sub(p, "/Cellar/"@) || starts_with(p, "/opt/homebrew/bin/"@) || starts_with(p, "/usr/local/bin/"@)
}

/// Whether the binary was installed by Homebrew (or lives where it links them).
pub fn is_homebrew_binary(path: &str) -> (r: bool)
    ensures
        r == homebrew_path(path@),
{
    let p = to_chars(path);
    let a = to_chars("/Cellar/");
    let b = to_chars("/opt/homebrew/bin/");
    let c = to_chars("/usr/local/bin/");
    contains_chars(&p, &a) || starts_with_chars(&p, &b) || starts_with_chars(&p, &c)
}

/// Whether the binary is the one that installation copies.
pub fn is_global_binary(path: &str) -> (r: bool)
    ensures
        r == (path@ == MANUAL_BINARY_DEST@),
{
    let p = to_chars(path);
    let m = to_chars(MANUAL_BINARY_DEST);
    chars_eq(&p, &m)
}

/// The first Homebrew location that exists, else the running binary.
pub fn prefer_stable_binary_path(current_exe: &str, candidate_exists: [bool; 2]) -> (r: String)
    ensures
        r@ == (if candidate_exists[0] {
            "/opt/homebrew/bin/paramo"@
        } else if candidate_exists[1] {
            "/usr/local/bin/paramo"@
        } else {
            current_exe@
        }),
{
    let candidates = crate::paths::brew_bin_candidates();
    if candidate_exists[0] {
        String::from_str(candidates[0].as_str())
    } else if candidate_exists[1] {
        String::from_str(candidates[1].as_str())
    } else {
        String::from_str(current_exe)
    }
}

/// The report line on the binary the daemon runs: copied, or the existing one.
pub fn binary_message(binary_path: &str, i18n: I18n) -> (r: String)
    ensures
        r@ == (if binary_path@ == MANUAL_BINARY_DEST@ {
            fill(text(i18n@, Msg::InstallBinaryCopied), seq![MANUAL_BINARY_DEST@])
        } else {
            fill(text(i18n@, Msg::InstallBinaryUsingExisting), seq![binary_path@])
        }),
{
    if is_global_binary(binary_path) {
        let args = [MANUAL_BINARY_DEST];
        assert(crate::i18n::arg_views(args@) =~= seq![MANUAL_BINARY_DEST@]);
        i18n.format(Msg::InstallBinaryCopied, &args)
    } else {
        let args = [binary_path];
        assert(crate::i18n::arg_views(args@) =~= seq![binary_path@]);
        i18n.format(Msg::InstallBinaryUsingExisting, &args)
    }
}

} // verus!
