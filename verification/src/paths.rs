use vstd::prelude::*;
use crate::text::{ends_with, extend_str, from_chars, to_chars};

verus! {

pub const APP_BINARY_NAME: &'static str = "paramo";

pub const APP_DISPLAY_NAME: &'static str = "PARAMO";

pub const APP_SUPPORT_DIR: &'static str = "/etc/paramo";

pub const SYSTEM_CONFIG_FILE: &'static str = "/etc/paramo/config.toml";

pub const MANUAL_BINARY_DEST: &'static str = "/usr/local/bin/paramo";

pub const LOG_FILE: &'static str = "/var/log/paramo.log";

pub const LAUNCHD_LABEL: &'static str = "com.paramo.blocker";

pub const PLIST_DEST: &'static str = "/Library/LaunchDaemons/com.paramo.blocker.plist";

pub const IPC_SOCKET: &'static str = "/var/run/paramo.sock";

pub const LEGACY_SYSTEM_CONFIG_FILE: &'static str = "/etc/undistracted/config.toml";

pub const LEGACY_LAUNCHD_LABEL: &'static str = "com.undistracted.blocker";

pub const LEGACY_PLIST_DEST: &'static str = "/Library/LaunchDaemons/com.undistracted.blocker.plist";

/// `name` appended to the directory `dir` (`Path::join` of a relative name): no
/// separator after an empty directory or one that already ends in `/`.
pub open spec fn path_join(dir: Seq<char>, name: Seq<char>) -> Seq<char> {
    if dir.len() == 0 || dir.last() == '/' {
        dir + name
    } else {
        dir + seq!['/'] + name
    }
}

/// `Path::join` for a relative `name` (see `path_join`).
pub fn join_path(dir: &str, name: &str) -> (r: String)
    ensures
        r@ == path_join(dir@, name@),
{
    let mut v = to_chars(dir);
    if v.len() > 0 && v[v.len() - 1] != '/' {
        v.push('/');
    }
    extend_str(&mut v, name);
    from_chars(&v)
}

pub fn system_config_file() -> (r: String)
    ensures
        r@ == SYSTEM_CONFIG_FILE@,
{
    String::from_str(SYSTEM_CONFIG_FILE)
}

pub fn system_config_dir() -> (r: String)
    ensures
        r@ == APP_SUPPORT_DIR@,
{
    String::from_str(APP_SUPPORT_DIR)
}

/// `dirs::home_dir`: the user's home directory, which the platform decides from the
/// environment (`$HOME` on macOS), as text. Nothing is claimed of it: it depends on
/// the environment.
#[verifier::external_body]
fn platform_home_dir() -> (r: Option<String>) {
    match dirs::home_dir() {
        Some(p) => Some(p.to_string_lossy().into_owned()),
        None => None,
    }
}

/// The application's directory for the user whose home is `home`:
/// `<home>/.config/paramo`, or `./paramo` when there is no home.
pub open spec fn config_dir_for(home: Option<Seq<char>>) -> Seq<char> {
    match home {
        Some(h) => path_join(path_join(h, ".config"@), APP_BINARY_NAME@),
        None => path_join("."@, APP_BINARY_NAME@),
    }
}

/// The application's directory for the user whose home is `home` (see
/// `config_dir_for`).
pub fn user_config_dir_in(home: Option<&str>) -> (r: String)
    ensures
        r@ == config_dir_for(
            match home {
                Some(h) => Some(h@),
                None => None,
            },
        ),
{
    match home {
        Some(h) => {
            let c = join_path(h, ".config");
            join_path(c.as_str(), APP_BINARY_NAME)
        },
        None => join_path(".", APP_BINARY_NAME),
    }
}

/// The application's directory for the current user, `~/.config/paramo`.
pub fn user_config_dir() -> (r: String)
    ensures
        exists|h: Option<Seq<char>>| r@ == config_dir_for(h),
{
    let home = platform_home_dir();
    match home {
        Some(h) => {
            let r = user_config_dir_in(Some(h.as_str()));
            assert(r@ == config_dir_for(Some(h@)));
            r
        },
        None => {
            let r = user_config_dir_in(None);
            assert(r@ == config_dir_for(None));
            r
        },
    }
}

pub fn user_preferences_file(config_dir: &str) -> (r: String)
    ensures
        r@ == path_join(config_dir@, "preferences.toml"@),
{
    join_path(config_dir, "preferences.toml")
}

pub fn user_journal_file(config_dir: &str) -> (r: String)
    ensures
        r@ == path_join(config_dir@, "journal.log"@),
{
    join_path(config_dir, "journal.log")
}

pub fn user_witness_file(config_dir: &str) -> (r: String)
    ensures
        r@ == path_join(config_dir@, "witness.log"@),
{
    join_path(config_dir, "witness.log")
}

/// Where Homebrew puts the binary, on Apple silicon and on Intel.
pub fn brew_bin_candidates() -> (r: [String; 2])
    ensures
        r[0]@ == "/opt/homebrew/bin/paramo"@,
        r[1]@ == "/usr/local/bin/paramo"@,
{
    [String::from_str("/opt/homebrew/bin/paramo"), String::from_str("/usr/local/bin/paramo")]
}

} // verus!

verus! {

/// Where the last `/` of `p` is; -1 when there is none.
pub open spec fn last_slash(p: Seq<char>) -> int
    decreases p.len(),
{
    if p.len() == 0 {
        -1
    } else if p.last() == '/' {
        p.len() - 1
    } else {
        last_slash(p.drop_last())
    }
}

/// The directory part of a path whose last component is a name: the text before its
/// last `/`.
pub open spec fn parent_dir(p: Seq<char>) -> Seq<char> {
    if last_slash(p) < 0 {
        Seq::empty()
    } else {
        p.take(last_slash(p))
    }
}

proof fn lemma_last_slash_name(a: Seq<char>, n: Seq<char>)
    requires
        !n.contains('/'),
    ensures
        last_slash(a + n) == last_slash(a),
    decreases n.len(),
{
    if n.len() > 0 {
        assert((a + n).drop_last() =~= a + n.drop_last());
        assert(n.last() == n[n.len() - 1]);
        assert(!n.drop_last().contains('/')) by {
            if n.drop_last().contains('/') {
                let i = choose|i: int| 0 <= i < n.drop_last().len() && n.drop_last()[i] == '/';
                assert(n[i] == '/');
            }
        }
        lemma_last_slash_name(a, n.drop_last());
    } else {
        assert(a + n =~= a);
    }
}

/// A name joined to a directory that is not empty and does not end in `/` has that
/// directory as its parent.
proof fn lemma_parent_of_join(d: Seq<char>, n: Seq<char>)
    requires
        d.len() > 0,
        d.last() != '/',
        !n.contains('/'),
    ensures
        parent_dir(path_join(d, n)) == d,
{
    let s = d + seq!['/'];
    assert(path_join(d, n) == s + n);
    lemma_last_slash_name(s, n);
    assert(last_slash(s) == d.len());
    assert((s + n).take(d.len() as int) =~= d);
}

/// The preferences, the journal and the attempts log all lie in the user's
/// application directory, whatever the home directory is.
pub proof fn law_user_files_share_directory(home: Option<Seq<char>>)
    ensures
        parent_dir(path_join(config_dir_for(home), "preferences.toml"@)) == config_dir_for(home),
        parent_dir(path_join(config_dir_for(home), "journal.log"@)) == config_dir_for(home),
        parent_dir(path_join(config_dir_for(home), "witness.log"@)) == config_dir_for(home),
{
    reveal_strlit("paramo");
    reveal_strlit("preferences.toml");
    reveal_strlit("journal.log");
    reveal_strlit("witness.log");
    let d = config_dir_for(home);
    assert(d.len() > 0 && d.last() == 'o');
    assert(!"preferences.toml"@.contains('/'));
    assert(!"journal.log"@.contains('/'));
    assert(!"witness.log"@.contains('/'));
    lemma_parent_of_join(d, "preferences.toml"@);
    lemma_parent_of_join(d, "journal.log"@);
    lemma_parent_of_join(d, "witness.log"@);
}

} // verus!
