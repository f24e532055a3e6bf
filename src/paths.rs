//! Where the persisted state lives: paths under the configuration
//! directory, as text joined with '/'.

use vstd::prelude::*;

verus! {

/// `name` joined under `dir` with one separator (`name` alone when `dir`
/// is empty).
pub open spec fn joined_path(dir: Seq<char>, name: Seq<char>) -> Seq<char> {
    if dir.len() == 0 {
        name
    } else if dir.last() == '/' {
        dir + name
    } else {
        dir + "/"@ + name
    }
}

/// Joins `name` under `dir`; see `joined_path`.
pub fn join_path(dir: &str, name: &str) -> (r: String)
    ensures
        r@ == joined_path(dir@, name@),
{
    let n = dir.unicode_len();
    let mut out = String::from_str(dir);
    if n > 0 && dir.get_char(n - 1) != '/' {
        out.append("/");
    }
    out.append(name);
    out
}

/// Whether a character is alphanumeric in Unicode's sense.
pub uninterp spec fn alphanumeric(c: char) -> bool;

/// Relies on char::is_alphanumeric: Unicode letters and numbers.
#[verifier::external_body]
fn is_alphanumeric(c: char) -> (r: bool)
    ensures
        r == alphanumeric(c),
{
    c.is_alphanumeric()
}

/// An account name made safe as a path component: every character other
/// than a letter, a number, '-' or '_' becomes '_'.
pub open spec fn sanitized(name: Seq<char>) -> Seq<char> {
    name.map_values(|c: char| if alphanumeric(c) || c == '-' || c == '_' { c } else { '_' })
}

/// Makes an account name safe as a path component; see `sanitized`.
pub fn sanitize_account_name(name: &str) -> (r: String)
    ensures
        r@ == sanitized(name@),
{
    let n = name.unicode_len();
    let mut out = String::new();
    let mut i: usize = 0;
    while i < n
        invariant
            n == name@.len(),
            i <= n,
            out@ == sanitized(name@.subrange(0, i as int)),
        decreases n - i,
    {
        let c = name.get_char(i);
        if is_alphanumeric(c) || c == '-' || c == '_' {
            out.append(name.substring_char(i, i + 1));
        } else {
            out.append("_");
            proof {
                reveal_strlit("_");
            }
        }
        i = i + 1;
        assert(out@ =~= sanitized(name@.subrange(0, i as int)));
    }
    assert(name@.subrange(0, n as int) =~= name@);
    out
}

/// The registry file.
pub fn get_config_path(config_dir: &str) -> (r: String)
    ensures
        r@ == joined_path(config_dir@, "config.json"@),
{
    join_path(config_dir, "config.json")
}

/// The directory of per-account credential storage.
pub fn get_accounts_dir(config_dir: &str) -> (r: String)
    ensures
        r@ == joined_path(config_dir@, "accounts"@),
{
    join_path(config_dir, "accounts")
}

/// The credential blob of an account.
pub fn get_account_auth_path(config_dir: &str, name: &str) -> (r: String)
    ensures
        r@ == joined_path(joined_path(joined_path(config_dir@, "accounts"@), sanitized(name@)), "auth.json"@),
{
    let dir = join_path(get_accounts_dir(config_dir).as_str(), sanitize_account_name(name).as_str());
    join_path(dir.as_str(), "auth.json")
}

/// The cache file of an account.
pub fn get_cache_path(config_dir: &str, account_name: &str) -> (r: String)
    ensures
        r@ == joined_path(config_dir@, "usage_cache_"@ + sanitized(account_name@) + ".json"@),
{
    let mut file = String::from_str("usage_cache_");
    file.append(sanitize_account_name(account_name).as_str());
    file.append(".json");
    join_path(config_dir, file.as_str())
}

/// The cycle configuration file.
pub fn get_cycle_config_path(config_dir: &str) -> (r: String)
    ensures
        r@ == joined_path(config_dir@, "cycle.json"@),
{
    join_path(config_dir, "cycle.json")
}

/// The cycle history file, one record per line.
pub fn get_cycle_history_path(config_dir: &str) -> (r: String)
    ensures
        r@ == joined_path(config_dir@, "cycle_history.jsonl"@),
{
    join_path(config_dir, "cycle_history.jsonl")
}

/// The usage history database.
pub fn get_history_db_path(config_dir: &str) -> (r: String)
    ensures
        r@ == joined_path(config_dir@, "history.db"@),
{
    join_path(config_dir, "history.db")
}

/// The wake-up schedule file.
pub fn get_wakeup_config_path_from_dir(config_dir: &str) -> (r: String)
    ensures
        r@ == joined_path(config_dir@, "wakeup.json"@),
{
    join_path(config_dir, "wakeup.json")
}

/// Relies on dirs::home_dir: the user's home directory, when one is known;
/// it depends on the environment.
#[verifier::external_body]
fn home_dir() -> (r: Option<String>) {
    dirs::home_dir().map(|p| p.to_string_lossy().into_owned())
}

/// `name` under the home directory, or relative when no home is known.
pub open spec fn under_home(home: Option<Seq<char>>, name: Seq<char>) -> Seq<char> {
    match home {
        Some(h) => joined_path(h, name),
        None => name,
    }
}

/// `name` under the given home directory, or relative without one.
pub fn path_under_home(home: &Option<String>, name: &str) -> (r: String)
    ensures
        r@ == under_home(match home { Some(h) => Some(h@), None => None }, name@),
{
    match home {
        Some(h) => join_path(h.as_str(), name),
        None => String::from_str(name),
    }
}

/// The default configuration directory, "~/.codex-usage".
pub fn get_config_dir() -> (r: String)
    ensures
        exists|home: Option<Seq<char>>| r@ == under_home(home, ".codex-usage"@),
{
    let home = home_dir();
    path_under_home(&home, ".codex-usage")
}

/// The live slot the monitored service reads: "~/.codex/auth.json".
pub fn get_codex_auth_path() -> (r: String)
    ensures
        exists|home: Option<Seq<char>>| r@ == joined_path(under_home(home, ".codex"@), "auth.json"@),
{
    let home = home_dir();
    let dir = path_under_home(&home, ".codex");
    join_path(dir.as_str(), "auth.json")
}

/// The wake-up schedule file in the default configuration directory.
pub fn get_wakeup_config_path() -> (r: String)
    ensures
        exists|home: Option<Seq<char>>| r@ == joined_path(under_home(home, ".codex-usage"@), "wakeup.json"@),
{
    join_path(get_config_dir().as_str(), "wakeup.json")
}

/// Where the launch agent of the wake-up schedule is installed:
/// "~/Library/LaunchAgents/com.codex-usage.wakeup.plist".
pub fn get_launch_agent_path() -> (r: String)
    ensures
        exists|home: Option<Seq<char>>| r@ == joined_path(under_home(home, "Library/LaunchAgents"@), "com.codex-usage.wakeup.plist"@),
{
    let home = home_dir();
    let dir = path_under_home(&home, "Library/LaunchAgents");
    join_path(dir.as_str(), "com.codex-usage.wakeup.plist")
}

} // verus!
