//! Checks applied by the `PATH` commands.
use vstd::prelude::*;
use crate::text::{ascii_lower, chars_eq, to_ascii_lower, to_chars, from_chars, push_str, push_all, decimal, decimal_chars};
use crate::env::detector::{path_entries, split_path_value, tool_of, detect_tool};
use crate::error::owned;
use crate::types::{EnvPath, EnvVariable};

verus! {

/// `target` equals, ignoring ASCII case, the path of one of the entries.
pub open spec fn listed_in(target: Seq<char>, paths: Seq<EnvPath>) -> bool {
    exists|i: int| 0 <= i < paths.len() && ascii_lower(#[trigger] paths[i].path@) == ascii_lower(target)
}

/// Whether `target` appears (ASCII case ignored) among the `PATH` entries.
pub fn is_path_in_env_paths(target: &str, all_paths: &[EnvPath]) -> (r: bool)
    ensures
        r == listed_in(target@, all_paths@),
{
    let t = to_chars(target);
    let tl = to_ascii_lower(&t);
    let mut i: usize = 0;
    while i < all_paths.len()
        invariant
            i <= all_paths@.len(),
            tl@ == ascii_lower(target@),
            forall|j: int| 0 <= j < i ==> ascii_lower(#[trigger] all_paths@[j].path@) != ascii_lower(target@),
        decreases all_paths.len() - i,
    {
        let p = to_chars(all_paths[i].path.as_str());
        let pl = to_ascii_lower(&p);
        if chars_eq(&pl, &tl) {
            return true;
        }
        i += 1;
    }
    false
}

/// The `PATH` entries of one scope: the entries of the raw value with the
/// given scope, whether each exists (`exists[i]` for entry `i`), and its tool.
pub fn env_paths_of(entries: &Vec<String>, scope: &str, exists: &Vec<bool>) -> (r: Vec<EnvPath>)
    requires
        exists@.len() == entries@.len(),
    ensures
        r@.len() == entries@.len(),
        forall|i: int| 0 <= i < r@.len() ==> (#[trigger] r@[i]).path@ == entries@[i]@ && r@[i].scope@ == scope@
            && r@[i].exists == exists@[i] && r@[i].tool.deep_view() == tool_of(entries@[i]@),
{
    let mut out: Vec<EnvPath> = Vec::new();
    let mut i: usize = 0;
    while i < entries.len()
        invariant
            i <= entries@.len(),
            exists@.len() == entries@.len(),
            out@.len() == i,
            forall|k: int| 0 <= k < i ==> (#[trigger] out@[k]).path@ == entries@[k]@ && out@[k].scope@ == scope@
                && out@[k].exists == exists@[k] && out@[k].tool.deep_view() == tool_of(entries@[k]@),
        decreases entries.len() - i,
    {
        out.push(
            EnvPath {
                path: entries[i].clone(),
                scope: owned(scope),
                exists: exists[i],
                tool: detect_tool(entries[i].as_str()),
            },
        );
        i += 1;
    }
    out
}

/// The variables looked up for the environment view, in order.
pub open spec fn common_var_names() -> Seq<Seq<char>> {
    seq![
        "JAVA_HOME"@, "PYTHONHOME"@, "PYTHONPATH"@, "NODE_PATH"@, "M2_HOME"@, "MAVEN_HOME"@,
        "GRADLE_HOME"@, "GOPATH"@, "RUSTUP_HOME"@, "CARGO_HOME"@, "ANDROID_HOME"@, "ANT_HOME"@,
        "GIT_INSTALL_ROOT"@,
    ]
}

/// The variables looked up for the environment view (see [`common_var_names`]).
pub fn common_env_var_names() -> (r: Vec<String>)
    ensures
        r.deep_view() == common_var_names(),
{
    let mut r: Vec<String> = Vec::new();
    r.push(owned("JAVA_HOME"));
    r.push(owned("PYTHONHOME"));
    r.push(owned("PYTHONPATH"));
    r.push(owned("NODE_PATH"));
    r.push(owned("M2_HOME"));
    r.push(owned("MAVEN_HOME"));
    r.push(owned("GRADLE_HOME"));
    r.push(owned("GOPATH"));
    r.push(owned("RUSTUP_HOME"));
    r.push(owned("CARGO_HOME"));
    r.push(owned("ANDROID_HOME"));
    r.push(owned("ANT_HOME"));
    r.push(owned("GIT_INSTALL_ROOT"));
    assert(r.deep_view() =~= common_var_names());
    r
}

/// A variable as the environment view shows it: the user's value first, the
/// system's otherwise, none when neither is set.
pub fn pick_env_variable(name: &str, user_value: Option<String>, system_value: Option<String>) -> (r: Option<EnvVariable>)
    ensures
        match user_value {
            Some(u) => r matches Some(v) && v.name@ == name@ && v.value == u && v.scope@ == "user"@,
            None => match system_value {
                Some(s) => r matches Some(v) && v.name@ == name@ && v.value == s && v.scope@ == "system"@,
                None => r is None,
            },
        },
{
    match user_value {
        Some(u) => Some(EnvVariable { name: owned(name), value: u, scope: owned("user") }),
        None => match system_value {
            Some(s) => Some(EnvVariable { name: owned(name), value: s, scope: owned("system") }),
            None => None,
        },
    }
}

/// A two-digit rendering, with a leading zero below ten.
pub open spec fn two_digits(n: nat) -> Seq<char> {
    if n < 10 { "0"@ + decimal(n) } else { decimal(n) }
}

fn two_digit_chars(n: u64) -> (r: Vec<char>)
    ensures
        r@ == two_digits(n as nat),
{
    let mut r: Vec<char> = Vec::new();
    if n < 10 {
        push_str(&mut r, "0");
    }
    let d = decimal_chars(n);
    push_all(&mut r, &d);
    r
}

/// The time stamp written into an environment backup: days since the epoch and
/// the time of day, `epoch+<d>d hh:mm:ss`.
pub open spec fn backup_datetime_of(secs: u64) -> Seq<char> {
    let days = secs / 86400;
    let rem = secs % 86400;
    "epoch+"@ + decimal(days as nat) + "d "@ + two_digits((rem / 3600) as nat) + ":"@ + two_digits(
        ((rem % 3600) / 60) as nat,
    ) + ":"@ + two_digits((rem % 60) as nat)
}

/// The time stamp of an environment backup (see [`backup_datetime_of`]).
pub fn backup_datetime(unix_secs: u64) -> (r: String)
    ensures
        r@ == backup_datetime_of(unix_secs),
{
    let days = unix_secs / 86400;
    let rem = unix_secs % 86400;
    let mut s: Vec<char> = Vec::new();
    push_str(&mut s, "epoch+");
    let d = decimal_chars(days);
    push_all(&mut s, &d);
    push_str(&mut s, "d ");
    let h = two_digit_chars(rem / 3600);
    push_all(&mut s, &h);
    push_str(&mut s, ":");
    let m = two_digit_chars((rem % 3600) / 60);
    push_all(&mut s, &m);
    push_str(&mut s, ":");
    let sec = two_digit_chars(rem % 60);
    push_all(&mut s, &sec);
    from_chars(&s)
}

/// The file an environment backup is written to.
pub fn backup_file_name(unix_secs: u64) -> (r: String)
    ensures
        r@ == "env-backup-"@ + decimal(unix_secs as nat) + ".json"@,
{
    let mut s: Vec<char> = Vec::new();
    push_str(&mut s, "env-backup-");
    let d = decimal_chars(unix_secs);
    push_all(&mut s, &d);
    push_str(&mut s, ".json");
    from_chars(&s)
}

} // verus!
