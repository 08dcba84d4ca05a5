//! Judging a `node` executable from what `node --version` prints.
use vstd::prelude::*;
use crate::text::{contains, contains_str, trim, trim_chars, to_chars, from_chars, push_all, push_str};
use crate::pattern::{regex_first_capture, regex_capture};
use crate::winpath::{win_parent, parent_of};
use crate::java::detector::{parent_or_empty, parent_text};
use crate::types::{NodeVersion, ProcessOutput};
use crate::error::owned;

verus! {

/// The pattern of the version `node --version` prints, such as `v20.11.0`.
pub const VERSION_PATTERN: &'static str = "v?(\\d+\\.\\d+\\.\\d+)";

/// The version in the trimmed output.
pub open spec fn node_version_of(output: Seq<char>) -> Option<Seq<char>> {
    regex_first_capture(VERSION_PATTERN@, trim(output), 1)
}

/// Reads the version of [`node_version_of`].
pub fn parse_version(output: &str) -> (r: Option<String>)
    ensures
        r.deep_view() == node_version_of(output@),
{
    let v = to_chars(output);
    let t = from_chars(&trim_chars(&v));
    regex_capture(VERSION_PATTERN, t.as_str(), 1)
}

/// The executable lies in a `WindowsApps` directory: a store placeholder.
pub open spec fn in_windows_apps(path: Seq<char>) -> bool {
    match win_parent(path) {
        Some(p) => contains(p, "WindowsApps"@),
        None => false,
    }
}

/// Whether a candidate is skipped without being run: a `WindowsApps`
/// placeholder, or a file under 10 KiB.
pub fn skip_candidate(path: &str, too_small: bool) -> (r: bool)
    ensures
        r == (in_windows_apps(path@) || too_small),
{
    let v = to_chars(path);
    let in_apps = match parent_of(&v) {
        Some(p) => contains_str(&p, "WindowsApps"),
        None => false,
    };
    in_apps || too_small
}

/// What `node --version` says of the executable at `path`: the trimmed stdout
/// and stderr joined by a space are searched for the version.
pub open spec fn node_probe_view(path: Seq<char>, manager: Seq<char>, too_small: bool, result: Result<ProcessOutput, String>) -> Option<(Seq<char>, Seq<char>, Seq<char>, Seq<char>, Seq<char>)> {
    if in_windows_apps(path) || too_small {
        None
    } else {
        match result {
            Ok(o) => if o.exit_code == 0 {
                match node_version_of(trim(o.stdout@) + " "@ + trim(o.stderr@)) {
                    Some(v) => Some((v, parent_or_empty(path), path, manager, "已安装"@)),
                    None => None,
                }
            } else {
                None
            },
            Err(_) => None,
        }
    }
}

/// The installation at `path` (see [`node_probe_view`]): version, directory,
/// executable, manager, status.
pub fn node_from_probe(path: &str, manager: &str, too_small: bool, result: &Result<ProcessOutput, String>) -> (r: Option<NodeVersion>)
    ensures
        match node_probe_view(path@, manager@, too_small, *result) {
            Some(t) => r matches Some(n) && (n.version@, n.path@, n.executable@, n.manager@, n.status@) == t,
            None => r is None,
        },
{
    if skip_candidate(path, too_small) {
        return None;
    }
    let o = match result {
        Ok(o) => o,
        Err(_) => {
            return None;
        },
    };
    if o.exit_code != 0 {
        return None;
    }
    let mut combined: Vec<char> = Vec::new();
    let so = to_chars(o.stdout.as_str());
    let se = to_chars(o.stderr.as_str());
    push_all(&mut combined, &trim_chars(&so));
    push_str(&mut combined, " ");
    push_all(&mut combined, &trim_chars(&se));
    match parse_version(from_chars(&combined).as_str()) {
        Some(version) => Some(
            NodeVersion {
                version,
                path: parent_text(path),
                executable: owned(path),
                manager: owned(manager),
                status: owned("已安装"),
            },
        ),
        None => None,
    }
}

} // verus!
