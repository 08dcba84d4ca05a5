//! Judging a Python interpreter from what it prints about itself.
use vstd::prelude::*;
use crate::text::{trim, trim_chars, to_chars, from_chars, push_all, push_str};
use crate::pattern::{regex_first_capture, regex_capture};
use crate::java::detector::{parent_or_empty, parent_text};
use crate::node::detector::in_windows_apps;
use crate::types::{PythonVersion, ProcessOutput};
use crate::error::owned;

verus! {

/// The pattern of the version `python --version` prints.
pub const VERSION_PATTERN: &'static str = "Python (\\d+\\.\\d+\\.\\d+)";

/// Every interpreter is reported under this manager.
pub const PYTHON_MANAGER: &'static str = "system";

/// The real executable an interpreter reports (`sys.executable`): the trimmed
/// output of a successful, non-empty run, else the path itself.
pub open spec fn real_executable(path: Seq<char>, real_run: Result<ProcessOutput, String>) -> Seq<char> {
    match real_run {
        Ok(o) => if o.exit_code == 0 && trim(o.stdout@).len() > 0 {
            trim(o.stdout@)
        } else {
            path
        },
        Err(_) => path,
    }
}

/// What the two runs of the interpreter at `path` say: a `WindowsApps`
/// placeholder or a file under 10 KiB is skipped; the version is read from the
/// trimmed stdout and stderr of `--version` joined by a space; executable and
/// directory are the real ones.
pub open spec fn python_probe_view(
    path: Seq<char>,
    too_small: bool,
    real_run: Result<ProcessOutput, String>,
    version: Result<ProcessOutput, String>,
) -> Option<(Seq<char>, Seq<char>, Seq<char>, Seq<char>, Seq<char>)> {
    if in_windows_apps(path) || too_small {
        None
    } else {
        match version {
            Ok(o) => if o.exit_code == 0 {
                match regex_first_capture(VERSION_PATTERN@, trim(o.stdout@) + " "@ + trim(o.stderr@), 1) {
                    Some(v) => {
                        let exe = real_executable(path, real_run);
                        Some((v, parent_or_empty(exe), exe, PYTHON_MANAGER@, "已安装"@))
                    },
                    None => None,
                }
            } else {
                None
            },
            Err(_) => None,
        }
    }
}

/// The interpreter at `path` (see [`python_probe_view`]): version, directory,
/// executable, manager, status.
pub fn python_from_probes(
    path: &str,
    too_small: bool,
    real_run: &Result<ProcessOutput, String>,
    version: &Result<ProcessOutput, String>,
) -> (r: Option<PythonVersion>)
    ensures
        match python_probe_view(path@, too_small, *real_run, *version) {
            Some(t) => r matches Some(p) && (p.version@, p.path@, p.executable@, p.manager@, p.status@) == t,
            None => r is None,
        },
{
    if crate::node::detector::skip_candidate(path, too_small) {
        return None;
    }
    let o = match version {
        Ok(o) => o,
        Err(_) => {
            return None;
        },
    };
    if o.exit_code != 0 {
        return None;
    }
    let mut combined: Vec<char> = Vec::new();
    let so = to_chars(o.stdout.as_str());
    let se = to_chars(o.stderr.as_str());
    push_all(&mut combined, &trim_chars(&so));
    push_str(&mut combined, " ");
    push_all(&mut combined, &trim_chars(&se));
    let v = match regex_capture(VERSION_PATTERN, from_chars(&combined).as_str(), 1) {
        Some(v) => v,
        None => {
            return None;
        },
    };
    let exe = match real_run {
        Ok(r) => {
            let t = trim_chars(&to_chars(r.stdout.as_str()));
            if r.exit_code == 0 && t.len() > 0 {
                from_chars(&t)
            } else {
                owned(path)
            }
        },
        Err(_) => owned(path),
    };
    Some(
        PythonVersion {
            version: v,
            path: parent_text(exe.as_str()),
            executable: exe,
            manager: owned(PYTHON_MANAGER),
            status: owned("已安装"),
        },
    )
}

} // verus!
