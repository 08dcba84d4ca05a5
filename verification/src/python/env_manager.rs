//! Python environments: system interpreters and virtual environments.
use vstd::prelude::*;
use crate::text::{from_chars, push_str, to_chars};
use crate::winpath::{file_name, file_name_of, join_path, win_join};
use crate::error::owned;
use crate::types::{PythonEnvironment, PythonVersion};

verus! {

/// A detected interpreter listed as an environment: `系统 Python <version>`,
/// of type `系统`, at the interpreter's directory.
pub fn system_environment(py: &PythonVersion) -> (r: PythonEnvironment)
    ensures
        r.name@ == "系统 Python "@ + py.version@,
        r.env_type@ == "系统"@,
        r.path@ == py.path@,
        r.python_version@ == py.version@,
{
    let mut n: Vec<char> = Vec::new();
    push_str(&mut n, "系统 Python ");
    push_str(&mut n, py.version.as_str());
    PythonEnvironment {
        name: from_chars(&n),
        env_type: owned("系统"),
        path: py.path.clone(),
        python_version: py.version.clone(),
    }
}

/// The interpreter of a virtual environment: `Scripts\python.exe` inside it.
pub open spec fn venv_python_of(env_path: Seq<char>) -> Seq<char> {
    win_join(win_join(env_path, "Scripts"@), "python.exe"@)
}

/// The interpreter of a virtual environment (see [`venv_python_of`]).
pub fn venv_python(env_path: &str) -> (r: String)
    ensures
        r@ == venv_python_of(env_path@),
{
    let scripts = join_path(&to_chars(env_path), &to_chars("Scripts"));
    let exe = join_path(&scripts, &to_chars("python.exe"));
    from_chars(&exe)
}

/// A virtual environment whose interpreter exists: named after its directory,
/// of type `虚拟环境`, with the interpreter's version, or `未知` when it could
/// not be read; none for a path without a final name.
pub fn virtual_environment(env_path: &str, version: Option<String>) -> (r: Option<PythonEnvironment>)
    ensures
        match file_name(env_path@) {
            Some(n) => r matches Some(e) && e.name@ == n && e.env_type@ == "虚拟环境"@ && e.path@ == env_path@
                && e.python_version@ == (match version {
                Some(v) => v@,
                None => "未知"@,
            }),
            None => r is None,
        },
{
    let p = to_chars(env_path);
    let name = match file_name_of(&p) {
        Some(n) => from_chars(&n),
        None => {
            return None;
        },
    };
    let python_version = match version {
        Some(v) => v,
        None => owned("未知"),
    };
    Some(PythonEnvironment { name, env_type: owned("虚拟环境"), path: owned(env_path), python_version })
}

} // verus!
