//! Checks on the Python interpreter pip runs with, and what `pip list` reports.
use vstd::prelude::*;
use crate::text::{
    ends_with, ends_with_str, contains, contains_str, to_chars, str_eq, trim, trim_chars, from_chars,
    push_str, push_all, signed_decimal, signed_decimal_chars,
};
use crate::pattern::{unicode_lower, to_lowercase};
use crate::error::owned;
use crate::json::{json_elements, string_member, array_elements, string_member_of};
use crate::types::{ProcessOutput, PythonPackage};

verus! {

/// Why an interpreter path is refused, or `None`: it must be `python`,
/// `python3`, or end with `python.exe` / `python3.exe` (any case), and must not
/// contain `..`.
pub open spec fn python_path_problem(path: Seq<char>) -> Option<Seq<char>> {
    let l = unicode_lower(path);
    if !ends_with(l, "python.exe"@) && !ends_with(l, "python3.exe"@) && path != "python"@ && path
        != "python3"@ {
        Some("路径必须指向 python.exe 或 python3.exe"@)
    } else if contains(path, ".."@) {
        Some("路径不能包含 .."@)
    } else {
        None
    }
}

/// Checks the path of the Python interpreter (see [`python_path_problem`]).
pub fn validate_python_path(path: &str) -> (r: Result<(), String>)
    ensures
        match python_path_problem(path@) {
            None => r is Ok,
            Some(m) => r matches Err(e) && e@ == m,
        },
{
    let lower = to_lowercase(path);
    let l = to_chars(lower.as_str());
    if !ends_with_str(&l, "python.exe") && !ends_with_str(&l, "python3.exe") && !str_eq(path, "python")
        && !str_eq(path, "python3") {
        return Err(owned("路径必须指向 python.exe 或 python3.exe"));
    }
    let p = to_chars(path);
    if contains_str(&p, "..") {
        return Err(owned("路径不能包含 .."));
    }
    Ok(())
}

/// The packages of a `pip list --format=json` listing: each element with a
/// string `name` and a string `version`, in order; the summary is left empty.
pub open spec fn pip_packages(elems: Seq<Seq<char>>) -> Seq<(Seq<char>, Seq<char>, Seq<char>)>
    decreases elems.len(),
{
    if elems.len() == 0 {
        seq![]
    } else {
        let prev = pip_packages(elems.drop_last());
        match (string_member(elems.last(), "name"@), string_member(elems.last(), "version"@)) {
            (Some(n), Some(v)) => prev.push((n, v, seq![])),
            _ => prev,
        }
    }
}

pub open spec fn python_package_views(ps: Seq<PythonPackage>) -> Seq<(Seq<char>, Seq<char>, Seq<char>)> {
    Seq::new(ps.len(), |i: int| (ps[i].name@, ps[i].version@, ps[i].summary@))
}

/// What listing the packages comes to, given how `python -m pip list
/// --format=json` ended: the packages of a successful run, or the reason.
pub open spec fn pip_listing(result: Result<ProcessOutput, String>) -> Result<Seq<(Seq<char>, Seq<char>, Seq<char>)>, Seq<char>> {
    match result {
        Err(e) => Err("无法执行 Python/pip 命令（可能未安装 Python 或未加入 PATH）: "@ + e@),
        Ok(o) => if o.exit_code == 0 {
            match json_elements(o.stdout@) {
                Ok(es) => Ok(pip_packages(es)),
                Err(m) => Err("pip list 输出解析失败: "@ + m + "（原始输出: "@ + trim(o.stdout@) + "）"@),
            }
        } else if trim(o.stderr@).len() == 0 {
            Err("pip list 执行失败，退出码: "@ + signed_decimal(o.exit_code as int))
        } else {
            Err("pip list 执行失败: "@ + trim(o.stderr@))
        },
    }
}

/// The installed packages, from how `pip list` ended (see [`pip_listing`]).
pub fn pip_listing_outcome(result: &Result<ProcessOutput, String>) -> (r: Result<Vec<PythonPackage>, String>)
    ensures
        match pip_listing(*result) {
            Err(m) => r matches Err(e) && e@ == m,
            Ok(ps) => r matches Ok(v) && python_package_views(v@) == ps,
        },
{
    let o = match result {
        Err(e) => {
            let mut m: Vec<char> = Vec::new();
            push_str(&mut m, "无法执行 Python/pip 命令（可能未安装 Python 或未加入 PATH）: ");
            push_str(&mut m, e.as_str());
            return Err(from_chars(&m));
        },
        Ok(o) => o,
    };
    if o.exit_code != 0 {
        let se = trim_chars(&to_chars(o.stderr.as_str()));
        let mut m: Vec<char> = Vec::new();
        if se.len() == 0 {
            push_str(&mut m, "pip list 执行失败，退出码: ");
            let d = signed_decimal_chars(o.exit_code);
            push_all(&mut m, &d);
        } else {
            push_str(&mut m, "pip list 执行失败: ");
            push_all(&mut m, &se);
        }
        return Err(from_chars(&m));
    }
    let elems = match array_elements(o.stdout.as_str()) {
        Ok(es) => es,
        Err(e) => {
            let mut m: Vec<char> = Vec::new();
            push_str(&mut m, "pip list 输出解析失败: ");
            push_str(&mut m, e.as_str());
            push_str(&mut m, "（原始输出: ");
            let so = trim_chars(&to_chars(o.stdout.as_str()));
            push_all(&mut m, &so);
            push_str(&mut m, "）");
            return Err(from_chars(&m));
        },
    };
    let ghost all = Seq::new(elems@.len(), |i: int| elems@[i]@);
    let mut out: Vec<PythonPackage> = Vec::new();
    let mut i: usize = 0;
    assert(all.take(0) =~= Seq::<Seq<char>>::empty());
    assert(python_package_views(out@) =~= Seq::<(Seq<char>, Seq<char>, Seq<char>)>::empty());
    while i < elems.len()
        invariant
            i <= elems@.len(),
            all == Seq::new(elems@.len(), |i: int| elems@[i]@),
            python_package_views(out@) == pip_packages(all.take(i as int)),
        decreases elems.len() - i,
    {
        assert(all.take(i + 1).drop_last() =~= all.take(i as int));
        assert(all.take(i + 1).last() == elems@[i as int]@);
        let name = string_member_of(elems[i].as_str(), "name");
        let version = string_member_of(elems[i].as_str(), "version");
        match (name, version) {
            (Some(n), Some(v)) => {
                let ghost before = python_package_views(out@);
                out.push(PythonPackage { name: n, version: v, summary: String::new() });
                assert(python_package_views(out@) =~= before.push((out@[out@.len() - 1].name@, out@[out@.len() - 1].version@, seq![])));
            },
            _ => {},
        }
        i += 1;
    }
    assert(all.take(elems@.len() as int) =~= all);
    Ok(out)
}

} // verus!
