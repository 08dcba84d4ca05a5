//! pip mirrors: the default list, which one pip uses, and switching.
use vstd::prelude::*;
use crate::text::{trim, trim_chars, to_chars, from_chars, push_str, push_all, str_eq};
use crate::process_manager::{mirror_url_refusal, check_mirror_url};
use crate::python::package_manager::{python_path_problem, validate_python_path};
use crate::mysql::password_reset::result_view;
use crate::error::owned;
use crate::types::{PipMirror, ProcessOutput};

verus! {

/// Checks a mirror URL and words a refusal for the user.
pub fn validate_mirror_url(url: &str) -> (r: Result<(), String>)
    ensures
        match mirror_url_refusal(url@) {
            None => r is Ok,
            Some(m) => r matches Err(e) && e@ == m,
        },
{
    check_mirror_url(url)
}

/// The fields of a mirror: name, URL, active.
pub open spec fn pip_mirror_view(m: PipMirror) -> (Seq<char>, Seq<char>, bool) {
    (m.name@, m.url@, m.active)
}

pub open spec fn pip_mirror_views(ms: Seq<PipMirror>) -> Seq<(Seq<char>, Seq<char>, bool)> {
    Seq::new(ms.len(), |i: int| pip_mirror_view(ms[i]))
}

/// The default indexes: PyPI (active), Tsinghua, Aliyun, USTC, Douban.
pub open spec fn default_pip_mirrors() -> Seq<(Seq<char>, Seq<char>, bool)> {
    seq![
        ("官方源"@, "https://pypi.org/simple/"@, true),
        ("清华大学"@, "https://pypi.tuna.tsinghua.edu.cn/simple/"@, false),
        ("阿里云"@, "https://mirrors.aliyun.com/pypi/simple/"@, false),
        ("中国科技大学"@, "https://pypi.mirrors.ustc.edu.cn/simple/"@, false),
        ("豆瓣"@, "https://pypi.douban.com/simple/"@, false),
    ]
}

/// The default pip indexes (see [`default_pip_mirrors`]).
pub fn get_default_mirrors() -> (r: Vec<PipMirror>)
    ensures
        pip_mirror_views(r@) == default_pip_mirrors(),
{
    let mut r: Vec<PipMirror> = Vec::new();
    r.push(PipMirror { name: owned("官方源"), url: owned("https://pypi.org/simple/"), active: true });
    r.push(PipMirror { name: owned("清华大学"), url: owned("https://pypi.tuna.tsinghua.edu.cn/simple/"), active: false });
    r.push(PipMirror { name: owned("阿里云"), url: owned("https://mirrors.aliyun.com/pypi/simple/"), active: false });
    r.push(PipMirror { name: owned("中国科技大学"), url: owned("https://pypi.mirrors.ustc.edu.cn/simple/"), active: false });
    r.push(PipMirror { name: owned("豆瓣"), url: owned("https://pypi.douban.com/simple/"), active: false });
    assert(pip_mirror_views(r@) =~= default_pip_mirrors());
    r
}

/// The interpreter pip runs with: the given path, else `python` from `PATH`; a
/// refused path is reported as a failed check.
pub fn resolve_python_cmd(python_path: Option<String>) -> (r: Result<String, String>)
    ensures
        ({
            let p = match python_path {
                Some(s) => s@,
                None => "python"@,
            };
            match python_path_problem(p) {
                None => r matches Ok(c) && c@ == p,
                Some(m) => r matches Err(e) && e@ == "Python 路径验证失败: "@ + m,
            }
        }),
{
    let cmd = match python_path {
        Some(s) => s,
        None => owned("python"),
    };
    match validate_python_path(cmd.as_str()) {
        Ok(()) => Ok(cmd),
        Err(e) => {
            let mut m: Vec<char> = Vec::new();
            push_str(&mut m, "Python 路径验证失败: ");
            push_str(&mut m, e.as_str());
            Err(from_chars(&m))
        },
    }
}

/// The index pip is configured with: the trimmed output of a successful
/// `pip config get global.index-url`, unless blank.
pub open spec fn current_mirror_of(result: Result<ProcessOutput, String>) -> Option<Seq<char>> {
    match result {
        Ok(o) => if o.exit_code == 0 && trim(o.stdout@).len() > 0 {
            Some(trim(o.stdout@))
        } else {
            None
        },
        Err(_) => None,
    }
}

/// The index pip is configured with (see [`current_mirror_of`]).
pub fn current_mirror(result: &Result<ProcessOutput, String>) -> (r: Option<String>)
    ensures
        r.deep_view() == current_mirror_of(*result),
{
    match result {
        Ok(o) => {
            if o.exit_code != 0 {
                return None;
            }
            let v = to_chars(o.stdout.as_str());
            let t = trim_chars(&v);
            if t.len() == 0 {
                None
            } else {
                Some(from_chars(&t))
            }
        },
        Err(_) => None,
    }
}

/// Marks the mirror whose URL is exactly the configured index active and every
/// other one inactive.
pub fn mark_active_mirror(mirrors: &mut Vec<PipMirror>, active_url: &str)
    ensures
        pip_mirror_views(final(mirrors)@) == Seq::new(
            old(mirrors)@.len(),
            |i: int| (old(mirrors)@[i].name@, old(mirrors)@[i].url@, old(mirrors)@[i].url@ == active_url@),
        ),
{
    let ghost before = old(mirrors)@;
    let mut i: usize = 0;
    while i < mirrors.len()
        invariant
            i <= mirrors@.len(),
            before.len() == mirrors@.len(),
            forall|k: int| i <= k < mirrors@.len() ==> #[trigger] mirrors@[k] == before[k],
            forall|k: int|
                0 <= k < i ==> pip_mirror_view(#[trigger] mirrors@[k]) == (
                    before[k].name@,
                    before[k].url@,
                    before[k].url@ == active_url@,
                ),
        decreases mirrors.len() - i,
    {
        let same = str_eq(mirrors[i].url.as_str(), active_url);
        let m = PipMirror { name: mirrors[i].name.clone(), url: mirrors[i].url.clone(), active: same };
        mirrors.set(i, m);
        i += 1;
    }
    assert(pip_mirror_views(mirrors@) =~= Seq::new(
        before.len(),
        |i: int| (before[i].name@, before[i].url@, before[i].url@ == active_url@),
    ));
}

/// The answer of `pip config set global.index-url`.
pub open spec fn switch_answer(result: Result<ProcessOutput, String>, name: Seq<char>) -> Result<Seq<char>, Seq<char>> {
    match result {
        Ok(o) => if o.exit_code == 0 {
            Ok("已成功切换到 "@ + name)
        } else {
            Err("切换失败: "@ + o.stderr@)
        },
        Err(e) => Err("执行命令失败: "@ + e@),
    }
}

/// Words the answer of an index switch (see [`switch_answer`]).
pub fn switch_outcome(result: &Result<ProcessOutput, String>, mirror_name: &str) -> (r: Result<String, String>)
    ensures
        result_view(r) == switch_answer(*result, mirror_name@),
{
    let mut m: Vec<char> = Vec::new();
    match result {
        Ok(o) => {
            if o.exit_code == 0 {
                push_str(&mut m, "已成功切换到 ");
                push_str(&mut m, mirror_name);
                Ok(from_chars(&m))
            } else {
                push_str(&mut m, "切换失败: ");
                push_str(&mut m, o.stderr.as_str());
                Err(from_chars(&m))
            }
        },
        Err(e) => {
            push_str(&mut m, "执行命令失败: ");
            push_str(&mut m, e.as_str());
            Err(from_chars(&m))
        },
    }
}

/// The default pip indexes are five different ones, each at its provider: the
/// official index (the one active by default) at pypi.org, Tsinghua's at
/// pypi.tuna.tsinghua.edu.cn, Aliyun's at mirrors.aliyun.com, USTC's at
/// pypi.mirrors.ustc.edu.cn and Douban's at pypi.douban.com; no two share a
/// name or a URL.
pub proof fn law_pip_mirrors_at_their_providers()
    ensures
        default_pip_mirrors().len() == 5,
        forall|i: int, j: int|
            0 <= i < j < default_pip_mirrors().len() ==> (#[trigger] default_pip_mirrors()[i]).1
                != (#[trigger] default_pip_mirrors()[j]).1 && default_pip_mirrors()[i].0 != default_pip_mirrors()[j].0,
        forall|i: int| 0 <= i < default_pip_mirrors().len() ==> {
            let m = #[trigger] default_pip_mirrors()[i];
            &&& (m.0 == "官方源"@ <==> crate::text::starts_with(m.1, "https://pypi.org/"@))
            &&& (m.0 == "清华大学"@ <==> crate::text::starts_with(m.1, "https://pypi.tuna.tsinghua.edu.cn/"@))
            &&& (m.0 == "阿里云"@ <==> crate::text::starts_with(m.1, "https://mirrors.aliyun.com/"@))
            &&& (m.0 == "中国科技大学"@ <==> crate::text::starts_with(m.1, "https://pypi.mirrors.ustc.edu.cn/"@))
            &&& (m.0 == "豆瓣"@ <==> crate::text::starts_with(m.1, "https://pypi.douban.com/"@))
            &&& (m.2 <==> m.0 == "官方源"@)
        },
{
    reveal_strlit("https://mirrors.aliyun.com/");
    reveal_strlit("https://mirrors.aliyun.com/pypi/simple/");
    reveal_strlit("https://pypi.douban.com/");
    reveal_strlit("https://pypi.douban.com/simple/");
    reveal_strlit("https://pypi.mirrors.ustc.edu.cn/");
    reveal_strlit("https://pypi.mirrors.ustc.edu.cn/simple/");
    reveal_strlit("https://pypi.org/");
    reveal_strlit("https://pypi.org/simple/");
    reveal_strlit("https://pypi.tuna.tsinghua.edu.cn/");
    reveal_strlit("https://pypi.tuna.tsinghua.edu.cn/simple/");
    reveal_strlit("中国科技大学");
    reveal_strlit("官方源");
    reveal_strlit("清华大学");
    reveal_strlit("豆瓣");
    reveal_strlit("阿里云");
    let ms = default_pip_mirrors();
    let u0 = ms[0].1;
    let p0 = "https://pypi.org/"@;
    let u1 = ms[1].1;
    let p1 = "https://pypi.tuna.tsinghua.edu.cn/"@;
    let u2 = ms[2].1;
    let p2 = "https://mirrors.aliyun.com/"@;
    let u3 = ms[3].1;
    let p3 = "https://pypi.mirrors.ustc.edu.cn/"@;
    let u4 = ms[4].1;
    let p4 = "https://pypi.douban.com/"@;
    crate::text::lemma_not_prefix(u0, p1, 13);
    crate::text::lemma_not_prefix(u0, p2, 8);
    crate::text::lemma_not_prefix(u0, p3, 13);
    crate::text::lemma_not_prefix(u0, p4, 13);
    crate::text::lemma_not_prefix(u1, p0, 13);
    crate::text::lemma_not_prefix(u1, p2, 8);
    crate::text::lemma_not_prefix(u1, p3, 13);
    crate::text::lemma_not_prefix(u1, p4, 13);
    crate::text::lemma_not_prefix(u2, p0, 8);
    crate::text::lemma_not_prefix(u2, p1, 8);
    crate::text::lemma_not_prefix(u2, p3, 8);
    crate::text::lemma_not_prefix(u2, p4, 8);
    crate::text::lemma_not_prefix(u3, p0, 13);
    crate::text::lemma_not_prefix(u3, p1, 13);
    crate::text::lemma_not_prefix(u3, p2, 8);
    crate::text::lemma_not_prefix(u3, p4, 13);
    crate::text::lemma_not_prefix(u4, p0, 13);
    crate::text::lemma_not_prefix(u4, p1, 13);
    crate::text::lemma_not_prefix(u4, p2, 8);
    crate::text::lemma_not_prefix(u4, p3, 13);
    assert(u0[13] != u1[13] && u0[8] != u2[8] && u0[13] != u3[13] && u0[13] != u4[13] && u1[8] != u2[8] && u1[13] != u3[13] && u1[13] != u4[13] && u2[8] != u3[8] && u2[8] != u4[8] && u3[13] != u4[13]);
    assert(ms[0].0[0] != ms[1].0[0] && ms[0].0[0] != ms[2].0[0] && ms[0].0[0] != ms[3].0[0] && ms[0].0[0] != ms[4].0[0] && ms[1].0[0] != ms[2].0[0] && ms[1].0[0] != ms[3].0[0] && ms[1].0[0] != ms[4].0[0] && ms[2].0[0] != ms[3].0[0] && ms[2].0[0] != ms[4].0[0] && ms[3].0[0] != ms[4].0[0]);
    assert(u0.take(p0.len() as int) =~= p0);
    assert(u1.take(p1.len() as int) =~= p1);
    assert(u2.take(p2.len() as int) =~= p2);
    assert(u3.take(p3.len() as int) =~= p3);
    assert(u4.take(p4.len() as int) =~= p4);
}

} // verus!
