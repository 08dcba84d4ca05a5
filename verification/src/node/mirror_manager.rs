//! npm registry mirrors: the default list, which one npm uses, and switching.
use vstd::prelude::*;
use crate::text::{trim, trim_chars, to_chars, from_chars, push_str, push_all, chars_eq, eq_str, signed_decimal, signed_decimal_chars};
use crate::process_manager::{mirror_url_refusal, check_mirror_url};
use crate::java::mirror_manager::{normalized_url, normalize_url};
use crate::mysql::password_reset::result_view;
use crate::error::owned;
use crate::types::{NpmMirror, ProcessOutput};

verus! {

/// Checks a mirror URL and words a refusal for the user.
pub fn validate_mirror_url(url: &str) -> (r: Result<(), String>)
    ensures
        match mirror_url_refusal(url@) {
            None => r is Ok,
            Some(m) => r matches Err(e) && e@ == m,
        },
{
    check_mirror_url(url)
}

/// The fields of a mirror: name, URL, active.
pub open spec fn npm_mirror_view(m: NpmMirror) -> (Seq<char>, Seq<char>, bool) {
    (m.name@, m.url@, m.active)
}

pub open spec fn npm_mirror_views(ms: Seq<NpmMirror>) -> Seq<(Seq<char>, Seq<char>, bool)> {
    Seq::new(ms.len(), |i: int| npm_mirror_view(ms[i]))
}

/// The default registries: npmjs (active), Aliyun, Tencent Cloud, Huawei Cloud.
pub open spec fn default_npm_mirrors() -> Seq<(Seq<char>, Seq<char>, bool)> {
    seq![
        ("官方源"@, "https://registry.npmjs.org/"@, true),
        ("阿里云"@, "https://registry.npmmirror.com"@, false),
        ("腾讯云"@, "https://mirrors.cloud.tencent.com/npm/"@, false),
        ("华为云"@, "https://repo.huaweicloud.com/repository/npm/"@, false),
    ]
}

/// The default npm registries (see [`default_npm_mirrors`]).
pub fn get_default_mirrors() -> (r: Vec<NpmMirror>)
    ensures
        npm_mirror_views(r@) == default_npm_mirrors(),
{
    let mut r: Vec<NpmMirror> = Vec::new();
    r.push(NpmMirror { name: owned("官方源"), url: owned("https://registry.npmjs.org/"), active: true });
    r.push(NpmMirror { name: owned("阿里云"), url: owned("https://registry.npmmirror.com"), active: false });
    r.push(NpmMirror { name: owned("腾讯云"), url: owned("https://mirrors.cloud.tencent.com/npm/"), active: false });
    r.push(NpmMirror { name: owned("华为云"), url: owned("https://repo.huaweicloud.com/repository/npm/"), active: false });
    assert(npm_mirror_views(r@) =~= default_npm_mirrors());
    r
}

/// A registry URL trimmed and without trailing `/`, for comparison.
pub fn normalize_registry(url: &str) -> (r: String)
    ensures
        r@ == normalized_url(url@),
{
    normalize_url(url)
}

/// The registry npm reports, normalized: `npm config get registry` printing
/// nothing or `undefined` means the official registry; a failed run tells nothing.
pub open spec fn current_registry_of(result: Result<ProcessOutput, String>) -> Option<Seq<char>> {
    match result {
        Ok(o) => if o.exit_code == 0 {
            let t = trim(o.stdout@);
            if t.len() == 0 || t == "undefined"@ {
                Some(normalized_url("https://registry.npmjs.org/"@))
            } else {
                Some(normalized_url(t))
            }
        } else {
            None
        },
        Err(_) => None,
    }
}

/// The registry npm reports (see [`current_registry_of`]).
pub fn current_registry(result: &Result<ProcessOutput, String>) -> (r: Option<String>)
    ensures
        r.deep_view() == current_registry_of(*result),
{
    match result {
        Ok(o) => {
            if o.exit_code != 0 {
                return None;
            }
            let v = to_chars(o.stdout.as_str());
            let t = trim_chars(&v);
            if t.len() == 0 || eq_str(&t, "undefined") {
                Some(normalize_registry("https://registry.npmjs.org/"))
            } else {
                Some(normalize_registry(from_chars(&t).as_str()))
            }
        },
        Err(_) => None,
    }
}

/// The mirrors with the one whose normalized URL is the registry in use marked
/// active, every other one inactive; unknown registry: the list as it is.
pub open spec fn with_active_registry(ms: Seq<(Seq<char>, Seq<char>, bool)>, active: Option<Seq<char>>) -> Seq<(Seq<char>, Seq<char>, bool)> {
    match active {
        Some(a) => Seq::new(ms.len(), |i: int| (ms[i].0, ms[i].1, a == normalized_url(ms[i].1))),
        None => ms,
    }
}

/// Marks the registry in use (see [`with_active_registry`]).
pub fn mark_active_registry(mirrors: &mut Vec<NpmMirror>, active: Option<&str>)
    ensures
        npm_mirror_views(final(mirrors)@) == with_active_registry(
            npm_mirror_views(old(mirrors)@),
            match active {
                Some(a) => Some(a@),
                None => None,
            },
        ),
{
    match active {
        Some(a) => {
            let av = to_chars(a);
            let ghost before = npm_mirror_views(mirrors@);
            let mut i: usize = 0;
            while i < mirrors.len()
                invariant
                    i <= mirrors@.len(),
                    before.len() == mirrors@.len(),
                    av@ == a@,
                    forall|k: int| i <= k < mirrors@.len() ==> npm_mirror_view(#[trigger] mirrors@[k]) == before[k],
                    forall|k: int|
                        0 <= k < i ==> npm_mirror_view(#[trigger] mirrors@[k]) == (
                            before[k].0,
                            before[k].1,
                            a@ == normalized_url(before[k].1),
                        ),
                decreases mirrors.len() - i,
            {
                let n = normalize_registry(mirrors[i].url.as_str());
                let nv = to_chars(n.as_str());
                let same = chars_eq(&av, &nv);
                let m = NpmMirror { name: mirrors[i].name.clone(), url: mirrors[i].url.clone(), active: same };
                mirrors.set(i, m);
                i += 1;
            }
            assert(npm_mirror_views(mirrors@) =~= with_active_registry(before, Some(a@)));
        },
        None => {},
    }
}

/// The answer of `npm config set registry`: success names the mirror; a failed
/// run reports its stderr, or its exit code when stderr is blank.
pub open spec fn switch_answer(result: Result<ProcessOutput, String>, name: Seq<char>) -> Result<Seq<char>, Seq<char>> {
    match result {
        Ok(o) => if o.exit_code == 0 {
            Ok("已成功切换到 "@ + name)
        } else if trim(o.stderr@).len() == 0 {
            Err("切换失败，退出码: "@ + signed_decimal(o.exit_code as int))
        } else {
            Err("切换失败: "@ + trim(o.stderr@))
        },
        Err(e) => Err("执行 npm 命令失败: "@ + e@),
    }
}

/// Words the answer of a registry switch (see [`switch_answer`]).
pub fn switch_outcome(result: &Result<ProcessOutput, String>, mirror_name: &str) -> (r: Result<String, String>)
    ensures
        result_view(r) == switch_answer(*result, mirror_name@),
{
    match result {
        Ok(o) => {
            if o.exit_code == 0 {
                let mut m: Vec<char> = Vec::new();
                push_str(&mut m, "已成功切换到 ");
                push_str(&mut m, mirror_name);
                Ok(from_chars(&m))
            } else {
                let v = to_chars(o.stderr.as_str());
                let t = trim_chars(&v);
                let mut m: Vec<char> = Vec::new();
                if t.len() == 0 {
                    push_str(&mut m, "切换失败，退出码: ");
                    let d = signed_decimal_chars(o.exit_code);
                    push_all(&mut m, &d);
                } else {
                    push_str(&mut m, "切换失败: ");
                    push_all(&mut m, &t);
                }
                Err(from_chars(&m))
            }
        },
        Err(e) => {
            let mut m: Vec<char> = Vec::new();
            push_str(&mut m, "执行 npm 命令失败: ");
            push_str(&mut m, e.as_str());
            Err(from_chars(&m))
        },
    }
}

/// The default registries are four different ones, each at its provider: the
/// official registry (the one active by default) at registry.npmjs.org,
/// Aliyun's at registry.npmmirror.com, Tencent Cloud's at
/// mirrors.cloud.tencent.com and Huawei Cloud's at repo.huaweicloud.com; no two
/// share a name or a URL.
pub proof fn law_npm_mirrors_at_their_providers()
    ensures
        default_npm_mirrors().len() == 4,
        forall|i: int, j: int|
            0 <= i < j < default_npm_mirrors().len() ==> (#[trigger] default_npm_mirrors()[i]).1
                != (#[trigger] default_npm_mirrors()[j]).1 && default_npm_mirrors()[i].0 != default_npm_mirrors()[j].0,
        forall|i: int| 0 <= i < default_npm_mirrors().len() ==> {
            let m = #[trigger] default_npm_mirrors()[i];
            &&& (m.0 == "官方源"@ <==> crate::text::starts_with(m.1, "https://registry.npmjs.org/"@))
            &&& (m.0 == "阿里云"@ <==> crate::text::starts_with(m.1, "https://registry.npmmirror.com"@))
            &&& (m.0 == "腾讯云"@ <==> crate::text::starts_with(m.1, "https://mirrors.cloud.tencent.com/"@))
            &&& (m.0 == "华为云"@ <==> crate::text::starts_with(m.1, "https://repo.huaweicloud.com/"@))
            &&& (m.2 <==> m.0 == "官方源"@)
        },
{
    reveal_strlit("官方源");
    reveal_strlit("阿里云");
    reveal_strlit("腾讯云");
    reveal_strlit("华为云");
    reveal_strlit("https://registry.npmjs.org/");
    reveal_strlit("https://registry.npmmirror.com");
    reveal_strlit("https://mirrors.cloud.tencent.com/npm/");
    reveal_strlit("https://repo.huaweicloud.com/repository/npm/");
    reveal_strlit("https://mirrors.cloud.tencent.com/");
    reveal_strlit("https://repo.huaweicloud.com/");
    let ms = default_npm_mirrors();
    let u0 = ms[0].1;
    let u1 = ms[1].1;
    let u2 = ms[2].1;
    let u3 = ms[3].1;
    let p0 = "https://registry.npmjs.org/"@;
    let p1 = "https://registry.npmmirror.com"@;
    let p2 = "https://mirrors.cloud.tencent.com/"@;
    let p3 = "https://repo.huaweicloud.com/"@;
    crate::text::lemma_not_prefix(u0, p1, 20);
    crate::text::lemma_not_prefix(u0, p2, 8);
    crate::text::lemma_not_prefix(u0, p3, 10);
    crate::text::lemma_not_prefix(u1, p0, 20);
    crate::text::lemma_not_prefix(u1, p2, 8);
    crate::text::lemma_not_prefix(u1, p3, 10);
    crate::text::lemma_not_prefix(u2, p0, 8);
    crate::text::lemma_not_prefix(u2, p1, 8);
    crate::text::lemma_not_prefix(u2, p3, 8);
    crate::text::lemma_not_prefix(u3, p0, 10);
    crate::text::lemma_not_prefix(u3, p1, 10);
    crate::text::lemma_not_prefix(u3, p2, 8);
    assert(u0[20] != u1[20] && u0[8] != u2[8] && u0[10] != u3[10] && u1[8] != u2[8] && u1[10] != u3[10]
        && u2[8] != u3[8]);
    assert(ms[0].0[0] != ms[1].0[0] && ms[0].0[0] != ms[2].0[0] && ms[0].0[0] != ms[3].0[0]);
    assert(ms[1].0[0] != ms[2].0[0] && ms[1].0[0] != ms[3].0[0] && ms[2].0[0] != ms[3].0[0]);
    assert(u0.take(27) =~= p0);
    assert(u1.take(30) =~= p1);
    assert(u2.take(34) =~= p2);
    assert(u3.take(29) =~= p3);
}

} // verus!
