//! Python releases: version checks, the listing of a mirror, and download links.
use vstd::prelude::*;
use crate::text::{
    parse_unsigned, parse_unsigned_chars, split_char, split_ch, vviews, contains, contains_str,
    has_char, has_ch, to_chars, from_chars, push_str, str_eq,
};
use crate::pattern::{regex_matches, regex_is_match, regex_all_captures, regex_capture_all};
use crate::node::version_fetcher::{lex_compare, lemma_lex_antisym, lemma_lex_trans, compare_keys};
use crate::error::owned;
use crate::types::AvailablePythonVersion;

verus! {

/// The pattern of a stable release: three dot-separated numbers, nothing else.
pub const STABLE_VERSION_PATTERN: &'static str = "^\\d+\\.\\d+\\.\\d+$";

/// The pattern of a release directory in a mirror's listing.
pub const LISTING_PATTERN: &'static str = "href=\"(\\d+\\.\\d+\\.\\d+)/\"";

/// How many releases are offered.
pub const OFFERED_RELEASES: usize = 50;

/// Whether a version is a stable release (three numbers, no suffix).
pub fn is_stable_version(version: &str) -> (r: bool)
    ensures
        r == regex_matches(STABLE_VERSION_PATTERN@, version@),
{
    regex_is_match(STABLE_VERSION_PATTERN, version)
}

/// Why a version string is refused, or `None`.
pub open spec fn version_string_problem(v: Seq<char>) -> Option<Seq<char>> {
    if v.len() == 0 {
        Some("版本号不能为空"@)
    } else if !regex_matches(STABLE_VERSION_PATTERN@, v) {
        Some("版本号格式无效"@)
    } else if contains(v, ".."@) || has_char(v, '/') || has_char(v, '\\') {
        Some("版本号包含非法字符"@)
    } else {
        None
    }
}

/// Checks a release version such as `3.12.0` (see [`version_string_problem`]).
pub fn validate_version_string(version: &str) -> (r: Result<(), String>)
    ensures
        match version_string_problem(version@) {
            None => r is Ok,
            Some(m) => r matches Err(e) && e@ == m,
        },
{
    if version.is_empty() {
        return Err(owned("版本号不能为空"));
    }
    if !regex_is_match(STABLE_VERSION_PATTERN, version) {
        return Err(owned("版本号格式无效"));
    }
    let v = to_chars(version);
    if contains_str(&v, "..") || has_ch(&v, '/') || has_ch(&v, '\\') {
        return Err(owned("版本号包含非法字符"));
    }
    Ok(())
}

/// The installer architecture name for a target architecture: `amd64` for
/// x86_64, `win32` for x86, `arm64` for aarch64, `amd64` for anything else.
pub fn python_arch_name(target_arch: &str) -> (r: &'static str)
    ensures
        r@ == (if target_arch@ == "x86"@ {
            "win32"@
        } else if target_arch@ == "aarch64"@ {
            "arm64"@
        } else {
            "amd64"@
        }),
{
    if str_eq(target_arch, "x86") {
        "win32"
    } else if str_eq(target_arch, "aarch64") {
        "arm64"
    } else {
        "amd64"
    }
}

/// The installer link of a release on the Huawei Cloud mirror.
pub open spec fn download_url_of(version: Seq<char>, arch: Seq<char>) -> Seq<char> {
    "https://mirrors.huaweicloud.com/python/"@ + version + "/python-"@ + version + "-"@ + arch + ".exe"@
}

/// The installer link of a release for the installer architecture `arch`.
pub fn get_download_url(version: &str, arch: &str) -> (r: String)
    ensures
        r@ == download_url_of(version@, arch@),
{
    let mut s: Vec<char> = Vec::new();
    push_str(&mut s, "https://mirrors.huaweicloud.com/python/");
    push_str(&mut s, version);
    push_str(&mut s, "/python-");
    push_str(&mut s, version);
    push_str(&mut s, "-");
    push_str(&mut s, arch);
    push_str(&mut s, ".exe");
    from_chars(&s)
}

/// The mirrors the release list is read from, in the order they are tried.
pub fn release_mirrors() -> (r: Vec<(String, String)>)
    ensures
        r@.len() == 4,
        r@[0].0@ == "华为云"@ && r@[0].1@ == "https://mirrors.huaweicloud.com/python/"@,
        r@[1].0@ == "淘宝"@ && r@[1].1@ == "https://registry.npmmirror.com/binary.html?path=python/"@,
        r@[2].0@ == "腾讯云"@ && r@[2].1@ == "https://mirrors.cloud.tencent.com/python/"@,
        r@[3].0@ == "官方"@ && r@[3].1@ == "https://www.python.org/ftp/python/"@,
{
    let mut r: Vec<(String, String)> = Vec::new();
    r.push((owned("华为云"), owned("https://mirrors.huaweicloud.com/python/")));
    r.push((owned("淘宝"), owned("https://registry.npmmirror.com/binary.html?path=python/")));
    r.push((owned("腾讯云"), owned("https://mirrors.cloud.tencent.com/python/")));
    r.push((owned("官方"), owned("https://www.python.org/ftp/python/")));
    r
}

/// The release directories a mirror's listing links to, in page order.
pub fn versions_in_listing(html: &str) -> (r: Vec<String>)
    ensures
        r.deep_view() == regex_all_captures(LISTING_PATTERN@, html@, 1),
{
    regex_capture_all(LISTING_PATTERN, html, 1)
}

/// The numbers that survive parsing as `u32`, in order.
pub open spec fn parsed_u32s(parts: Seq<Seq<char>>) -> Seq<nat>
    decreases parts.len(),
{
    if parts.len() == 0 {
        seq![]
    } else {
        parsed_u32s(parts.drop_last()) + match parse_unsigned(parts.last(), 0xffff_ffff) {
            Some(v) => seq![v],
            None => seq![],
        }
    }
}

/// The sort key of a version: its `.`-separated pieces that parse as `u32`.
pub open spec fn version_key(v: Seq<char>) -> Seq<nat> {
    parsed_u32s(split_char(v, '.'))
}

fn numeric_key(version: &str) -> (r: Vec<u64>)
    ensures
        r@.map_values(|x: u64| x as nat) == version_key(version@),
{
    let v = to_chars(version);
    let parts = split_ch(&v, '.');
    let ghost ps = vviews(parts@);
    let mut r: Vec<u64> = Vec::new();
    let mut i: usize = 0;
    assert(ps.take(0) =~= Seq::<Seq<char>>::empty());
    while i < parts.len()
        invariant
            i <= parts.len(),
            ps == vviews(parts@),
            ps == split_char(version@, '.'),
            r@.map_values(|x: u64| x as nat) == parsed_u32s(ps.take(i as int)),
        decreases parts.len() - i,
    {
        assert(ps.take(i + 1).drop_last() =~= ps.take(i as int));
        assert(ps.take(i + 1).last() == parts@[i as int]@);
        match parse_unsigned_chars(&parts[i], 0xffff_ffff) {
            Some(x) => {
                let ghost before = r@;
                r.push(x);
                assert(r@.map_values(|x: u64| x as nat) =~= before.map_values(|x: u64| x as nat) + seq![x as nat]);
            },
            None => {
                assert(parsed_u32s(ps.take(i + 1)) =~= parsed_u32s(ps.take(i as int)));
            },
        }
        i += 1;
    }
    assert(ps.take(parts.len() as int) =~= ps);
    r
}

/// Newest version first, by [`version_key`].
pub open spec fn newest_first(vs: Seq<Seq<char>>) -> bool {
    forall|i: int, j: int| 0 <= i < j < vs.len() ==> lex_compare(version_key(vs[i]), version_key(vs[j])) >= 0
}

/// Versions with equal keys keep their order: the `j`-th of the output is the
/// `from[j]`-th of the input, and equal keys come in input order.
pub open spec fn stable_by_key(input: Seq<Seq<char>>, output: Seq<Seq<char>>, from: Seq<int>) -> bool {
    &&& from.len() == output.len()
    &&& forall|j: int| 0 <= j < output.len() ==> 0 <= #[trigger] from[j] < input.len() && output[j] == input[from[j]]
    &&& forall|j: int, k: int|
        0 <= j < k < output.len() && lex_compare(version_key(output[j]), version_key(output[k])) == 0
            ==> #[trigger] from[j] < #[trigger] from[k]
}

/// Lists versions newest first by [`version_key`] (a stable sort, descending),
/// as `Vec<u32>` keys order them.
pub fn sort_newest_first(versions: Vec<String>) -> (r: Vec<String>)
    ensures
        newest_first(r.deep_view()),
        r.deep_view().to_multiset() == versions.deep_view().to_multiset(),
        exists|from: Seq<int>| stable_by_key(versions.deep_view(), r.deep_view(), from),
{
    let ghost input = versions.deep_view();
    let ghost mut from: Seq<int> = seq![];
    let mut out: Vec<String> = Vec::new();
    let mut keys: Vec<Vec<u64>> = Vec::new();
    let n = versions.len();
    let mut taken: usize = 0;
    proof {
        assert(out.deep_view() =~= Seq::<Seq<char>>::empty());
        assert(input.take(0) =~= Seq::<Seq<char>>::empty());
    }
    while taken < n
        invariant
            n == input.len(),
            n == versions@.len(),
            taken <= n,
            versions.deep_view() == input,
            keys@.len() == out@.len(),
            forall|k: int| 0 <= k < out@.len() ==> (#[trigger] keys@[k])@.map_values(|x: u64| x as nat)
                == version_key(out@[k]@),
            newest_first(out.deep_view()),
            out.deep_view().to_multiset() == input.take(taken as int).to_multiset(),
            stable_by_key(input.take(taken as int), out.deep_view(), from),
        decreases n - taken,
    {
        let x = versions[taken].clone();
        let ghost xv = x@;
        assert(xv == input[taken as int]);
        let xk = numeric_key(x.as_str());
        let ghost xkey = version_key(xv);
        let mut pos: usize = 0;
        while pos < out.len() && compare_keys(&keys[pos], &xk) >= 0
            invariant
                pos <= out@.len(),
                keys@.len() == out@.len(),
                xk@.map_values(|x: u64| x as nat) == xkey,
                forall|k: int| 0 <= k < out@.len() ==> (#[trigger] keys@[k])@.map_values(|x: u64| x as nat)
                    == version_key(out@[k]@),
                forall|k: int| 0 <= k < pos ==> lex_compare(version_key((#[trigger] out@[k])@), xkey) >= 0,
            decreases out.len() - pos,
        {
            pos += 1;
        }
        let ghost before = out.deep_view();
        let ghost keys_before = keys@;
        let ghost out_before = out@;
        proof {
            if pos < out@.len() {
                assert(lex_compare(version_key(out@[pos as int]@), xkey) < 0);
            }
        }
        out.insert(pos, x);
        keys.insert(pos, xk);
        proof {
            let after = out.deep_view();
            assert(after =~= before.insert(pos as int, xv));
            assert forall|k: int| 0 <= k < out@.len() implies (#[trigger] keys@[k])@.map_values(|x: u64| x as nat)
                == version_key(out@[k]@) by {
                if k < pos {
                    assert(keys@[k] == keys_before[k] && out@[k] == out_before[k]);
                } else if k > pos {
                    assert(keys@[k] == keys_before[k - 1] && out@[k] == out_before[k - 1]);
                }
            }
            assert forall|k: int| pos < k < after.len() implies lex_compare(xkey, version_key(after[k])) > 0 by {
                assert(after[k] == before[k - 1]);
                lemma_lex_antisym(version_key(before[pos as int]), xkey);
                lemma_lex_trans(xkey, version_key(before[pos as int]), version_key(before[k - 1]));
            }
            assert forall|i: int, j: int| 0 <= i < j < after.len() implies lex_compare(
                version_key(after[i]),
                version_key(after[j]),
            ) >= 0 by {
                if i < pos && j < pos {
                } else if i < pos && j == pos {
                } else if i < pos && j > pos {
                    assert(after[j] == before[j - 1]);
                } else if i == pos {
                } else {
                    assert(after[i] == before[i - 1] && after[j] == before[j - 1]);
                }
            }
            vstd::seq_lib::to_multiset_insert(before, pos as int, xv);
            assert(input.take(taken + 1) =~= input.take(taken as int).push(xv));
            vstd::seq_lib::to_multiset_build(input.take(taken as int), xv);
            let nfrom = from.insert(pos as int, taken as int);
            let ninput = input.take(taken + 1);
            assert forall|j: int| 0 <= j < after.len() implies 0 <= #[trigger] nfrom[j] < ninput.len() && after[j]
                == ninput[nfrom[j]] by {
                if j < pos {
                    assert(nfrom[j] == from[j] && after[j] == before[j]);
                } else if j > pos {
                    assert(nfrom[j] == from[j - 1] && after[j] == before[j - 1]);
                }
            }
            assert forall|j: int, k: int|
                0 <= j < k < after.len() && lex_compare(version_key(after[j]), version_key(after[k])) == 0
                    implies #[trigger] nfrom[j] < #[trigger] nfrom[k] by {
                if j < pos && k < pos {
                    assert(after[j] == before[j] && after[k] == before[k]);
                } else if j < pos && k == pos {
                    assert(nfrom[j] == from[j]);
                } else if j < pos && k > pos {
                    assert(after[j] == before[j] && after[k] == before[k - 1]);
                    assert(nfrom[j] == from[j] && nfrom[k] == from[k - 1]);
                } else if j == pos {
                    assert(lex_compare(xkey, version_key(after[k])) > 0);
                } else {
                    assert(after[j] == before[j - 1] && after[k] == before[k - 1]);
                    assert(nfrom[j] == from[j - 1] && nfrom[k] == from[k - 1]);
                }
            }
            from = nfrom;
        }
        taken += 1;
    }
    assert(input.take(n as int) =~= input);
    out
}

/// The releases offered: the first 50 of the sorted list, each marked stable or not.
pub fn offered_versions(sorted: &Vec<String>) -> (r: Vec<AvailablePythonVersion>)
    ensures
        r@.len() == (if sorted@.len() < OFFERED_RELEASES { sorted@.len() } else { OFFERED_RELEASES as nat }),
        forall|i: int| 0 <= i < r@.len() ==> (#[trigger] r@[i]).version@ == sorted@[i]@ && r@[i].is_stable
            == regex_matches(STABLE_VERSION_PATTERN@, sorted@[i]@),
{
    let mut out: Vec<AvailablePythonVersion> = Vec::new();
    let mut i: usize = 0;
    while i < sorted.len() && i < OFFERED_RELEASES
        invariant
            i <= sorted@.len(),
            i <= OFFERED_RELEASES,
            out@.len() == i,
            forall|k: int| 0 <= k < i ==> (#[trigger] out@[k]).version@ == sorted@[k]@ && out@[k].is_stable
                == regex_matches(STABLE_VERSION_PATTERN@, sorted@[k]@),
        decreases sorted.len() - i,
    {
        let v = sorted[i].clone();
        let stable = is_stable_version(v.as_str());
        out.push(AvailablePythonVersion { version: v, is_stable: stable });
        i += 1;
    }
    out
}

} // verus!
