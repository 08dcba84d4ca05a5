//! Adoptium JDK downloads: feature-version checks, links, file names, and the
//! order in which releases are listed.
use vstd::prelude::*;
use crate::text::{parse_u32, parse_unsigned, push_str, push_all, from_chars, to_chars, str_eq, decimal, decimal_chars};
use crate::pattern::{regex_matches, regex_is_match};
use crate::error::owned;
use crate::types::AvailableJavaVersion;

use crate::json::{
    json_elements, json_members, json_unsigned, member_of_document, string_member, array_elements,
    object_members, member_of, string_member_of, unsigned_value,
};

verus! {

/// The Adoptium API.
pub const API_BASE: &'static str = "https://api.adoptium.net";

/// The package type of the `.msi` installer.
pub const PACKAGE_TYPE_INSTALLER: &'static str = "installer";

/// The package type of the `.zip` archive.
pub const PACKAGE_TYPE_ARCHIVE: &'static str = "archive";

/// The pattern a feature version must match: digits only.
pub const FEATURE_VERSION_PATTERN: &'static str = "^\\d+$";

/// The text of the error `u32::from_str` gives for `s` (its `Display`).
pub uninterp spec fn int_error_text(s: Seq<char>) -> Seq<char>;

/// The `Display` text of the error `str::parse::<u32>` gives for a text it
/// refuses.  Claimed: that text is `int_error_text(s)`; `s` is one that the
/// parse refuses (an optional `+` and decimal digits that fit in a `u32` are
/// what it accepts).
#[verifier::external_body]
fn u32_error_text(s: &str) -> (r: String)
    requires
        parse_unsigned(s@, 0xffff_ffff) is None,
    ensures
        r@ == int_error_text(s@),
{
    match s.parse::<u32>() {
        Err(e) => e.to_string(),
        Ok(_) => String::new(),
    }
}

/// Why a feature version is refused, or its value.
pub open spec fn feature_version_result(v: Seq<char>) -> Result<nat, Seq<char>> {
    if v.len() == 0 {
        Err("版本号不能为空"@)
    } else if !regex_matches(FEATURE_VERSION_PATTERN@, v) {
        Err("版本号格式无效（需为数字，如 17、21）"@)
    } else {
        match parse_unsigned(v, 0xffff_ffff) {
            Some(n) => Ok(n),
            None => Err("版本号解析失败: "@ + int_error_text(v)),
        }
    }
}

/// Checks a feature version such as `17` and returns its value.
pub fn validate_feature_version(version: &str) -> (r: Result<u32, String>)
    ensures
        match feature_version_result(version@) {
            Ok(n) => r matches Ok(x) && x as nat == n,
            Err(m) => r matches Err(e) && e@ == m,
        },
{
    if version.is_empty() {
        return Err(owned("版本号不能为空"));
    }
    if !regex_is_match(FEATURE_VERSION_PATTERN, version) {
        return Err(owned("版本号格式无效（需为数字，如 17、21）"));
    }
    match parse_u32(&to_chars(version)) {
        Some(n) => Ok(n),
        None => {
            let t = u32_error_text(version);
            let mut m: Vec<char> = Vec::new();
            push_str(&mut m, "版本号解析失败: ");
            push_str(&mut m, t.as_str());
            Err(from_chars(&m))
        },
    }
}

/// The file extension of a package type: `zip` for the archive, `msi` otherwise.
pub fn package_extension(package_type: &str) -> (r: &'static str)
    ensures
        r@ == (if package_type@ == PACKAGE_TYPE_ARCHIVE@ { "zip"@ } else { "msi"@ }),
{
    if str_eq(package_type, PACKAGE_TYPE_ARCHIVE) {
        "zip"
    } else {
        "msi"
    }
}

/// The latest-release link of a feature version: the binary endpoint for the
/// archive, the installer endpoint otherwise.
pub open spec fn download_url_of(feature_version: u32, package_type: Seq<char>) -> Seq<char> {
    let endpoint = if package_type == PACKAGE_TYPE_ARCHIVE@ { "binary"@ } else { "installer"@ };
    API_BASE@ + "/v3/"@ + endpoint + "/latest/"@ + decimal(feature_version as nat)
        + "/ga/windows/x64/jdk/hotspot/normal/eclipse"@
}

/// The JDK link of a feature version (see [`download_url_of`]).
pub fn get_download_url(feature_version: u32, package_type: &str) -> (r: String)
    ensures
        r@ == download_url_of(feature_version, package_type@),
{
    let mut s: Vec<char> = Vec::new();
    push_str(&mut s, API_BASE);
    push_str(&mut s, "/v3/");
    if str_eq(package_type, PACKAGE_TYPE_ARCHIVE) {
        push_str(&mut s, "binary");
    } else {
        push_str(&mut s, "installer");
    }
    push_str(&mut s, "/latest/");
    let d = decimal_chars(feature_version as u64);
    push_all(&mut s, &d);
    push_str(&mut s, "/ga/windows/x64/jdk/hotspot/normal/eclipse");
    from_chars(&s)
}

/// The file a JDK download is saved as.
pub fn download_file_name(feature_version: u32, package_type: &str) -> (r: String)
    ensures
        r@ == "openjdk-"@ + decimal(feature_version as nat) + "-windows-x64-bin."@ + (if package_type@
            == PACKAGE_TYPE_ARCHIVE@ {
            "zip"@
        } else {
            "msi"@
        }),
{
    let mut s: Vec<char> = Vec::new();
    push_str(&mut s, "openjdk-");
    let d = decimal_chars(feature_version as u64);
    push_all(&mut s, &d);
    push_str(&mut s, "-windows-x64-bin.");
    push_str(&mut s, package_extension(package_type));
    from_chars(&s)
}

/// The id of a JDK download task.
pub fn download_task_id(feature_version: u32, package_type: &str) -> (r: String)
    ensures
        r@ == "java:"@ + decimal(feature_version as nat) + ":"@ + package_type@,
{
    let mut s: Vec<char> = Vec::new();
    push_str(&mut s, "java:");
    let d = decimal_chars(feature_version as u64);
    push_all(&mut s, &d);
    push_str(&mut s, ":");
    push_str(&mut s, package_type);
    from_chars(&s)
}

/// The URL listing the available feature releases.
pub fn releases_url() -> (r: String)
    ensures
        r@ == API_BASE@ + "/v3/info/available_releases"@,
{
    let mut s: Vec<char> = Vec::new();
    push_str(&mut s, API_BASE);
    push_str(&mut s, "/v3/info/available_releases");
    from_chars(&s)
}

/// The URL of the newest GA build of a feature release for Windows x64.
pub fn feature_release_url(feature_version: u32) -> (r: String)
    ensures
        r@ == API_BASE@ + "/v3/assets/feature_releases/"@ + decimal(feature_version as nat)
            + "/ga?architecture=x64&heap_size=normal&image_type=jdk&os=windows&page=0&page_size=1&sort_method=DEFAULT&sort_order=DESC&vendor=eclipse"@,
{
    let mut s: Vec<char> = Vec::new();
    push_str(&mut s, API_BASE);
    push_str(&mut s, "/v3/assets/feature_releases/");
    let d = decimal_chars(feature_version as u64);
    push_all(&mut s, &d);
    push_str(&mut s, "/ga?architecture=x64&heap_size=normal&image_type=jdk&os=windows&page=0&page_size=1&sort_method=DEFAULT&sort_order=DESC&vendor=eclipse");
    from_chars(&s)
}

/// The fields of a listed release: feature version, LTS, newest version, timestamp.
pub type ReleaseView = (u32, bool, Seq<char>, Seq<char>);

pub open spec fn release_view(r: AvailableJavaVersion) -> ReleaseView {
    (r.feature_version, r.is_lts, r.most_recent_version@, r.timestamp@)
}

pub open spec fn release_views(rs: Seq<AvailableJavaVersion>) -> Seq<ReleaseView> {
    Seq::new(rs.len(), |i: int| release_view(rs[i]))
}

/// Newest feature version first.
pub open spec fn newest_first(rs: Seq<ReleaseView>) -> bool {
    forall|i: int, j: int| 0 <= i < j < rs.len() ==> rs[i].0 >= rs[j].0
}

/// Releases with equal feature versions keep their order: `j`-th and `k`-th of
/// the output came from positions in the input in the same order.
pub open spec fn stable_by_version(input: Seq<ReleaseView>, output: Seq<ReleaseView>, from: Seq<int>) -> bool {
    &&& from.len() == output.len()
    &&& forall|j: int| 0 <= j < output.len() ==> 0 <= #[trigger] from[j] < input.len() && output[j] == input[from[j]]
    &&& forall|j: int, k: int| 0 <= j < k < output.len() && output[j].0 == output[k].0 ==> #[trigger] from[j] < #[trigger] from[k]
}

/// Lists releases newest first, releases with equal feature versions in their
/// original order (a stable sort on the feature version, descending).
pub fn sort_newest_first(releases: Vec<AvailableJavaVersion>) -> (r: Vec<AvailableJavaVersion>)
    ensures
        newest_first(release_views(r@)),
        release_views(r@).to_multiset() == release_views(releases@).to_multiset(),
        exists|from: Seq<int>| stable_by_version(release_views(releases@), release_views(r@), from),
{
    let ghost input = release_views(releases@);
    let mut out: Vec<AvailableJavaVersion> = Vec::new();
    let ghost mut from: Seq<int> = seq![];
    let mut rest = releases;
    let mut taken: usize = 0;
    let n = rest.len();
    proof {
        assert(release_views(out@) =~= Seq::<ReleaseView>::empty());
        assert(input.take(0) =~= Seq::<ReleaseView>::empty());
    }
    while taken < n
        invariant
            n == input.len(),
            taken <= n,
            rest@.len() == n,
            release_views(rest@) == input,
            newest_first(release_views(out@)),
            release_views(out@).to_multiset() == input.take(taken as int).to_multiset(),
            stable_by_version(input.take(taken as int), release_views(out@), from),
            forall|j: int| 0 <= j < from.len() ==> #[trigger] from[j] < taken,
        decreases n - taken,
    {
        let x = AvailableJavaVersion {
            feature_version: rest[taken].feature_version,
            is_lts: rest[taken].is_lts,
            most_recent_version: rest[taken].most_recent_version.clone(),
            timestamp: rest[taken].timestamp.clone(),
        };
        let ghost xv = release_view(x);
        assert(xv == input[taken as int]);
        // position: after every release with a feature version at least x's
        let mut pos: usize = 0;
        while pos < out.len() && out[pos].feature_version >= x.feature_version
            invariant
                pos <= out@.len(),
                newest_first(release_views(out@)),
                forall|k: int| 0 <= k < pos ==> (#[trigger] out@[k]).feature_version >= x.feature_version,
            decreases out.len() - pos,
        {
            pos += 1;
        }
        let ghost before = release_views(out@);
        out.insert(pos, x);
        proof {
            let after = release_views(out@);
            assert(after =~= before.insert(pos as int, xv));
            assert forall|k: int| pos <= k < before.len() implies before[k].0 < xv.0 by {
                if pos < before.len() {
                    assert(before[pos as int].0 < xv.0);
                    if k > pos {
                        assert(before[pos as int].0 >= before[k].0);
                    }
                }
            }
            assert(newest_first(after)) by {
                assert forall|i: int, j: int| 0 <= i < j < after.len() implies after[i].0 >= after[j].0 by {
                    if i < pos && j < pos {
                        assert(after[i] == before[i] && after[j] == before[j]);
                    } else if i < pos && j == pos {
                        assert(after[i] == before[i]);
                    } else if i < pos && j > pos {
                        assert(after[i] == before[i] && after[j] == before[j - 1]);
                    } else if i == pos {
                        assert(after[j] == before[j - 1]);
                    } else {
                        assert(after[i] == before[i - 1] && after[j] == before[j - 1]);
                    }
                }
            }
            vstd::seq_lib::to_multiset_insert(before, pos as int, xv);
            assert(input.take(taken + 1) =~= input.take(taken as int).push(xv));
            vstd::seq_lib::to_multiset_build(input.take(taken as int), xv);
            let nfrom = from.insert(pos as int, taken as int);
            assert forall|j: int| 0 <= j < after.len() implies 0 <= #[trigger] nfrom[j] < input.take(taken + 1).len()
                && after[j] == input.take(taken + 1)[nfrom[j]] by {
                if j < pos {
                    assert(nfrom[j] == from[j]);
                } else if j > pos {
                    assert(nfrom[j] == from[j - 1]);
                }
            }
            assert forall|j: int, k: int| 0 <= j < k < after.len() && after[j].0 == after[k].0 implies #[trigger] nfrom[j]
                < #[trigger] nfrom[k] by {
                if j < pos && k < pos {
                } else if j < pos && k == pos {
                    assert(nfrom[j] == from[j]);
                } else if j < pos && k > pos {
                    assert(nfrom[j] == from[j] && nfrom[k] == from[k - 1]);
                } else if j == pos {
                    assert(after[k] == before[k - 1]);
                    assert(before[k - 1].0 < xv.0);
                } else {
                    assert(nfrom[j] == from[j - 1] && nfrom[k] == from[k - 1]);
                }
            }
            from = nfrom;
        }
        taken += 1;
    }
    assert(input.take(n as int) =~= input);
    out
}

/// The numbers of a JSON array that read as `u64`, each cut to `u32` as `as`
/// cuts it.
pub open spec fn u32_versions(xs: Seq<Option<u64>>) -> Seq<u32>
    decreases xs.len(),
{
    if xs.len() == 0 {
        seq![]
    } else {
        u32_versions(xs.drop_last()) + match xs.last() {
            Some(x) => seq![x as u32],
            None => seq![],
        }
    }
}

/// The feature versions of an `available_releases`-style field: none when the
/// field is missing or not an array (`items` is `None`).
pub fn feature_versions(items: &Option<Vec<Option<u64>>>) -> (r: Vec<u32>)
    ensures
        r@ == match *items {
            Some(v) => u32_versions(v@),
            None => seq![],
        },
{
    let mut out: Vec<u32> = Vec::new();
    match items {
        Some(v) => {
            let mut i: usize = 0;
            assert(v@.take(0) =~= Seq::<Option<u64>>::empty());
            while i < v.len()
                invariant
                    i <= v@.len(),
                    out@ == u32_versions(v@.take(i as int)),
                decreases v.len() - i,
            {
                assert(v@.take(i + 1).drop_last() =~= v@.take(i as int));
                assert(v@.take(i + 1).last() == v@[i as int]);
                match v[i] {
                    Some(x) => {
                        out.push(x as u32);
                    },
                    None => {},
                }
                i += 1;
            }
            assert(v@.take(v@.len() as int) =~= v@);
        },
        None => {},
    }
    out
}

/// The newest patch of a feature version from the first asset of the API's
/// answer (its `version_data.openjdk_version` and `timestamp`, each empty when
/// absent); no asset at all is an error.
pub fn release_detail(feature_version: u32, first: Option<(Option<String>, Option<String>)>) -> (r: Result<(String, String), String>)
    ensures
        match first {
            Some((v, t)) => r matches Ok(d) && d.0@ == (match v {
                Some(x) => x@,
                None => seq![],
            }) && d.1@ == (match t {
                Some(x) => x@,
                None => seq![],
            }),
            None => r matches Err(e) && e@ == "Java "@ + decimal(feature_version as nat) + " 无可用版本"@,
        },
{
    match first {
        Some((v, t)) => {
            let a = match v {
                Some(x) => x,
                None => String::new(),
            };
            let b = match t {
                Some(x) => x,
                None => String::new(),
            };
            Ok((a, b))
        },
        None => {
            let mut m: Vec<char> = Vec::new();
            push_str(&mut m, "Java ");
            let d = decimal_chars(feature_version as u64);
            push_all(&mut m, &d);
            push_str(&mut m, " 无可用版本");
            Err(from_chars(&m))
        },
    }
}

/// The releases whose details could be read, in the order of the list, each
/// marked LTS when the LTS list holds it.
pub open spec fn java_entries(rs: Seq<u32>, lts: Seq<u32>, ds: Seq<Result<(String, String), String>>) -> Seq<ReleaseView>
    decreases rs.len(),
{
    if rs.len() == 0 || ds.len() == 0 {
        seq![]
    } else {
        let prev = java_entries(rs.drop_last(), lts, ds.drop_last());
        match ds.last() {
            Ok(d) => prev.push((rs.last(), lts.contains(rs.last()), d.0@, d.1@)),
            Err(_) => prev,
        }
    }
}

fn holds(xs: &Vec<u32>, x: u32) -> (r: bool)
    ensures
        r == xs@.contains(x),
{
    let mut i: usize = 0;
    while i < xs.len()
        invariant
            i <= xs@.len(),
            forall|k: int| 0 <= k < i ==> xs@[k] != x,
        decreases xs.len() - i,
    {
        if xs[i] == x {
            assert(xs@[i as int] == x);
            return true;
        }
        i += 1;
    }
    false
}

/// The JDK releases offered: an empty release list is an error; otherwise the
/// releases whose details were read (see [`java_entries`]), newest feature
/// version first.  `details[i]` answers `releases[i]`.
pub fn get_available_java_versions(releases: &Vec<u32>, lts: &Vec<u32>, details: &Vec<Result<(String, String), String>>) -> (r: Result<Vec<AvailableJavaVersion>, String>)
    requires
        details@.len() == releases@.len(),
    ensures
        releases@.len() == 0 ==> (r matches Err(e) && e@ == "Adoptium API 返回空版本列表"@),
        releases@.len() > 0 ==> (r matches Ok(vs) && newest_first(release_views(vs@)) && release_views(vs@).to_multiset()
            == java_entries(releases@, lts@, details@).to_multiset() && exists|from: Seq<int>| stable_by_version(
            java_entries(releases@, lts@, details@),
            release_views(vs@),
            from,
        )),
{
    if releases.len() == 0 {
        return Err(owned("Adoptium API 返回空版本列表"));
    }
    let mut out: Vec<AvailableJavaVersion> = Vec::new();
    let mut i: usize = 0;
    assert(releases@.take(0) =~= Seq::<u32>::empty());
    assert(release_views(out@) =~= Seq::<ReleaseView>::empty());
    while i < releases.len()
        invariant
            i <= releases@.len(),
            details@.len() == releases@.len(),
            release_views(out@) == java_entries(releases@.take(i as int), lts@, details@.take(i as int)),
        decreases releases.len() - i,
    {
        assert(releases@.take(i + 1).drop_last() =~= releases@.take(i as int));
        assert(details@.take(i + 1).drop_last() =~= details@.take(i as int));
        assert(releases@.take(i + 1).last() == releases@[i as int]);
        assert(details@.take(i + 1).last() == details@[i as int]);
        let ghost before = release_views(out@);
        match &details[i] {
            Ok(d) => {
                let is_lts = holds(lts, releases[i]);
                out.push(
                    AvailableJavaVersion {
                        feature_version: releases[i],
                        is_lts,
                        most_recent_version: d.0.clone(),
                        timestamp: d.1.clone(),
                    },
                );
                assert(release_views(out@) =~= before.push((releases@[i as int], lts@.contains(releases@[i as int]), d.0@, d.1@)));
            },
            Err(_) => {},
        }
        i += 1;
    }
    assert(releases@.take(releases@.len() as int) =~= releases@);
    assert(details@.take(details@.len() as int) =~= details@);
    Ok(sort_newest_first(out))
}

/// The items of member `key`'s array in a document, each read as a `u64`
/// where it is one; `None` when the member is missing or not an array.
pub open spec fn unsigned_items(text: Seq<char>, key: Seq<char>) -> Option<Seq<Option<u64>>> {
    match member_of_document(text, key) {
        Some(v) => match json_elements(v) {
            Ok(es) => Some(Seq::new(es.len(), |i: int| json_unsigned(es[i]))),
            Err(_) => None,
        },
        None => None,
    }
}

/// The feature versions listed under `key` (see [`u32_versions`]); none when
/// the list is missing.
pub open spec fn listed_features(text: Seq<char>, key: Seq<char>) -> Seq<u32> {
    match unsigned_items(text, key) {
        Some(xs) => u32_versions(xs),
        None => seq![],
    }
}

fn unsigned_list(body: &str, key: &str) -> (r: Option<Vec<Option<u64>>>)
    ensures
        match r {
            Some(v) => unsigned_items(body@, key@) == Some(v@),
            None => unsigned_items(body@, key@) is None,
        },
{
    let v = match member_of(body, key) {
        Some(v) => v,
        None => {
            return None;
        },
    };
    let es = match array_elements(v.as_str()) {
        Ok(es) => es,
        Err(_) => {
            return None;
        },
    };
    let ghost ev = Seq::new(es@.len(), |i: int| es@[i]@);
    let mut out: Vec<Option<u64>> = Vec::new();
    let mut i: usize = 0;
    while i < es.len()
        invariant
            i <= es@.len(),
            ev == Seq::new(es@.len(), |i: int| es@[i]@),
            out@.len() == i,
            forall|k: int| 0 <= k < i ==> out@[k] == json_unsigned(#[trigger] ev[k]),
        decreases es.len() - i,
    {
        out.push(unsigned_value(es[i].as_str()));
        i += 1;
    }
    assert(out@ =~= Seq::new(ev.len(), |i: int| json_unsigned(ev[i])));
    Some(out)
}

/// The release lists of Adoptium's `available_releases` answer: all feature
/// versions and the LTS ones (see [`listed_features`]); a body that is not
/// JSON is an error.
pub fn available_release_lists(body: &str) -> (r: Result<(Vec<u32>, Vec<u32>), String>)
    ensures
        match json_members(body@) {
            Err(m) => r matches Err(e) && e@ == "JSON 解析失败: "@ + m,
            Ok(_) => r matches Ok(ls) && ls.0@ == listed_features(body@, "available_releases"@) && ls.1@
                == listed_features(body@, "available_lts_releases"@),
        },
{
    match object_members(body) {
        Err(e) => {
            let mut m: Vec<char> = Vec::new();
            push_str(&mut m, "JSON 解析失败: ");
            push_str(&mut m, e.as_str());
            Err(from_chars(&m))
        },
        Ok(_) => {
            let all = feature_versions(&unsigned_list(body, "available_releases"));
            let lts = feature_versions(&unsigned_list(body, "available_lts_releases"));
            Ok((all, lts))
        },
    }
}

/// The text, or the empty text.
pub open spec fn or_empty(o: Option<Seq<char>>) -> Seq<char> {
    match o {
        Some(s) => s,
        None => seq![],
    }
}

/// The `version_data.openjdk_version` string of an asset.
pub open spec fn openjdk_version_of(asset: Seq<char>) -> Option<Seq<char>> {
    match member_of_document(asset, "version_data"@) {
        Some(vd) => string_member(vd, "openjdk_version"@),
        None => None,
    }
}

/// The newest patch of a feature version from Adoptium's asset list: the
/// first asset's `version_data.openjdk_version` and `timestamp` (each empty
/// when absent); an empty list, or a body that is not a JSON array, is an error.
pub fn feature_release_detail(feature_version: u32, body: &str) -> (r: Result<(String, String), String>)
    ensures
        match json_elements(body@) {
            Err(m) => r matches Err(e) && e@ == "JSON 解析失败: "@ + m,
            Ok(es) => if es.len() == 0 {
                r matches Err(e) && e@ == "Java "@ + decimal(feature_version as nat) + " 无可用版本"@
            } else {
                r matches Ok(d) && d.0@ == or_empty(openjdk_version_of(es[0])) && d.1@ == or_empty(
                    string_member(es[0], "timestamp"@),
                )
            },
        },
{
    let es = match array_elements(body) {
        Ok(es) => es,
        Err(e) => {
            let mut m: Vec<char> = Vec::new();
            push_str(&mut m, "JSON 解析失败: ");
            push_str(&mut m, e.as_str());
            return Err(from_chars(&m));
        },
    };
    if es.len() == 0 {
        return release_detail(feature_version, None);
    }
    let first = es[0].as_str();
    let version = match member_of(first, "version_data") {
        Some(vd) => string_member_of(vd.as_str(), "openjdk_version"),
        None => None,
    };
    let timestamp = string_member_of(first, "timestamp");
    release_detail(feature_version, Some((version, timestamp)))
}

} // verus!
