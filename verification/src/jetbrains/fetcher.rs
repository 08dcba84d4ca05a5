//! The JetBrains release API: product codes, links, package choices, and the
//! checks made on a finished download.
use vstd::prelude::*;
use crate::text::{
    words, words_of, trim, trim_chars, vviews, utf8_len, utf8_len_lt, to_chars, from_chars, push_str,
    push_all, str_eq, decimal, decimal_chars, text_order, lemma_text_order_antisym, lemma_text_order_trans,
    compare_chars,
};
use crate::winpath::{after_last_sep, after_last_sep_chars};
use crate::pattern::{unicode_lower, to_lowercase};
use crate::mysql::fetcher::ChecksumVerdict;
use crate::error::owned;
use crate::types::{JetBrainsDownload, JetBrainsDownloads, JetBrainsPackageOption, JetBrainsRelease, JetBrainsVersionDetail, JetBrainsVersionInfo};

verus! {

/// The products offered, as API code and display name.
pub open spec fn products() -> Seq<(Seq<char>, Seq<char>)> {
    seq![
        ("IIU"@, "IntelliJ IDEA Ultimate"@),
        ("IIC"@, "IntelliJ IDEA Community"@),
        ("PCP"@, "PyCharm Professional"@),
        ("PCC"@, "PyCharm Community"@),
        ("WS"@, "WebStorm"@),
        ("GO"@, "GoLand"@),
        ("CL"@, "CLion"@),
        ("DG"@, "DataGrip"@),
        ("PS"@, "PhpStorm"@),
        ("RM"@, "RubyMine"@),
        ("RR"@, "RustRover"@),
        ("RD"@, "Rider"@),
    ]
}

/// The products offered (see [`products`]).
pub fn jetbrains_products() -> (r: Vec<(String, String)>)
    ensures
        r@.len() == products().len(),
        forall|i: int| 0 <= i < r@.len() ==> (#[trigger] r@[i]).0@ == products()[i].0 && r@[i].1@ == products()[i].1,
{
    let mut r: Vec<(String, String)> = Vec::new();
    r.push((owned("IIU"), owned("IntelliJ IDEA Ultimate")));
    r.push((owned("IIC"), owned("IntelliJ IDEA Community")));
    r.push((owned("PCP"), owned("PyCharm Professional")));
    r.push((owned("PCC"), owned("PyCharm Community")));
    r.push((owned("WS"), owned("WebStorm")));
    r.push((owned("GO"), owned("GoLand")));
    r.push((owned("CL"), owned("CLion")));
    r.push((owned("DG"), owned("DataGrip")));
    r.push((owned("PS"), owned("PhpStorm")));
    r.push((owned("RM"), owned("RubyMine")));
    r.push((owned("RR"), owned("RustRover")));
    r.push((owned("RD"), owned("Rider")));
    r
}

/// The display name of a product code, from the first entry with that code.
pub open spec fn name_of_code(ps: Seq<(Seq<char>, Seq<char>)>, code: Seq<char>) -> Option<Seq<char>>
    decreases ps.len(),
{
    if ps.len() == 0 {
        None
    } else if ps[0].0 == code {
        Some(ps[0].1)
    } else {
        name_of_code(ps.drop_first(), code)
    }
}

/// The display name of a product code; an unknown code is refused.
pub fn product_name_for(code: &str) -> (r: Result<String, String>)
    ensures
        match name_of_code(products(), code@) {
            Some(n) => r matches Ok(x) && x@ == n,
            None => r matches Err(e) && e@ == "未知产品代号: "@ + code@,
        },
{
    let ps = jetbrains_products();
    let ghost all = products();
    let mut i: usize = 0;
    assert(all.skip(0) =~= all);
    while i < ps.len()
        invariant
            i <= ps@.len(),
            ps@.len() == all.len(),
            all == products(),
            forall|k: int| 0 <= k < ps@.len() ==> (#[trigger] ps@[k]).0@ == all[k].0 && ps@[k].1@ == all[k].1,
            name_of_code(all, code@) == name_of_code(all.skip(i as int), code@),
        decreases ps.len() - i,
    {
        assert(all.skip(i as int).drop_first() =~= all.skip(i + 1));
        if str_eq(ps[i].0.as_str(), code) {
            return Ok(ps[i].1.clone());
        }
        i += 1;
    }
    assert(all.skip(i as int) =~= Seq::<(Seq<char>, Seq<char>)>::empty());
    let mut m: Vec<char> = Vec::new();
    push_str(&mut m, "未知产品代号: ");
    push_str(&mut m, code);
    Err(from_chars(&m))
}

/// The release-API URL of a product: every release, or only the latest.
pub open spec fn releases_url_of(code: Seq<char>, latest_only: bool) -> Seq<char> {
    "https://data.services.jetbrains.com/products/releases?code="@ + code + "&type=release"@ + (if latest_only {
        "&latest=true"@
    } else {
        seq![]
    })
}

/// The release-API URL of a product (see [`releases_url_of`]).
pub fn releases_api_url(code: &str, latest_only: bool) -> (r: String)
    ensures
        r@ == releases_url_of(code@, latest_only),
{
    let mut s: Vec<char> = Vec::new();
    push_str(&mut s, "https://data.services.jetbrains.com/products/releases?code=");
    push_str(&mut s, code);
    push_str(&mut s, "&type=release");
    if latest_only {
        push_str(&mut s, "&latest=true");
    }
    let r = from_chars(&s);
    assert(r@ =~= releases_url_of(code@, latest_only));
    r
}

/// The fields of a package option: type, display name, link, size, checksum link.
pub type PackageView = (Seq<char>, Seq<char>, Seq<char>, u64, Seq<char>);

pub open spec fn package_view(p: JetBrainsPackageOption) -> PackageView {
    (p.package_type@, p.display_name@, p.download_link@, p.size, p.checksum_link@)
}

pub open spec fn package_views(ps: Seq<JetBrainsPackageOption>) -> Seq<PackageView> {
    Seq::new(ps.len(), |i: int| package_view(ps[i]))
}

/// The option for one download, when it is offered with a link.
pub open spec fn option_for(d: Option<JetBrainsDownload>, kind: Seq<char>, label: Seq<char>) -> Seq<PackageView> {
    match d {
        Some(x) => if x.link@.len() > 0 {
            seq![(kind, label, x.link@, x.size, x.checksum_link@)]
        } else {
            seq![]
        },
        None => seq![],
    }
}

/// The package options of a release: installer, portable zip, ARM64 installer,
/// each when it has a link.
pub open spec fn packages_of(d: JetBrainsDownloads) -> Seq<PackageView> {
    option_for(d.windows, "windows"@, "Windows x64 (安装程序)"@) + option_for(
        d.windows_zip,
        "windowsZip"@,
        "Windows x64 (便携 zip)"@,
    ) + option_for(d.windows_arm64, "windowsARM64"@, "Windows ARM64 (安装程序)"@)
}

fn push_option(out: &mut Vec<JetBrainsPackageOption>, d: &Option<JetBrainsDownload>, kind: &str, label: &str)
    ensures
        package_views(final(out)@) == package_views(old(out)@) + option_for(*d, kind@, label@),
{
    let ghost before = package_views(out@);
    match d {
        Some(x) => {
            if !x.link.as_str().is_empty() {
                out.push(
                    JetBrainsPackageOption {
                        package_type: owned(kind),
                        display_name: owned(label),
                        download_link: x.link.clone(),
                        size: x.size,
                        checksum_link: x.checksum_link.clone(),
                    },
                );
            }
        },
        None => {},
    }
    assert(package_views(out@) =~= before + option_for(*d, kind@, label@));
}

/// The package options of a release (see [`packages_of`]).
pub fn collect_packages(downloads: &JetBrainsDownloads) -> (r: Vec<JetBrainsPackageOption>)
    ensures
        package_views(r@) == packages_of(*downloads),
{
    let mut out: Vec<JetBrainsPackageOption> = Vec::new();
    assert(package_views(out@) =~= Seq::<PackageView>::empty());
    push_option(&mut out, &downloads.windows, "windows", "Windows x64 (安装程序)");
    push_option(&mut out, &downloads.windows_zip, "windowsZip", "Windows x64 (便携 zip)");
    push_option(&mut out, &downloads.windows_arm64, "windowsARM64", "Windows ARM64 (安装程序)");
    assert(package_views(out@) =~= packages_of(*downloads));
    out
}

/// The download of a package type, or why there is none.
pub open spec fn download_for(d: JetBrainsDownloads, package_type: Seq<char>) -> Option<JetBrainsDownload> {
    if package_type == "windows"@ {
        d.windows
    } else if package_type == "windowsZip"@ {
        d.windows_zip
    } else if package_type == "windowsARM64"@ {
        d.windows_arm64
    } else {
        None
    }
}

fn copy_download(d: &JetBrainsDownload) -> (r: JetBrainsDownload)
    ensures
        r.link@ == d.link@ && r.size == d.size && r.checksum_link@ == d.checksum_link@,
{
    JetBrainsDownload { link: d.link.clone(), size: d.size, checksum_link: d.checksum_link.clone() }
}

/// The download of a package type of a release; a type the release does not
/// offer is refused.
pub fn get_package_download(downloads: &JetBrainsDownloads, package_type: &str) -> (r: Result<JetBrainsDownload, String>)
    ensures
        match download_for(*downloads, package_type@) {
            Some(d) => r matches Ok(x) && x.link@ == d.link@ && x.size == d.size && x.checksum_link@ == d.checksum_link@,
            None => r matches Err(e) && e@ == "未提供 "@ + package_type@ + " 包类型"@,
        },
{
    let d = if str_eq(package_type, "windows") {
        &downloads.windows
    } else if str_eq(package_type, "windowsZip") {
        &downloads.windows_zip
    } else if str_eq(package_type, "windowsARM64") {
        &downloads.windows_arm64
    } else {
        let mut m: Vec<char> = Vec::new();
        push_str(&mut m, "未提供 ");
        push_str(&mut m, package_type);
        push_str(&mut m, " 包类型");
        return Err(from_chars(&m));
    };
    match d {
        Some(x) => Ok(copy_download(x)),
        None => {
            let mut m: Vec<char> = Vec::new();
            push_str(&mut m, "未提供 ");
            push_str(&mut m, package_type);
            push_str(&mut m, " 包类型");
            Err(from_chars(&m))
        },
    }
}

/// The file name of a download link: the text after the last `/` or `\`, or
/// `jetbrains-installer.exe` when that is empty.
pub open spec fn filename_of_link(link: Seq<char>) -> Seq<char> {
    let t = after_last_sep(link);
    if t.len() == 0 { "jetbrains-installer.exe"@ } else { t }
}

/// The file name a download is saved under (see [`filename_of_link`]).
pub fn extract_filename(link: &str) -> (r: String)
    ensures
        r@ == filename_of_link(link@),
{
    let v = to_chars(link);
    let t = after_last_sep_chars(&v);
    if t.len() == 0 {
        owned("jetbrains-installer.exe")
    } else {
        from_chars(&t)
    }
}

/// The overview entry of a product: its newest release's installer, when it has a link.
pub fn overview_entry(code: &str, name: &str, release: &JetBrainsRelease) -> (r: Option<JetBrainsVersionInfo>)
    ensures
        match release.downloads.windows {
            Some(d) => if d.link@.len() > 0 {
                r matches Some(v) && v.product_code@ == code@ && v.product_name@ == name@ && v.version@
                    == release.version@ && v.date@ == release.date@ && v.download_link@ == d.link@ && v.size
                    == d.size && v.checksum_link@ == d.checksum_link@
            } else {
                r is None
            },
            None => r is None,
        },
{
    match &release.downloads.windows {
        Some(d) => {
            if d.link.as_str().is_empty() {
                None
            } else {
                Some(
                    JetBrainsVersionInfo {
                        product_code: owned(code),
                        product_name: owned(name),
                        version: release.version.clone(),
                        date: release.date.clone(),
                        download_link: d.link.clone(),
                        size: d.size,
                        checksum_link: d.checksum_link.clone(),
                    },
                )
            }
        },
        None => None,
    }
}

/// Sorted by product name, ascending.
pub open spec fn by_product_name(vs: Seq<JetBrainsVersionInfo>) -> bool {
    forall|i: int, j: int| 0 <= i < j < vs.len() ==> text_order(vs[i].product_name@, vs[j].product_name@) <= 0
}

/// The fields of an overview entry.
pub type InfoView = (Seq<char>, Seq<char>, Seq<char>, Seq<char>, Seq<char>, u64, Seq<char>);

pub open spec fn info_view(v: JetBrainsVersionInfo) -> InfoView {
    (v.product_code@, v.product_name@, v.version@, v.date@, v.download_link@, v.size, v.checksum_link@)
}

pub open spec fn info_views(vs: Seq<JetBrainsVersionInfo>) -> Seq<InfoView> {
    Seq::new(vs.len(), |i: int| info_view(vs[i]))
}

/// Entries with the same product name keep their order: the `j`-th of the
/// output is the `from[j]`-th of the input, and equal names come in input order.
pub open spec fn stable_by_product_name(input: Seq<InfoView>, output: Seq<InfoView>, from: Seq<int>) -> bool {
    &&& from.len() == output.len()
    &&& forall|j: int| 0 <= j < output.len() ==> 0 <= #[trigger] from[j] < input.len() && output[j] == input[from[j]]
    &&& forall|j: int, k: int| 0 <= j < k < output.len() && text_order(output[j].1, output[k].1) == 0 ==> #[trigger] from[j]
        < #[trigger] from[k]
}

/// The overview: an error when no product could be listed, otherwise the
/// entries ordered by product name (a stable sort, ascending).
pub fn overview_result(all: Vec<JetBrainsVersionInfo>) -> (r: Result<Vec<JetBrainsVersionInfo>, String>)
    ensures
        all@.len() == 0 ==> (r matches Err(e) && e@ == "所有 JetBrains 产品版本查询均失败（共 "@ + decimal(
            products().len(),
        ) + " 个产品）"@),
        all@.len() > 0 ==> (r matches Ok(vs) && by_product_name(vs@) && info_views(vs@).to_multiset()
            == info_views(all@).to_multiset() && exists|from: Seq<int>| stable_by_product_name(info_views(all@), info_views(vs@), from)),
{
    if all.len() == 0 {
        let mut m: Vec<char> = Vec::new();
        push_str(&mut m, "所有 JetBrains 产品版本查询均失败（共 ");
        let ps = jetbrains_products();
        let d = decimal_chars(ps.len() as u64);
        push_all(&mut m, &d);
        push_str(&mut m, " 个产品）");
        return Err(from_chars(&m));
    }
    Ok(sort_by_product_name(all))
}

fn sort_by_product_name(items: Vec<JetBrainsVersionInfo>) -> (r: Vec<JetBrainsVersionInfo>)
    ensures
        by_product_name(r@),
        info_views(r@).to_multiset() == info_views(items@).to_multiset(),
        exists|from: Seq<int>| stable_by_product_name(info_views(items@), info_views(r@), from),
{
    let ghost input = info_views(items@);
    let mut out: Vec<JetBrainsVersionInfo> = Vec::new();
    let n = items.len();
    let mut taken: usize = 0;
    let ghost mut from: Seq<int> = seq![];
    proof {
        assert(info_views(out@) =~= Seq::<InfoView>::empty());
        assert(input.take(0) =~= Seq::<InfoView>::empty());
    }
    while taken < n
        invariant
            n == input.len(),
            n == items@.len(),
            taken <= n,
            info_views(items@) == input,
            by_product_name(out@),
            info_views(out@).to_multiset() == input.take(taken as int).to_multiset(),
            stable_by_product_name(input.take(taken as int), info_views(out@), from),
        decreases n - taken,
    {
        let s = &items[taken];
        let x = JetBrainsVersionInfo {
            product_code: s.product_code.clone(),
            product_name: s.product_name.clone(),
            version: s.version.clone(),
            date: s.date.clone(),
            download_link: s.download_link.clone(),
            size: s.size,
            checksum_link: s.checksum_link.clone(),
        };
        let ghost xv = info_view(x);
        assert(xv == input[taken as int]);
        let xk = to_chars(x.product_name.as_str());
        let mut pos: usize = 0;
        while pos < out.len() && compare_chars(&to_chars(out[pos].product_name.as_str()), &xk) <= 0
            invariant
                pos <= out@.len(),
                xk@ == x.product_name@,
                forall|k: int| 0 <= k < pos ==> text_order((#[trigger] out@[k]).product_name@, xk@) <= 0,
            decreases out.len() - pos,
        {
            pos += 1;
        }
        let ghost before = out@;
        let ghost bviews = info_views(out@);
        proof {
            if pos < out@.len() {
                assert(text_order(out@[pos as int].product_name@, xk@) > 0);
            }
        }
        out.insert(pos, x);
        proof {
            let after = out@;
            assert(info_views(after) =~= bviews.insert(pos as int, xv));
            assert forall|k: int| pos < k < after.len() implies text_order(xk@, after[k].product_name@) < 0 by {
                assert(after[k] == before[k - 1]);
                lemma_text_order_antisym(before[pos as int].product_name@, xk@);
                lemma_text_order_trans(xk@, before[pos as int].product_name@, before[k - 1].product_name@);
            }
            assert forall|i: int, j: int| 0 <= i < j < after.len() implies text_order(
                after[i].product_name@,
                after[j].product_name@,
            ) <= 0 by {
                if i < pos && j < pos {
                    assert(after[i] == before[i] && after[j] == before[j]);
                } else if i < pos && j == pos {
                    assert(after[i] == before[i]);
                } else if i < pos && j > pos {
                    assert(after[i] == before[i] && after[j] == before[j - 1]);
                } else if i == pos {
                } else {
                    assert(after[i] == before[i - 1] && after[j] == before[j - 1]);
                }
            }
            vstd::seq_lib::to_multiset_insert(bviews, pos as int, xv);
            assert(input.take(taken + 1) =~= input.take(taken as int).push(xv));
            vstd::seq_lib::to_multiset_build(input.take(taken as int), xv);
            let av = info_views(after);
            let nfrom = from.insert(pos as int, taken as int);
            let ninput = input.take(taken + 1);
            assert forall|j: int| 0 <= j < av.len() implies 0 <= #[trigger] nfrom[j] < ninput.len() && av[j]
                == ninput[nfrom[j]] by {
                if j < pos {
                    assert(nfrom[j] == from[j] && av[j] == bviews[j]);
                } else if j > pos {
                    assert(nfrom[j] == from[j - 1] && av[j] == bviews[j - 1]);
                }
            }
            assert forall|j: int, k: int| 0 <= j < k < av.len() && text_order(av[j].1, av[k].1) == 0 implies #[trigger] nfrom[j]
                < #[trigger] nfrom[k] by {
                if j < pos && k < pos {
                    assert(av[j] == bviews[j] && av[k] == bviews[k]);
                } else if j < pos && k == pos {
                    assert(nfrom[j] == from[j]);
                } else if j < pos && k > pos {
                    assert(av[j] == bviews[j] && av[k] == bviews[k - 1]);
                    assert(nfrom[j] == from[j] && nfrom[k] == from[k - 1]);
                } else if j == pos {
                    assert(av[k].1 == after[k].product_name@);
                    assert(text_order(xk@, after[k].product_name@) < 0);
                } else {
                    assert(av[j] == bviews[j - 1] && av[k] == bviews[k - 1]);
                    assert(nfrom[j] == from[j - 1] && nfrom[k] == from[k - 1]);
                }
            }
            from = nfrom;
        }
        taken += 1;
    }
    assert(input.take(n as int) =~= input);
    out
}

/// The releases that offer at least one package, in API order, each as version,
/// date and package options.
pub open spec fn release_details(rs: Seq<JetBrainsRelease>) -> Seq<(Seq<char>, Seq<char>, Seq<PackageView>)>
    decreases rs.len(),
{
    if rs.len() == 0 {
        seq![]
    } else {
        let prev = release_details(rs.drop_last());
        let p = packages_of(rs.last().downloads);
        if p.len() > 0 {
            prev.push((rs.last().version@, rs.last().date@, p))
        } else {
            prev
        }
    }
}

pub open spec fn detail_views(ds: Seq<JetBrainsVersionDetail>) -> Seq<(Seq<char>, Seq<char>, Seq<PackageView>)> {
    Seq::new(ds.len(), |i: int| (ds[i].version@, ds[i].date@, package_views(ds[i].packages@)))
}

/// The releases of a product that offer at least one package (see
/// [`release_details`]); none at all is an error.
pub fn product_versions(product_name: &str, releases: &Vec<JetBrainsRelease>) -> (r: Result<Vec<JetBrainsVersionDetail>, String>)
    ensures
        release_details(releases@).len() == 0 ==> (r matches Err(e) && e@ == product_name@ + " 未找到任何可用版本"@),
        release_details(releases@).len() > 0 ==> (r matches Ok(vs) && detail_views(vs@) == release_details(releases@)),
{
    let mut out: Vec<JetBrainsVersionDetail> = Vec::new();
    let mut i: usize = 0;
    assert(releases@.take(0) =~= Seq::<JetBrainsRelease>::empty());
    assert(detail_views(out@) =~= Seq::<(Seq<char>, Seq<char>, Seq<PackageView>)>::empty());
    while i < releases.len()
        invariant
            i <= releases@.len(),
            detail_views(out@) == release_details(releases@.take(i as int)),
        decreases releases.len() - i,
    {
        assert(releases@.take(i + 1).drop_last() =~= releases@.take(i as int));
        assert(releases@.take(i + 1).last() == releases@[i as int]);
        let packages = collect_packages(&releases[i].downloads);
        let ghost before = detail_views(out@);
        if packages.len() > 0 {
            out.push(
                JetBrainsVersionDetail {
                    version: releases[i].version.clone(),
                    date: releases[i].date.clone(),
                    packages,
                },
            );
            assert(detail_views(out@) =~= before.push(
                (releases@[i as int].version@, releases@[i as int].date@, packages_of(releases@[i as int].downloads)),
            ));
        }
        i += 1;
    }
    assert(releases@.take(releases@.len() as int) =~= releases@);
    if out.len() == 0 {
        let mut m: Vec<char> = Vec::new();
        push_str(&mut m, product_name);
        push_str(&mut m, " 未找到任何可用版本");
        return Err(from_chars(&m));
    }
    Ok(out)
}

/// Checks a download request: no field may be empty; the id of its task is returned.
pub fn download_request_task_id(product_code: &str, version: &str, package_type: &str) -> (r: Result<String, String>)
    ensures
        (product_code@.len() == 0 || version@.len() == 0 || package_type@.len() == 0) ==> (r matches Err(e)
            && e@ == "产品代号、版本号或包类型为空"@),
        !(product_code@.len() == 0 || version@.len() == 0 || package_type@.len() == 0) ==> (r matches Ok(id)
            && id@ == "jetbrains:"@ + product_code@ + "-"@ + version@ + "-"@ + package_type@),
{
    if product_code.is_empty() || version.is_empty() || package_type.is_empty() {
        return Err(owned("产品代号、版本号或包类型为空"));
    }
    let mut m: Vec<char> = Vec::new();
    push_str(&mut m, "jetbrains:");
    push_str(&mut m, product_code);
    push_str(&mut m, "-");
    push_str(&mut m, version);
    push_str(&mut m, "-");
    push_str(&mut m, package_type);
    Ok(from_chars(&m))
}

/// The release with the requested version and the download of the requested
/// package type, or why there is none.
pub fn find_release_download(
    releases: &Vec<JetBrainsRelease>,
    product_code: &str,
    version: &str,
    package_type: &str,
) -> (r: Result<JetBrainsDownload, String>)
    ensures
        (forall|i: int| 0 <= i < releases@.len() ==> (#[trigger] releases@[i]).version@ != version@) ==> (r matches Err(e)
            && e@ == "未在 API 返回中找到 "@ + product_code@ + " 的 "@ + version@ + " 版本"@),
        forall|i: int|
            0 <= i < releases@.len() && (#[trigger] releases@[i]).version@ == version@ && (forall|k: int|
                0 <= k < i ==> (#[trigger] releases@[k]).version@ != version@) ==> match download_for(
                releases@[i].downloads,
                package_type@,
            ) {
                Some(x) => if x.link@.len() > 0 {
                    r matches Ok(d) && d.link@ == x.link@ && d.size == x.size && d.checksum_link@ == x.checksum_link@
                } else {
                    r matches Err(e) && e@ == product_code@ + " 的 "@ + version@ + " 版本下载链接为空"@
                },
                None => r matches Err(e) && e@ == "未提供 "@ + package_type@ + " 包类型"@,
            },
{
    let mut i: usize = 0;
    while i < releases.len()
        invariant
            i <= releases@.len(),
            forall|k: int| 0 <= k < i ==> (#[trigger] releases@[k]).version@ != version@,
        decreases releases.len() - i,
    {
        if str_eq(releases[i].version.as_str(), version) {
            let d = match get_package_download(&releases[i].downloads, package_type) {
                Ok(d) => d,
                Err(e) => {
                    return Err(e);
                },
            };
            if d.link.as_str().is_empty() {
                let mut m: Vec<char> = Vec::new();
                push_str(&mut m, product_code);
                push_str(&mut m, " 的 ");
                push_str(&mut m, version);
                push_str(&mut m, " 版本下载链接为空");
                return Err(from_chars(&m));
            }
            return Ok(d);
        }
        i += 1;
    }
    let mut m: Vec<char> = Vec::new();
    push_str(&mut m, "未在 API 返回中找到 ");
    push_str(&mut m, product_code);
    push_str(&mut m, " 的 ");
    push_str(&mut m, version);
    push_str(&mut m, " 版本");
    Err(from_chars(&m))
}

/// The message of an installer shorter or longer than declared.
pub open spec fn size_mismatch_message(actual: u64, declared: u64) -> Seq<char> {
    "文件大小不完整（实际 "@ + decimal(actual as nat) + " 字节 / 预期 "@ + decimal(declared as nat)
        + " 字节），可能下载中断"@
}

/// The size check of an installer: an error when a size was declared and differs.
pub fn installer_size_error(actual: u64, declared: u64) -> (r: Option<String>)
    ensures
        (declared > 0 && actual != declared) ==> (r matches Some(m) && m@ == size_mismatch_message(actual, declared)),
        !(declared > 0 && actual != declared) ==> r is None,
{
    if declared > 0 && actual != declared {
        let mut m: Vec<char> = Vec::new();
        push_str(&mut m, "文件大小不完整（实际 ");
        let a = decimal_chars(actual);
        push_all(&mut m, &a);
        push_str(&mut m, " 字节 / 预期 ");
        let d = decimal_chars(declared);
        push_all(&mut m, &d);
        push_str(&mut m, " 字节），可能下载中断");
        Some(from_chars(&m))
    } else {
        None
    }
}

/// The digest a checksum file publishes: its first word, trimmed and lower-cased.
pub open spec fn published_digest(body: Seq<char>) -> Seq<char> {
    let ws = words(body);
    unicode_lower(trim(if ws.len() > 0 { ws[0] } else { seq![] }))
}

/// Compares an installer's SHA-256 with the digest a checksum file publishes:
/// a 64-byte digest either matches or not; anything else cannot be read.
pub fn sha256_sidecar_verdict(body: &str, actual_hash: &str) -> (r: ChecksumVerdict)
    ensures
        utf8_len(published_digest(body@)) == 64 && published_digest(body@) == actual_hash@ ==> r
            == ChecksumVerdict::Match,
        utf8_len(published_digest(body@)) == 64 && published_digest(body@) != actual_hash@ ==> r
            == ChecksumVerdict::Mismatch,
        utf8_len(published_digest(body@)) != 64 ==> r == ChecksumVerdict::Unreadable,
{
    let v = to_chars(body);
    let ws = words_of(&v);
    assert(vviews(ws@) == words(body@));
    let first: Vec<char> = if ws.len() > 0 {
        assert(vviews(ws@)[0] == ws@[0]@);
        ws[0].clone()
    } else {
        Vec::new()
    };
    let t = trim_chars(&first);
    let lower = to_lowercase(from_chars(&t).as_str());
    let lv = to_chars(lower.as_str());
    let is64 = utf8_len_lt(&lv, 65) && !utf8_len_lt(&lv, 64);
    if is64 && str_eq(lower.as_str(), actual_hash) {
        ChecksumVerdict::Match
    } else if is64 {
        ChecksumVerdict::Mismatch
    } else {
        ChecksumVerdict::Unreadable
    }
}

} // verus!
