//! The MySQL download catalogue: links and package choices for each version,
//! and the checks made on a finished download.
use vstd::prelude::*;
use crate::text::{
    split_char, split_ch, vviews, push_str, push_all, from_chars, to_chars, words, words_of,
    trim, trim_chars, utf8_len, utf8_len_lt, str_eq, eq_str, decimal, decimal_chars,
};
use crate::winpath::{after_last_sep, after_last_sep_chars};
use crate::pattern::{unicode_lower, to_lowercase};
use crate::error::owned;
use crate::types::{MySQLPackageOption, MySQLVersionInfo};

verus! {

/// Base of the archived stand-alone server packages.
pub const SERVER_ARCHIVES_BASE: &'static str = "https://cdn.mysql.com/archives/";

/// Base of the archived installer packages.
pub const INSTALLER_ARCHIVES_BASE: &'static str = "https://cdn.mysql.com/archives/mysql-installer/";

/// Base of the installer packages still on the current download channel.
pub const INSTALLER_DOWNLOADS_BASE: &'static str = "https://cdn.mysql.com/Downloads/MySQLInstaller/";

/// One group of versions in the catalogue.
#[derive(Debug, Clone)]
pub struct CategoryEntry {
    pub name: String,
    /// `server` for stand-alone packages; anything else means the installer.
    pub mode: String,
    pub versions: Vec<String>,
}

/// The version catalogue shipped with the application.
#[derive(Debug, Clone)]
pub struct MysqlVersionCatalog {
    pub categories: Vec<CategoryEntry>,
    /// Installer versions served from the current download channel.
    pub downloads_channel: Vec<String>,
    /// Installer versions that have no web (online) installer.
    pub offline_only: Vec<String>,
}

/// `major.minor`: the first two `.`-separated pieces, or the whole version.
pub open spec fn major_minor_of(version: Seq<char>) -> Seq<char> {
    let ps = split_char(version, '.');
    if ps.len() >= 2 {
        ps[0] + "."@ + ps[1]
    } else {
        version
    }
}

/// The `major.minor` directory segment of a version (see [`major_minor_of`]).
pub fn major_minor(version: &str) -> (r: String)
    ensures
        r@ == major_minor_of(version@),
{
    let v = to_chars(version);
    let ps = split_ch(&v, '.');
    assert(vviews(ps@) == split_char(version@, '.'));
    if ps.len() >= 2 {
        assert(vviews(ps@)[0] == ps@[0]@);
        assert(vviews(ps@)[1] == ps@[1]@);
        let mut s: Vec<char> = Vec::new();
        push_all(&mut s, &ps[0]);
        push_str(&mut s, ".");
        push_all(&mut s, &ps[1]);
        let r = from_chars(&s);
        assert(r@ =~= major_minor_of(version@));
        r
    } else {
        owned(version)
    }
}

/// The link of a stand-alone server package.
pub open spec fn server_link_of(version: Seq<char>, ext: Seq<char>) -> Seq<char> {
    SERVER_ARCHIVES_BASE@ + "mysql-"@ + major_minor_of(version) + "/mysql-"@ + version + "-winx64."@ + ext
}

/// `archives/mysql-<major.minor>/mysql-<version>-winx64.<ext>`.
pub fn server_link(version: &str, ext: &str) -> (r: String)
    ensures
        r@ == server_link_of(version@, ext@),
{
    let mm = major_minor(version);
    let mut s: Vec<char> = Vec::new();
    push_str(&mut s, SERVER_ARCHIVES_BASE);
    push_str(&mut s, "mysql-");
    push_str(&mut s, mm.as_str());
    push_str(&mut s, "/mysql-");
    push_str(&mut s, version);
    push_str(&mut s, "-winx64.");
    push_str(&mut s, ext);
    let r = from_chars(&s);
    assert(r@ =~= server_link_of(version@, ext@));
    r
}

/// The link of an installer package: the web installer for `online`, the full
/// one otherwise, from the current channel or from the archives.
pub open spec fn installer_link_of(version: Seq<char>, kind: Seq<char>, use_downloads: bool) -> Seq<char> {
    let base = if use_downloads { INSTALLER_DOWNLOADS_BASE@ } else { INSTALLER_ARCHIVES_BASE@ };
    let prefix = if kind == "online"@ {
        "mysql-installer-web-community"@
    } else {
        "mysql-installer-community"@
    };
    base + prefix + "-"@ + version + ".0.msi"@
}

/// `<base>mysql-installer-[web-]community-<version>.0.msi`.
pub fn installer_link(version: &str, kind: &str, use_downloads: bool) -> (r: String)
    ensures
        r@ == installer_link_of(version@, kind@, use_downloads),
{
    let mut s: Vec<char> = Vec::new();
    if use_downloads {
        push_str(&mut s, INSTALLER_DOWNLOADS_BASE);
    } else {
        push_str(&mut s, INSTALLER_ARCHIVES_BASE);
    }
    if str_eq(kind, "online") {
        push_str(&mut s, "mysql-installer-web-community");
    } else {
        push_str(&mut s, "mysql-installer-community");
    }
    push_str(&mut s, "-");
    push_str(&mut s, version);
    push_str(&mut s, ".0.msi");
    let r = from_chars(&s);
    assert(r@ =~= installer_link_of(version@, kind@, use_downloads));
    r
}

/// The fields of a package option: type, display name, link, size.
pub open spec fn package_view(p: MySQLPackageOption) -> (Seq<char>, Seq<char>, Seq<char>, u64) {
    (p.package_type@, p.display_name@, p.download_link@, p.size)
}

/// The views of a list of package options.
pub open spec fn package_views(ps: Seq<MySQLPackageOption>) -> Seq<(Seq<char>, Seq<char>, Seq<char>, u64)> {
    Seq::new(ps.len(), |i: int| package_view(ps[i]))
}

/// A stand-alone server comes as an MSI and a ZIP.
pub open spec fn server_packages_of(version: Seq<char>) -> Seq<(Seq<char>, Seq<char>, Seq<char>, u64)> {
    seq![
        ("msi"@, "安装包 (MSI)"@, server_link_of(version, "msi"@), 0u64),
        ("zip"@, "压缩包 (ZIP)"@, server_link_of(version, "zip"@), 0u64),
    ]
}

/// The packages of a stand-alone server version (see [`server_packages_of`]).
pub fn server_packages(version: &str) -> (r: Vec<MySQLPackageOption>)
    ensures
        package_views(r@) == server_packages_of(version@),
{
    let mut r: Vec<MySQLPackageOption> = Vec::new();
    r.push(
        MySQLPackageOption {
            package_type: owned("msi"),
            display_name: owned("安装包 (MSI)"),
            download_link: server_link(version, "msi"),
            size: 0,
        },
    );
    r.push(
        MySQLPackageOption {
            package_type: owned("zip"),
            display_name: owned("压缩包 (ZIP)"),
            download_link: server_link(version, "zip"),
            size: 0,
        },
    );
    assert(package_views(r@) =~= server_packages_of(version@));
    r
}

/// An installer version comes as the full installer and, unless it is
/// offline-only, the web installer.
pub open spec fn installer_packages_of(version: Seq<char>, use_downloads: bool, offline_only: bool) -> Seq<
    (Seq<char>, Seq<char>, Seq<char>, u64),
> {
    let off = ("offline"@, "离线版"@, installer_link_of(version, "offline"@, use_downloads), 0u64);
    if offline_only {
        seq![off]
    } else {
        seq![off, ("online"@, "在线版"@, installer_link_of(version, "online"@, use_downloads), 0u64)]
    }
}

/// The packages of an installer version (see [`installer_packages_of`]).
pub fn installer_packages(version: &str, use_downloads: bool, offline_only: bool) -> (r: Vec<MySQLPackageOption>)
    ensures
        package_views(r@) == installer_packages_of(version@, use_downloads, offline_only),
{
    let mut r: Vec<MySQLPackageOption> = Vec::new();
    r.push(
        MySQLPackageOption {
            package_type: owned("offline"),
            display_name: owned("离线版"),
            download_link: installer_link(version, "offline", use_downloads),
            size: 0,
        },
    );
    if !offline_only {
        r.push(
            MySQLPackageOption {
                package_type: owned("online"),
                display_name: owned("在线版"),
                download_link: installer_link(version, "online", use_downloads),
                size: 0,
            },
        );
    }
    assert(package_views(r@) =~= installer_packages_of(version@, use_downloads, offline_only));
    r
}

/// The view of a catalogue entry: mode, category, version, packages.
pub type VersionView = (Seq<char>, Seq<char>, Seq<char>, Seq<(Seq<char>, Seq<char>, Seq<char>, u64)>);

pub open spec fn version_view(v: MySQLVersionInfo) -> VersionView {
    (v.mode@, v.category@, v.version@, package_views(v.packages@))
}

pub open spec fn version_views(vs: Seq<MySQLVersionInfo>) -> Seq<VersionView> {
    Seq::new(vs.len(), |i: int| version_view(vs[i]))
}

/// The entry a catalogue gives one version of a category.
pub open spec fn version_entry(mode: Seq<char>, category: Seq<char>, version: Seq<char>, dl: Seq<Seq<char>>, off: Seq<Seq<char>>) -> VersionView {
    let m = if mode == "server"@ { "server"@ } else { "installer"@ };
    let packages = if m == "server"@ {
        server_packages_of(version)
    } else {
        installer_packages_of(version, dl.contains(version), off.contains(version))
    };
    (m, category, version, packages)
}

/// The entries of one category's versions, in order.
pub open spec fn category_entries(c: CategoryEntry, dl: Seq<Seq<char>>, off: Seq<Seq<char>>) -> Seq<VersionView> {
    Seq::new(c.versions@.len(), |j: int| version_entry(c.mode@, c.name@, c.versions@[j]@, dl, off))
}

/// All entries of the catalogue: category by category, version by version.
pub open spec fn catalog_entries(cs: Seq<CategoryEntry>, dl: Seq<Seq<char>>, off: Seq<Seq<char>>) -> Seq<VersionView>
    decreases cs.len(),
{
    if cs.len() == 0 {
        seq![]
    } else {
        catalog_entries(cs.drop_last(), dl, off) + category_entries(cs.last(), dl, off)
    }
}

fn listed(xs: &Vec<String>, s: &str) -> (r: bool)
    ensures
        r == xs.deep_view().contains(s@),
{
    let mut i: usize = 0;
    while i < xs.len()
        invariant
            i <= xs@.len(),
            forall|k: int| 0 <= k < i ==> (#[trigger] xs@[k])@ != s@,
        decreases xs.len() - i,
    {
        if str_eq(xs[i].as_str(), s) {
            assert(xs.deep_view()[i as int] == s@);
            return true;
        }
        i += 1;
    }
    assert forall|k: int| 0 <= k < xs.deep_view().len() implies xs.deep_view()[k] != s@ by {
        assert(xs.deep_view()[k] == xs@[k]@);
    }
    false
}

/// Every version of the catalogue with its packages: stand-alone servers come
/// as MSI and ZIP; installer versions as the full installer and, unless
/// offline-only, the web installer, linked from the current channel when listed
/// there.
pub fn get_available_mysql_versions(catalog: &MysqlVersionCatalog) -> (r: Result<Vec<MySQLVersionInfo>, String>)
    ensures
        r matches Ok(vs) && version_views(vs@) == catalog_entries(
            catalog.categories@,
            catalog.downloads_channel.deep_view(),
            catalog.offline_only.deep_view(),
        ),
{
    let ghost dl = catalog.downloads_channel.deep_view();
    let ghost off = catalog.offline_only.deep_view();
    let ghost cs = catalog.categories@;
    let mut result: Vec<MySQLVersionInfo> = Vec::new();
    let mut c: usize = 0;
    assert(cs.take(0) =~= Seq::<CategoryEntry>::empty());
    assert(version_views(result@) =~= Seq::<VersionView>::empty());
    while c < catalog.categories.len()
        invariant
            c <= cs.len(),
            cs == catalog.categories@,
            dl == catalog.downloads_channel.deep_view(),
            off == catalog.offline_only.deep_view(),
            version_views(result@) == catalog_entries(cs.take(c as int), dl, off),
        decreases cs.len() - c,
    {
        assert(cs.take(c + 1).drop_last() =~= cs.take(c as int));
        assert(cs.take(c + 1).last() == cs[c as int]);
        let cat = &catalog.categories[c];
        let server = str_eq(cat.mode.as_str(), "server");
        let ghost head = version_views(result@);
        let mut j: usize = 0;
        let ghost ce = category_entries(*cat, dl, off);
        assert(ce.take(0) =~= Seq::<VersionView>::empty());
        assert(head + ce.take(0) =~= head);
        while j < cat.versions.len()
            invariant
                j <= cat.versions@.len(),
                cs == catalog.categories@,
                dl == catalog.downloads_channel.deep_view(),
                off == catalog.offline_only.deep_view(),
                *cat == cs[c as int],
                c < cs.len(),
                server == (cat.mode@ == "server"@),
                ce == category_entries(*cat, dl, off),
                version_views(result@) == head + ce.take(j as int),
            decreases cat.versions.len() - j,
        {
            let version = &cat.versions[j];
            let use_dl = listed(&catalog.downloads_channel, version.as_str());
            let offline_only = listed(&catalog.offline_only, version.as_str());
            let packages = if server {
                server_packages(version.as_str())
            } else {
                installer_packages(version.as_str(), use_dl, offline_only)
            };
            let mode = if server { owned("server") } else { owned("installer") };
            let ghost before = version_views(result@);
            result.push(MySQLVersionInfo { mode, category: cat.name.clone(), version: version.clone(), packages });
            proof {
                reveal_strlit("server");
                reveal_strlit("installer");
                assert("installer"@.len() != "server"@.len());
                assert(ce[j as int] == version_entry(cat.mode@, cat.name@, cat.versions@[j as int]@, dl, off));
                assert(ce.take(j + 1) =~= ce.take(j as int).push(ce[j as int]));
                assert(version_views(result@) =~= before.push(version_view(result@.last())));
            }
            j += 1;
        }
        assert(ce.take(cat.versions@.len() as int) =~= ce);
        c += 1;
    }
    assert(cs.take(cs.len() as int) =~= cs);
    Ok(result)
}

/// The file name of a download link: the text after the last `/` or `\`, or
/// `mysql.msi` when that is empty.
pub open spec fn filename_of_link(link: Seq<char>) -> Seq<char> {
    let t = after_last_sep(link);
    if t.len() == 0 {
        "mysql.msi"@
    } else {
        t
    }
}

/// The file name a download is saved under (see [`filename_of_link`]).
pub fn extract_filename(link: &str) -> (r: String)
    ensures
        r@ == filename_of_link(link@),
{
    let v = to_chars(link);
    let t = after_last_sep_chars(&v);
    if t.len() == 0 {
        owned("mysql.msi")
    } else {
        from_chars(&t)
    }
}

/// The link of the package `package_type` of the first entry for `version`.
pub open spec fn package_link_in(vs: Seq<VersionView>, version: Seq<char>, package_type: Seq<char>) -> Option<Seq<char>>
    decreases vs.len(),
{
    if vs.len() == 0 {
        None
    } else if vs[0].2 == version {
        package_link_of(vs[0].3, package_type)
    } else {
        package_link_in(vs.drop_first(), version, package_type)
    }
}

/// The link of the first package of type `package_type`.
pub open spec fn package_link_of(ps: Seq<(Seq<char>, Seq<char>, Seq<char>, u64)>, package_type: Seq<char>) -> Option<Seq<char>>
    decreases ps.len(),
{
    if ps.len() == 0 {
        None
    } else if ps[0].0 == package_type {
        Some(ps[0].2)
    } else {
        package_link_of(ps.drop_first(), package_type)
    }
}

/// The message when the catalogue has no such package.
pub open spec fn no_package_message(version: Seq<char>, package_type: Seq<char>) -> Seq<char> {
    "未找到 MySQL "@ + version + " ("@ + package_type + ")"@
}

/// The download link of `package_type` for `version`: empty arguments are
/// refused, and so is a package the catalogue does not list (only the first
/// entry for the version is searched).
pub fn package_download_link(available: &Vec<MySQLVersionInfo>, version: &str, package_type: &str) -> (r: Result<String, String>)
    ensures
        (version@.len() == 0 || package_type@.len() == 0) ==> (r matches Err(e) && e@
            == "版本号或包类型为空"@),
        (version@.len() > 0 && package_type@.len() > 0) ==> match package_link_in(
            version_views(available@),
            version@,
            package_type@,
        ) {
            Some(l) => r matches Ok(x) && x@ == l,
            None => r matches Err(e) && e@ == no_package_message(version@, package_type@),
        },
{
    if version.is_empty() || package_type.is_empty() {
        return Err(owned("版本号或包类型为空"));
    }
    let ghost all = version_views(available@);
    let mut i: usize = 0;
    assert(all.skip(0) =~= all);
    while i < available.len()
        invariant
            i <= available@.len(),
            all == version_views(available@),
            version@.len() > 0,
            package_type@.len() > 0,
            package_link_in(all, version@, package_type@) == package_link_in(all.skip(i as int), version@, package_type@),
        decreases available.len() - i,
    {
        assert(all.skip(i as int)[0] == version_view(available@[i as int]));
        assert(all.skip(i as int).drop_first() =~= all.skip(i + 1));
        if str_eq(available[i].version.as_str(), version) {
            let ps = &available[i].packages;
            let ghost pv = package_views(ps@);
            assert(package_link_in(all, version@, package_type@) == package_link_of(pv, package_type@));
            let mut j: usize = 0;
            assert(pv.skip(0) =~= pv);
            while j < ps.len()
                invariant
                    j <= ps@.len(),
                    pv == package_views(ps@),
                    all == version_views(available@),
                    version@.len() > 0,
                    package_type@.len() > 0,
                    package_link_in(all, version@, package_type@) == package_link_of(pv, package_type@),
                    package_link_of(pv, package_type@) == package_link_of(pv.skip(j as int), package_type@),
                decreases ps.len() - j,
            {
                assert(pv.skip(j as int)[0] == package_view(ps@[j as int]));
                assert(pv.skip(j as int).drop_first() =~= pv.skip(j + 1));
                if str_eq(ps[j].package_type.as_str(), package_type) {
                    assert(package_link_of(pv.skip(j as int), package_type@) == Some(ps@[j as int].download_link@));
                    let link = ps[j].download_link.clone();
                    assert(link@ == ps@[j as int].download_link@);
                    assert(package_link_in(version_views(available@), version@, package_type@) == Some(link@));
                    return Ok(link);
                }
                j += 1;
            }
            assert(pv.skip(ps.len() as int) =~= Seq::<(Seq<char>, Seq<char>, Seq<char>, u64)>::empty());
            return Err(no_package(version, package_type));
        }
        i += 1;
    }
    assert(all.skip(i as int) =~= Seq::<VersionView>::empty());
    Err(no_package(version, package_type))
}

fn no_package(version: &str, package_type: &str) -> (r: String)
    ensures
        r@ == no_package_message(version@, package_type@),
{
    let mut m: Vec<char> = Vec::new();
    push_str(&mut m, "未找到 MySQL ");
    push_str(&mut m, version);
    push_str(&mut m, " (");
    push_str(&mut m, package_type);
    push_str(&mut m, ")");
    from_chars(&m)
}

/// The id of a MySQL download task.
pub fn download_task_id(version: &str, package_type: &str) -> (r: String)
    ensures
        r@ == "mysql:"@ + version@ + "-"@ + package_type@,
{
    let mut m: Vec<char> = Vec::new();
    push_str(&mut m, "mysql:");
    push_str(&mut m, version);
    push_str(&mut m, "-");
    push_str(&mut m, package_type);
    from_chars(&m)
}

/// What the published `.md5` file says about a download.
#[derive(Debug, Clone, Copy, PartialEq, Eq)]
pub enum ChecksumVerdict {
    /// The published digest equals the file's.
    Match,
    /// The published digest differs: the file is deleted and the download fails.
    Mismatch,
    /// The published file holds no 32-character digest: the download stands.
    Unreadable,
}

/// The digest a `.md5` file publishes: its first word, trimmed and lower-cased.
pub open spec fn published_digest(body: Seq<char>) -> Seq<char> {
    let ws = words(body);
    unicode_lower(trim(if ws.len() > 0 { ws[0] } else { seq![] }))
}

/// Compares a file's MD5 with the digest a `.md5` file publishes: a 32-byte
/// digest either matches or not; anything else cannot be read.
pub fn md5_sidecar_verdict(body: &str, actual_md5: &str) -> (r: ChecksumVerdict)
    ensures
        utf8_len(published_digest(body@)) == 32 && published_digest(body@) == actual_md5@ ==> r
            == ChecksumVerdict::Match,
        utf8_len(published_digest(body@)) == 32 && published_digest(body@) != actual_md5@ ==> r
            == ChecksumVerdict::Mismatch,
        utf8_len(published_digest(body@)) != 32 ==> r == ChecksumVerdict::Unreadable,
{
    let v = to_chars(body);
    let ws = words_of(&v);
    assert(vviews(ws@) == words(body@));
    let first: Vec<char> = if ws.len() > 0 {
        assert(vviews(ws@)[0] == ws@[0]@);
        ws[0].clone()
    } else {
        Vec::new()
    };
    let t = trim_chars(&first);
    let lower = to_lowercase(from_chars(&t).as_str());
    let lv = to_chars(lower.as_str());
    let is32 = utf8_len_lt(&lv, 33) && !utf8_len_lt(&lv, 32);
    if is32 && str_eq(lower.as_str(), actual_md5) {
        ChecksumVerdict::Match
    } else if is32 {
        ChecksumVerdict::Mismatch
    } else {
        ChecksumVerdict::Unreadable
    }
}

} // verus!
