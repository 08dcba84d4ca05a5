//! The PostgreSQL download list: EnterpriseDB installer links per version.
use vstd::prelude::*;
use crate::text::{push_str, from_chars, to_chars, str_eq};
use crate::winpath::{after_last_sep, after_last_sep_chars};
use crate::error::owned;
use crate::types::PostgresqlVersionInfo;

verus! {

/// Base of the EnterpriseDB installer downloads.
pub const POSTGRESQL_INSTALLER_BASE: &'static str = "https://get.enterprisedb.com/postgresql/";

/// The version list shipped with the application: `version-build` strings.
#[derive(Debug, Clone)]
pub struct PostgresVersionCatalog {
    pub versions: Vec<String>,
}

/// The installer link of a `version-build`.
pub open spec fn download_link_of(version_build: Seq<char>) -> Seq<char> {
    POSTGRESQL_INSTALLER_BASE@ + "postgresql-"@ + version_build + "-windows-x64.exe"@
}

/// `<base>postgresql-<version-build>-windows-x64.exe`.
pub fn build_download_link(version_build: &str) -> (r: String)
    ensures
        r@ == download_link_of(version_build@),
{
    let mut s: Vec<char> = Vec::new();
    push_str(&mut s, POSTGRESQL_INSTALLER_BASE);
    push_str(&mut s, "postgresql-");
    push_str(&mut s, version_build);
    push_str(&mut s, "-windows-x64.exe");
    from_chars(&s)
}

/// Every version of the list with its installer link, in order.
pub fn get_available_postgresql_versions(catalog: &PostgresVersionCatalog) -> (r: Result<Vec<PostgresqlVersionInfo>, String>)
    ensures
        r matches Ok(vs) && vs@.len() == catalog.versions@.len() && forall|i: int|
            0 <= i < vs@.len() ==> (#[trigger] vs@[i]).version@ == catalog.versions@[i]@
                && vs@[i].download_link@ == download_link_of(catalog.versions@[i]@) && vs@[i].size
                == 0,
{
    let mut out: Vec<PostgresqlVersionInfo> = Vec::new();
    let mut i: usize = 0;
    while i < catalog.versions.len()
        invariant
            i <= catalog.versions@.len(),
            out@.len() == i,
            forall|k: int|
                0 <= k < i ==> (#[trigger] out@[k]).version@ == catalog.versions@[k]@
                    && out@[k].download_link@ == download_link_of(catalog.versions@[k]@) && out@[k].size
                    == 0,
        decreases catalog.versions.len() - i,
    {
        let v = &catalog.versions[i];
        out.push(
            PostgresqlVersionInfo {
                download_link: build_download_link(v.as_str()),
                version: v.clone(),
                size: 0,
            },
        );
        i += 1;
    }
    Ok(out)
}

/// The file name of a download link: the text after the last `/` or `\`, or
/// `postgresql-installer.exe` when that is empty.
pub open spec fn filename_of_link(link: Seq<char>) -> Seq<char> {
    let t = after_last_sep(link);
    if t.len() == 0 {
        "postgresql-installer.exe"@
    } else {
        t
    }
}

/// The file name a download is saved under (see [`filename_of_link`]).
pub fn extract_filename(link: &str) -> (r: String)
    ensures
        r@ == filename_of_link(link@),
{
    let v = to_chars(link);
    let t = after_last_sep_chars(&v);
    if t.len() == 0 {
        owned("postgresql-installer.exe")
    } else {
        from_chars(&t)
    }
}

/// Checks a requested version against the list: an empty version and one the
/// list does not hold are refused; otherwise the download task id is returned.
pub fn check_download_request(available: &Vec<PostgresqlVersionInfo>, version: &str) -> (r: Result<String, String>)
    ensures
        version@.len() == 0 ==> (r matches Err(e) && e@ == "版本号为空"@),
        version@.len() > 0 && (exists|i: int| 0 <= i < available@.len() && (#[trigger] available@[i]).version@
            == version@) ==> (r matches Ok(id) && id@ == "postgresql:"@ + version@),
        version@.len() > 0 && !(exists|i: int| 0 <= i < available@.len() && (#[trigger] available@[i]).version@
            == version@) ==> (r matches Err(e) && e@ == "未找到 PostgreSQL "@ + version@ + " 版本"@),
{
    if version.is_empty() {
        return Err(owned("版本号为空"));
    }
    let mut i: usize = 0;
    while i < available.len()
        invariant
            i <= available@.len(),
            version@.len() > 0,
            forall|k: int| 0 <= k < i ==> (#[trigger] available@[k]).version@ != version@,
        decreases available.len() - i,
    {
        if str_eq(available[i].version.as_str(), version) {
            let mut s: Vec<char> = Vec::new();
            push_str(&mut s, "postgresql:");
            push_str(&mut s, version);
            return Ok(from_chars(&s));
        }
        i += 1;
    }
    let mut m: Vec<char> = Vec::new();
    push_str(&mut m, "未找到 PostgreSQL ");
    push_str(&mut m, version);
    push_str(&mut m, " 版本");
    Err(from_chars(&m))
}

} // verus!
