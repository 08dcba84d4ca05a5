//! What a MySQL residue clean-up targets for one instance: folder names, the
//! installation and data directories, registry keys, and the paths it must
//! never touch.
use vstd::prelude::*;
use crate::text::{lemma_utf8_len_first, 
    starts_with, starts_with_str, split_char, split_ch, vviews, push_str, push_all, from_chars,
    to_chars, slice, utf8_len, utf8_len_lt, chars_eq, eq_str,
};
use crate::winpath::{file_name, win_parent, file_name_of, parent_of, lemma_parent_shorter};
use crate::pattern::{unicode_lower, to_lowercase};
use crate::error::owned;
use crate::types::{MySQLInstance, CleanOptions, ScannedPath};

verus! {

/// What the clean-up of one instance leaves alone, as shown to the user.
pub const EXCLUDED_NOTE: &'static str = "仅清理所选实例相关残留；不清理 XAMPP/WAMP/AppServ、其他版本实例及自定义 datadir";

/// The places a clean-up of one instance looks at.
#[derive(Debug, Clone)]
pub struct InstanceTargets {
    pub server_folder_name: String,
    pub version_pattern: String,
    pub install_dir: Option<String>,
    pub program_data_dir: Option<String>,
    pub service_name: Option<String>,
}

/// The path lies under an integrated environment (XAMPP, WAMP, AppServ), compared
/// after Unicode lower-casing.
pub open spec fn excluded(path: Seq<char>) -> bool {
    let l = unicode_lower(path);
    ||| starts_with(l, unicode_lower("C:\\xampp"@))
    ||| starts_with(l, unicode_lower("C:\\wamp"@))
    ||| starts_with(l, unicode_lower("C:\\wamp64"@))
    ||| starts_with(l, unicode_lower("C:\\appserv"@))
}

fn lower_starts_with(lower: &Vec<char>, prefix: &str) -> (r: bool)
    ensures
        r == starts_with(lower@, unicode_lower(prefix@)),
{
    let p = to_lowercase(prefix);
    let pv = to_chars(p.as_str());
    crate::text::starts_with_chars(lower, &pv)
}

/// Whether a path lies under XAMPP, WAMP or AppServ, which a clean-up never touches.
pub fn is_excluded_path(path: &str) -> (r: bool)
    ensures
        r == excluded(path@),
{
    let l = to_lowercase(path);
    let lv = to_chars(l.as_str());
    lower_starts_with(&lv, "C:\\xampp") || lower_starts_with(&lv, "C:\\wamp") || lower_starts_with(
        &lv,
        "C:\\wamp64",
    ) || lower_starts_with(&lv, "C:\\appserv")
}

/// `major.minor` of a version: the first two `.`-separated pieces, or the whole
/// version when it has no `.`.
pub open spec fn version_pattern(version: Seq<char>) -> Seq<char> {
    let ps = split_char(version, '.');
    if ps.len() >= 2 {
        ps[0] + "."@ + ps[1]
    } else {
        version
    }
}

/// The `major.minor` pattern of a version (see [`version_pattern`]).
pub fn derive_version_pattern(version: &str) -> (r: String)
    ensures
        r@ == version_pattern(version@),
{
    let v = to_chars(version);
    let ps = split_ch(&v, '.');
    assert(vviews(ps@) == split_char(version@, '.'));
    if ps.len() >= 2 {
        assert(vviews(ps@)[0] == ps@[0]@);
        assert(vviews(ps@)[1] == ps@[1]@);
        let mut s: Vec<char> = Vec::new();
        push_all(&mut s, &ps[0]);
        s.push('.');
        push_all(&mut s, &ps[1]);
        let r = from_chars(&s);
        proof {
            reveal_strlit(".");
        }
        assert(r@ =~= version_pattern(version@));
        r
    } else {
        owned(version)
    }
}

/// A folder that names a server installation.
pub open spec fn is_server_folder(n: Seq<char>) -> bool {
    starts_with(n, "MySQL Server"@) || starts_with(n, "MariaDB"@)
}

/// The nearest folder, from the path up through its ancestors, that names a
/// server installation.
pub open spec fn folder_in_path(p: Seq<char>) -> Option<Seq<char>>
    decreases p.len(),
{
    if file_name(p) is Some && is_server_folder(file_name(p)->0) {
        file_name(p)
    } else {
        match win_parent(p) {
            Some(pp) => if pp.len() < p.len() {
                folder_in_path(pp)
            } else {
                None
            },
            None => None,
        }
    }
}

fn folder_from_path(path: &Vec<char>) -> (r: Option<Vec<char>>)
    ensures
        match r {
            Some(n) => folder_in_path(path@) == Some(n@),
            None => folder_in_path(path@) is None,
        },
{
    let mut cur = path.clone();
    loop
        invariant
            folder_in_path(path@) == folder_in_path(cur@),
        decreases cur.len(),
    {
        match file_name_of(&cur) {
            Some(n) => {
                if starts_with_str(&n, "MySQL Server") || starts_with_str(&n, "MariaDB") {
                    return Some(n);
                }
            },
            None => {},
        }
        proof {
            lemma_parent_shorter(cur@);
        }
        match parent_of(&cur) {
            Some(pp) => {
                cur = pp;
            },
            None => {
                return None;
            },
        }
    }
}

/// The service-name rule applies: `MySQL` followed by at least two more bytes.
pub open spec fn service_rule_applies(svc: Seq<char>) -> bool {
    starts_with(svc, "MySQL"@) && utf8_len(svc) > 5 && utf8_len(svc.skip(5)) >= 2
}

/// The folder name read from the instance's path; none for an empty path.
pub open spec fn path_folder(path: Seq<char>) -> Option<Seq<char>> {
    if path.len() > 0 {
        folder_in_path(path)
    } else {
        None
    }
}

/// The byte slicing of the service-name rule would cut a character in two: the
/// character after `MySQL` is not a single byte.
pub open spec fn folder_name_panics(i: MySQLInstance) -> bool {
    &&& path_folder(i.path@) is None
    &&& i.service_name matches Some(s) && service_rule_applies(s@) && (s@[5] as u32) >= 0x80
}

/// The name of the server's folder: from the path when one of its folders names
/// a server; else `MySQL Server <d>.<rest>` from a service called `MySQL<d><rest>`;
/// else `MySQL Server <major.minor>` from the version, or `MySQL Server` when the
/// version is empty or unknown.
pub open spec fn server_folder_name(i: MySQLInstance) -> Seq<char> {
    let pattern = version_pattern(i.version@);
    if path_folder(i.path@) is Some {
        path_folder(i.path@)->0
    } else if i.service_name matches Some(s) && service_rule_applies(s@) {
        let s = i.service_name->0@;
        "MySQL Server "@ + seq![s[5]] + "."@ + s.skip(6)
    } else if pattern.len() > 0 && pattern != "未知"@ {
        "MySQL Server "@ + pattern
    } else {
        "MySQL Server"@
    }
}

/// Whether deriving the instance's server folder name would cut a character in
/// two (see [`folder_name_panics`]).
pub fn server_folder_would_panic(instance: &MySQLInstance) -> (r: bool)
    ensures
        r == folder_name_panics(*instance),
{
    let p = to_chars(instance.path.as_str());
    if p.len() > 0 {
        if folder_from_path(&p).is_some() {
            return false;
        }
    }
    match &instance.service_name {
        Some(svc) => {
            let v = to_chars(svc.as_str());
            if starts_with_str(&v, "MySQL") && !utf8_len_lt(&v, 6) {
                proof {
                    reveal_strlit("MySQL");
                }
                let rest = slice(&v, 5, v.len());
                assert(rest@ =~= svc@.skip(5));
                if !utf8_len_lt(&rest, 2) {
                    assert(service_rule_applies(svc@));
                    proof {
                        lemma_utf8_len_first(rest@);
                    }
                    assert(rest@[0] == svc@[5]);
                    return (v[5] as u32) >= 0x80;
                }
            }
            false
        },
        None => false,
    }
}

/// The folder name of the server an instance belongs to (see [`server_folder_name`]).
pub fn derive_server_folder_name(instance: &MySQLInstance) -> (r: String)
    requires
        !folder_name_panics(*instance),
    ensures
        r@ == server_folder_name(*instance),
{
    let p = to_chars(instance.path.as_str());
    if p.len() > 0 {
        match folder_from_path(&p) {
            Some(n) => {
                return from_chars(&n);
            },
            None => {},
        }
    }
    match &instance.service_name {
        Some(svc) => {
            let v = to_chars(svc.as_str());
            if starts_with_str(&v, "MySQL") && !utf8_len_lt(&v, 6) {
                proof {
                    reveal_strlit("MySQL");
                }
                let rest = slice(&v, 5, v.len());
                assert(rest@ =~= svc@.skip(5));
                if !utf8_len_lt(&rest, 2) {
                    assert(service_rule_applies(svc@));
                    let mut s: Vec<char> = Vec::new();
                    push_str(&mut s, "MySQL Server ");
                    s.push(v[5]);
                    s.push('.');
                    let minor = slice(&v, 6, v.len());
                    push_all(&mut s, &minor);
                    let r = from_chars(&s);
                    proof {
                        reveal_strlit(".");
                    }
                    assert(minor@ =~= svc@.skip(6));
                    assert(r@ =~= server_folder_name(*instance));
                    return r;
                }
            }
        },
        None => {},
    }
    let pattern = derive_version_pattern(instance.version.as_str());
    let pv = to_chars(pattern.as_str());
    if pv.len() > 0 && !eq_str(&pv, "未知") {
        let mut s: Vec<char> = Vec::new();
        push_str(&mut s, "MySQL Server ");
        push_all(&mut s, &pv);
        from_chars(&s)
    } else {
        owned("MySQL Server")
    }
}

/// The installation directory: none for an empty path; the parent of a `bin`
/// directory or of a path that is not a directory; the path itself otherwise.
pub open spec fn install_dir_of(path: Seq<char>, path_is_dir: bool) -> Option<Seq<char>> {
    if path.len() == 0 {
        None
    } else if file_name(path) == Some("bin"@) {
        win_parent(path)
    } else if path_is_dir {
        Some(path)
    } else {
        win_parent(path)
    }
}

/// The data directory under `C:\ProgramData\MySQL` for a folder that names a server.
pub open spec fn program_data_dir_of(folder: Seq<char>) -> Option<Seq<char>> {
    if is_server_folder(folder) {
        Some("C:\\ProgramData\\MySQL\\"@ + folder)
    } else {
        None
    }
}

/// The view of an optional string.
pub open spec fn opt_view(o: Option<String>) -> Option<Seq<char>> {
    match o {
        Some(s) => Some(s@),
        None => None,
    }
}

fn opt_string(o: Option<Vec<char>>) -> (r: Option<String>)
    ensures
        opt_view(r) == match o {
            Some(v) => Some(v@),
            None => None::<Seq<char>>,
        },
{
    match o {
        Some(v) => Some(from_chars(&v)),
        None => None,
    }
}

/// The clean-up targets of an instance; `path_is_dir` tells whether the
/// instance's path is an existing directory.
pub fn build_instance_targets(instance: &MySQLInstance, path_is_dir: bool) -> (r: InstanceTargets)
    requires
        !folder_name_panics(*instance),
    ensures
        r.server_folder_name@ == server_folder_name(*instance),
        r.version_pattern@ == version_pattern(instance.version@),
        opt_view(r.install_dir) == install_dir_of(instance.path@, path_is_dir),
        opt_view(r.program_data_dir) == program_data_dir_of(server_folder_name(*instance)),
        r.service_name == instance.service_name,
{
    let server_folder_name = derive_server_folder_name(instance);
    let version_pattern = derive_version_pattern(instance.version.as_str());
    let p = to_chars(instance.path.as_str());
    let install_dir = if p.len() == 0 {
        None
    } else {
        let is_bin = match file_name_of(&p) {
            Some(n) => eq_str(&n, "bin"),
            None => false,
        };
        if is_bin {
            opt_string(parent_of(&p))
        } else if path_is_dir {
            Some(instance.path.clone())
        } else {
            opt_string(parent_of(&p))
        }
    };
    let f = to_chars(server_folder_name.as_str());
    let program_data_dir = if starts_with_str(&f, "MySQL Server") || starts_with_str(&f, "MariaDB") {
        let mut d: Vec<char> = Vec::new();
        push_str(&mut d, "C:\\ProgramData\\MySQL\\");
        push_all(&mut d, &f);
        Some(from_chars(&d))
    } else {
        None
    };
    let service_name = match &instance.service_name {
        Some(s) => Some(s.clone()),
        None => None,
    };
    InstanceTargets { server_folder_name, version_pattern, install_dir, program_data_dir, service_name }
}

/// The paths a clean-up with `o` removes, given an installation directory and
/// a data directory: the first, then the second, each when present and chosen.
pub open spec fn cleanup_paths(install: Option<Seq<char>>, data: Option<Seq<char>>, o: CleanOptions) -> Seq<Seq<char>> {
    (if o.clean_install_dir && install is Some {
        seq![install->0]
    } else {
        seq![]
    }) + (if o.clean_program_data && data is Some {
        seq![data->0]
    } else {
        seq![]
    })
}

/// The paths a clean-up of instance `i` removes (see [`cleanup_paths`]).
pub open spec fn instance_cleanup_paths(i: MySQLInstance, path_is_dir: bool, o: CleanOptions) -> Seq<Seq<char>> {
    cleanup_paths(install_dir_of(i.path@, path_is_dir), program_data_dir_of(server_folder_name(i)), o)
}

/// Clean-ups of two instances remove a common directory only when the two
/// share their installation directory or their server folder, or one is
/// installed where the other keeps its data: a clean-up never reaches into
/// another version's installation or data.
pub proof fn law_cleanup_isolated(a: MySQLInstance, a_is_dir: bool, b: MySQLInstance, b_is_dir: bool, o: CleanOptions)
    ensures
        forall|p: Seq<char>|
            #[trigger] instance_cleanup_paths(a, a_is_dir, o).contains(p) && instance_cleanup_paths(b, b_is_dir, o).contains(p)
                ==> (install_dir_of(a.path@, a_is_dir) == Some(p) && install_dir_of(b.path@, b_is_dir) == Some(p))
                || server_folder_name(a) == server_folder_name(b)
                || (install_dir_of(a.path@, a_is_dir) == Some(p) && program_data_dir_of(server_folder_name(b)) == Some(p))
                || (install_dir_of(b.path@, b_is_dir) == Some(p) && program_data_dir_of(server_folder_name(a)) == Some(p)),
{
    let root = "C:\\ProgramData\\MySQL\\"@;
    assert forall|p: Seq<char>|
        #[trigger] instance_cleanup_paths(a, a_is_dir, o).contains(p) && instance_cleanup_paths(b, b_is_dir, o).contains(p)
            implies (install_dir_of(a.path@, a_is_dir) == Some(p) && install_dir_of(b.path@, b_is_dir) == Some(p))
            || server_folder_name(a) == server_folder_name(b)
            || (install_dir_of(a.path@, a_is_dir) == Some(p) && program_data_dir_of(server_folder_name(b)) == Some(p))
            || (install_dir_of(b.path@, b_is_dir) == Some(p) && program_data_dir_of(server_folder_name(a)) == Some(p)) by {
        let ia = install_dir_of(a.path@, a_is_dir);
        let ib = install_dir_of(b.path@, b_is_dir);
        let da = program_data_dir_of(server_folder_name(a));
        let db = program_data_dir_of(server_folder_name(b));
        assert(ia == Some(p) || da == Some(p));
        assert(ib == Some(p) || db == Some(p));
        if da == Some(p) && db == Some(p) {
            let fa = server_folder_name(a);
            let fb = server_folder_name(b);
            assert(root + fa == p && root + fb == p);
            assert(fa =~= p.skip(root.len() as int));
            assert(fb =~= p.skip(root.len() as int));
        }
    }
}

/// The directories a clean-up with `options` would remove, with whether each
/// exists: the installation directory, then the data directory.
pub fn directories_for_instance(
    targets: &InstanceTargets,
    options: &CleanOptions,
    install_dir_exists: bool,
    program_data_exists: bool,
) -> (r: Vec<ScannedPath>)
    ensures
        r@.len() == (if options.clean_install_dir && targets.install_dir is Some { 1int } else { 0 })
            + (if options.clean_program_data && targets.program_data_dir is Some { 1int } else { 0 }),
        options.clean_install_dir && targets.install_dir is Some ==> (r@[0].path@
            == targets.install_dir->0@ && r@[0].category@ == "install_dir"@ && r@[0].exists
            == install_dir_exists),
        Seq::new(r@.len(), |k: int| r@[k].path@) == cleanup_paths(opt_view(targets.install_dir), opt_view(targets.program_data_dir), *options),
        options.clean_program_data && targets.program_data_dir is Some ==> ({
            let k = r@.len() - 1;
            r@[k].path@ == targets.program_data_dir->0@ && r@[k].category@ == "program_data"@
                && r@[k].exists == program_data_exists
        }),
{
    let mut dirs: Vec<ScannedPath> = Vec::new();
    if options.clean_install_dir {
        match &targets.install_dir {
            Some(path) => {
                dirs.push(
                    ScannedPath {
                        path: path.clone(),
                        category: owned("install_dir"),
                        exists: install_dir_exists,
                    },
                );
            },
            None => {},
        }
    }
    if options.clean_program_data {
        match &targets.program_data_dir {
            Some(path) => {
                dirs.push(
                    ScannedPath {
                        path: path.clone(),
                        category: owned("program_data"),
                        exists: program_data_exists,
                    },
                );
            },
            None => {},
        }
    }
    dirs
}

/// The options a residue scan previews with: ODBC drivers and the user's
/// registry key on top of the defaults.
pub fn preview_scan_options() -> (r: CleanOptions)
    ensures
        r == (CleanOptions {
            clean_install_dir: false,
            clean_program_data: false,
            clean_registry_services: false,
            clean_registry_mysql_ab: false,
            clean_registry_uninstall: false,
            clean_registry_installer: false,
            clean_odbc: true,
            clean_user_registry: true,
            clean_start_menu: false,
            clean_path: false,
            kill_processes: false,
            remove_services: false,
        }),
{
    let d = CleanOptions::default();
    CleanOptions { clean_odbc: true, clean_user_registry: true, ..d }
}

/// The ODBC driver name pattern for a `major.minor` pattern.
pub open spec fn odbc_pattern_of(version_pattern: Seq<char>) -> Seq<char> {
    if starts_with(version_pattern, "8"@) {
        "MySQL ODBC 8"@
    } else if starts_with(version_pattern, "5"@) {
        "MySQL ODBC 5"@
    } else {
        "MySQL ODBC"@
    }
}

/// The ODBC driver name pattern (see [`odbc_pattern_of`]).
pub fn odbc_pattern(version_pattern: &str) -> (r: String)
    ensures
        r@ == odbc_pattern_of(version_pattern@),
{
    let v = to_chars(version_pattern);
    if starts_with_str(&v, "8") {
        owned("MySQL ODBC 8")
    } else if starts_with_str(&v, "5") {
        owned("MySQL ODBC 5")
    } else {
        owned("MySQL ODBC")
    }
}

/// The registry key of a Windows service.
pub fn service_registry_key(service: &str) -> (r: String)
    ensures
        r@ == "HKLM\\SYSTEM\\CurrentControlSet\\Services\\"@ + service@,
{
    let mut s: Vec<char> = Vec::new();
    push_str(&mut s, "HKLM\\SYSTEM\\CurrentControlSet\\Services\\");
    push_str(&mut s, service);
    from_chars(&s)
}

/// Every `'` doubled, as a single-quoted PowerShell string needs.
pub open spec fn ps_quoted(s: Seq<char>) -> Seq<char>
    decreases s.len(),
{
    if s.len() == 0 {
        seq![]
    } else {
        ps_quoted(s.drop_last()) + if s.last() == '\'' { "''"@ } else { seq![s.last()] }
    }
}

/// The text a single-quoted string body stands for where only `'` is special
/// (standard SQL, a PowerShell literal of ASCII quotes): `''` is one quote; a
/// lone quote would end the literal early (`None`).
pub open spec fn quoted_body_value(s: Seq<char>) -> Option<Seq<char>>
    decreases s.len(),
{
    if s.len() == 0 {
        Some(seq![])
    } else if s[0] == '\'' {
        if s.len() >= 2 && s[1] == '\'' {
            match quoted_body_value(s.skip(2)) {
                Some(r) => Some(seq!['\''] + r),
                None => None,
            }
        } else {
            None
        }
    } else {
        match quoted_body_value(s.drop_first()) {
            Some(r) => Some(seq![s[0]] + r),
            None => None,
        }
    }
}

proof fn lemma_ps_quoted_cons(s: Seq<char>)
    requires
        s.len() > 0,
    ensures
        ps_quoted(s) == (if s[0] == '\'' { "''"@ } else { seq![s[0]] }) + ps_quoted(s.drop_first()),
    decreases s.len(),
{
    if s.len() == 1 {
        assert(s.drop_last() =~= Seq::<char>::empty());
        assert(s.drop_first() =~= Seq::<char>::empty());
    } else {
        lemma_ps_quoted_cons(s.drop_last());
        assert(s.drop_last().drop_first() =~= s.drop_first().drop_last());
        assert(s.drop_first().last() == s.last());
        assert(s.drop_last()[0] == s[0]);
    }
}

/// Doubling the quotes of a text and reading the result as a quoted string
/// body gives the text back.
pub proof fn law_quoted_body_round_trip(s: Seq<char>)
    ensures
        quoted_body_value(ps_quoted(s)) == Some(s),
    decreases s.len(),
{
    reveal_strlit("''");
    if s.len() > 0 {
        lemma_ps_quoted_cons(s);
        law_quoted_body_round_trip(s.drop_first());
        let e = ps_quoted(s);
        let rest = ps_quoted(s.drop_first());
        if s[0] == '\'' {
            assert(e.skip(2) =~= rest);
        } else {
            assert(e.drop_first() =~= rest);
        }
        assert(seq![s[0]] + s.drop_first() =~= s);
    } else {
        assert(ps_quoted(s) =~= Seq::<char>::empty());
    }
}

/// Doubles every `'` of `s` (see [`ps_quoted`]).
pub fn ps_quote(s: &str) -> (r: String)
    ensures
        r@ == ps_quoted(s@),
{
    let v = to_chars(s);
    let mut out: Vec<char> = Vec::new();
    let mut i: usize = 0;
    assert(v@.take(0) =~= Seq::<char>::empty());
    while i < v.len()
        invariant
            i <= v.len(),
            v@ == s@,
            out@ == ps_quoted(v@.take(i as int)),
        decreases v.len() - i,
    {
        assert(v@.take(i + 1).drop_last() =~= v@.take(i as int));
        if v[i] == '\'' {
            push_str(&mut out, "''");
        } else {
            out.push(v[i]);
        }
        i += 1;
    }
    assert(v@.take(v.len() as int) =~= v@);
    from_chars(&out)
}

/// The fields of a scanned directory: path, category, whether it exists.
pub open spec fn scanned_view(d: ScannedPath) -> (Seq<char>, Seq<char>, bool) {
    (d.path@, d.category@, d.exists)
}

pub open spec fn scanned_views(ds: Seq<ScannedPath>) -> Seq<(Seq<char>, Seq<char>, bool)> {
    Seq::new(ds.len(), |i: int| scanned_view(ds[i]))
}

/// The directories a clean-up deletes, in order: those that exist and do not
/// lie under an integrated environment.
pub open spec fn removable(ds: Seq<(Seq<char>, Seq<char>, bool)>) -> Seq<(Seq<char>, Seq<char>, bool)>
    decreases ds.len(),
{
    if ds.len() == 0 {
        seq![]
    } else {
        let d = ds.last();
        removable(ds.drop_last()) + if d.2 && !excluded(d.0) {
            seq![d]
        } else {
            seq![]
        }
    }
}

/// Every directory [`removable`] keeps exists and lies outside the integrated
/// environments.
pub proof fn law_excluded_never_removed(ds: Seq<(Seq<char>, Seq<char>, bool)>)
    ensures
        forall|i: int| 0 <= i < removable(ds).len() ==> (#[trigger] removable(ds)[i]).2 && !excluded(removable(ds)[i].0),
    decreases ds.len(),
{
    if ds.len() > 0 {
        law_excluded_never_removed(ds.drop_last());
        let prev = removable(ds.drop_last());
        assert forall|i: int| 0 <= i < removable(ds).len() implies (#[trigger] removable(ds)[i]).2 && !excluded(
            removable(ds)[i].0,
        ) by {
            if i < prev.len() {
                assert(removable(ds)[i] == prev[i]);
            }
        }
    }
}

/// Picks the directories a clean-up deletes (see [`removable`]).
pub fn removable_directories(dirs: &Vec<ScannedPath>) -> (r: Vec<ScannedPath>)
    ensures
        scanned_views(r@) == removable(scanned_views(dirs@)),
        forall|i: int| 0 <= i < r@.len() ==> (#[trigger] r@[i]).exists && !excluded(r@[i].path@),
{
    let ghost all = scanned_views(dirs@);
    let mut out: Vec<ScannedPath> = Vec::new();
    let mut i: usize = 0;
    assert(all.take(0) =~= Seq::<(Seq<char>, Seq<char>, bool)>::empty());
    assert(scanned_views(out@) =~= Seq::<(Seq<char>, Seq<char>, bool)>::empty());
    while i < dirs.len()
        invariant
            i <= dirs@.len(),
            all == scanned_views(dirs@),
            scanned_views(out@) == removable(all.take(i as int)),
        decreases dirs.len() - i,
    {
        assert(all.take(i + 1).drop_last() =~= all.take(i as int));
        assert(all.take(i + 1).last() == scanned_view(dirs@[i as int]));
        let ghost before = scanned_views(out@);
        if dirs[i].exists && !is_excluded_path(dirs[i].path.as_str()) {
            out.push(
                ScannedPath { path: dirs[i].path.clone(), category: dirs[i].category.clone(), exists: dirs[i].exists },
            );
            assert(scanned_views(out@) =~= before.push(all[i as int]));
        } else {
            assert(removable(all.take(i + 1)) =~= removable(all.take(i as int)));
        }
        i += 1;
    }
    assert(all.take(dirs@.len() as int) =~= all);
    proof {
        law_excluded_never_removed(all);
        assert forall|i: int| 0 <= i < out@.len() implies (#[trigger] out@[i]).exists && !excluded(out@[i].path@) by {
            assert(scanned_views(out@)[i] == removable(all)[i]);
        }
    }
    out
}

/// The lower-cased path lies under the lower-cased directory of one of the
/// integrated environments: XAMPP, WAMP (32- or 64-bit) or AppServ.
pub open spec fn under_integrated_environment(path: Seq<char>) -> bool {
    let l = unicode_lower(path);
    exists|d: Seq<char>|
        (d == "C:\\xampp"@ || d == "C:\\wamp"@ || d == "C:\\wamp64"@ || d == "C:\\appserv"@)
            && #[trigger] starts_with(l, unicode_lower(d))
}

/// An integrated environment is never cleaned: every path under XAMPP, WAMP,
/// WAMP64 or AppServ is excluded, and none of the directories a clean-up
/// removes lies under one of them.
pub proof fn law_integrated_environments_untouched(path: Seq<char>, ds: Seq<(Seq<char>, Seq<char>, bool)>)
    ensures
        under_integrated_environment(path) ==> excluded(path),
        forall|i: int| 0 <= i < removable(ds).len() ==> !under_integrated_environment(#[trigger] removable(ds)[i].0),
{
    law_excluded_never_removed(ds);
    assert forall|q: Seq<char>| under_integrated_environment(q) implies excluded(q) by {
        let l = unicode_lower(q);
        let d = choose|d: Seq<char>|
            (d == "C:\\xampp"@ || d == "C:\\wamp"@ || d == "C:\\wamp64"@ || d == "C:\\appserv"@)
                && #[trigger] starts_with(l, unicode_lower(d));
    }
    assert forall|i: int| 0 <= i < removable(ds).len() implies !under_integrated_environment(
        #[trigger] removable(ds)[i].0,
    ) by {
        let q = removable(ds)[i].0;
        if under_integrated_environment(q) {
            assert(excluded(q));
        }
    }
}

} // verus!
