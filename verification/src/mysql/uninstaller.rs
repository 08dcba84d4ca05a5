//! Which installed products an uninstall of one MySQL instance may touch, and
//! which version the instance is taken to have.
use vstd::prelude::*;
use crate::text::{
    contains, contains_str, split_char, split_ch, vviews, all_digits, is_ascii_digit, join,
    join_chars, to_chars, from_chars, push_str, push_all,
};
use crate::winpath::{file_name, win_parent, file_name_of, parent_of};
use crate::pattern::{unicode_lower, to_lowercase, regex_escaped, regex_escape};
use crate::detector_base::{VERSION_UNKNOWN, ARCH_UNKNOWN};
use crate::mysql::detector::{parse_version, VERSION_PATTERN};
use crate::pattern::regex_first_capture;
use crate::types::ProcessOutput;
use crate::detector_base::{DbInstance, DbView, db_views};
use crate::error::owned;
use crate::process_manager::{service_name_problem, validate_service_name};

verus! {

/// The name of the directory above `bin`, when it names a MySQL or MariaDB
/// installation (Unicode lower-casing ignored).
pub open spec fn product_folder(bin_dir: Seq<char>) -> Option<Seq<char>> {
    match win_parent(bin_dir) {
        Some(p) => match file_name(p) {
            Some(n) => if contains(unicode_lower(n), "mysql"@) || contains(unicode_lower(n), "mariadb"@) {
                Some(n)
            } else {
                None
            },
            None => None,
        },
        None => None,
    }
}

/// The patterns for the major and minor version, when the version has two
/// `.`-separated pieces and the first is made of digits.
pub open spec fn version_patterns(version: Seq<char>) -> Seq<Seq<char>> {
    let ps = split_char(version, '.');
    if ps.len() >= 2 && all_digits(ps[0]) {
        let mm = regex_escaped(ps[0] + "."@ + ps[1]);
        seq!["MySQL\\s+Server\\s+"@ + mm, "MariaDB\\s+"@ + mm]
    } else {
        seq![]
    }
}

/// The filter a product's display name must match to be uninstalled with the
/// instance: the escaped installation folder and the version patterns, joined
/// by `|`; none when there is neither.
pub open spec fn uninstall_filter(bin_dir: Seq<char>, version: Seq<char>) -> Option<Seq<char>> {
    let folder = match product_folder(bin_dir) {
        Some(f) => seq![regex_escaped(f)],
        None => seq![],
    };
    let ps = folder + version_patterns(version);
    if ps.len() == 0 {
        None
    } else {
        Some(join(ps, "|"@))
    }
}

fn digits_only(s: &Vec<char>) -> (r: bool)
    ensures
        r == all_digits(s@),
{
    let mut i: usize = 0;
    while i < s.len()
        invariant
            i <= s.len(),
            forall|j: int| 0 <= j < i ==> is_ascii_digit(#[trigger] s@[j]),
        decreases s.len() - i,
    {
        if !('0' <= s[i] && s[i] <= '9') {
            return false;
        }
        i += 1;
    }
    true
}

fn product_folder_of(bin_dir: &str) -> (r: Option<String>)
    ensures
        r.deep_view() == product_folder(bin_dir@),
{
    let b = to_chars(bin_dir);
    let p = match parent_of(&b) {
        Some(p) => p,
        None => {
            return None;
        },
    };
    let n = match file_name_of(&p) {
        Some(n) => n,
        None => {
            return None;
        },
    };
    let name = from_chars(&n);
    let lower = to_lowercase(name.as_str());
    let l = to_chars(lower.as_str());
    if contains_str(&l, "mysql") || contains_str(&l, "mariadb") {
        Some(name)
    } else {
        None
    }
}

/// Builds the filter of [`uninstall_filter`] for the instance in `bin_dir`.
pub fn build_uninstall_filter(bin_dir: &str, version: &str) -> (r: Option<String>)
    ensures
        r.deep_view() == uninstall_filter(bin_dir@, version@),
{
    let mut patterns: Vec<Vec<char>> = Vec::new();
    let ghost folder = match product_folder(bin_dir@) {
        Some(f) => seq![regex_escaped(f)],
        None => Seq::<Seq<char>>::empty(),
    };
    match product_folder_of(bin_dir) {
        Some(f) => {
            let e = regex_escape(f.as_str());
            patterns.push(to_chars(e.as_str()));
        },
        None => {},
    }
    assert(vviews(patterns@) =~= folder);
    let v = to_chars(version);
    let parts = split_ch(&v, '.');
    let ghost ps = vviews(parts@);
    assert(ps == split_char(version@, '.'));
    if parts.len() >= 2 && digits_only(&parts[0]) {
        assert(ps[0] == parts@[0]@ && ps[1] == parts@[1]@);
        let mut mm: Vec<char> = Vec::new();
        push_all(&mut mm, &parts[0]);
        push_str(&mut mm, ".");
        push_all(&mut mm, &parts[1]);
        let e = regex_escape(from_chars(&mm).as_str());
        let ev = to_chars(e.as_str());
        let mut a: Vec<char> = Vec::new();
        push_str(&mut a, "MySQL\\s+Server\\s+");
        push_all(&mut a, &ev);
        let mut b: Vec<char> = Vec::new();
        push_str(&mut b, "MariaDB\\s+");
        push_all(&mut b, &ev);
        let ghost before = vviews(patterns@);
        patterns.push(a);
        patterns.push(b);
        assert(vviews(patterns@) =~= before + version_patterns(version@));
    } else {
        assert(version_patterns(version@) =~= Seq::<Seq<char>>::empty());
        assert(vviews(patterns@) =~= folder + version_patterns(version@));
    }
    if patterns.len() == 0 {
        None
    } else {
        let sep = to_chars("|");
        Some(from_chars(&join_chars(&patterns, &sep)))
    }
}

/// A version worth keeping as it is: neither empty nor one of the unknown markers.
pub open spec fn version_known(v: Seq<char>) -> bool {
    v.len() > 0 && v != VERSION_UNKNOWN@ && v != ARCH_UNKNOWN@
}

/// Whether the instance's version must be read from `mysql --version`.
pub fn needs_version_probe(known_version: &str) -> (r: bool)
    ensures
        r == !version_known(known_version@),
{
    !(!known_version.is_empty() && !crate::text::str_eq(known_version, VERSION_UNKNOWN) && !crate::text::str_eq(
        known_version,
        ARCH_UNKNOWN,
    ))
}

/// The version an uninstall works with: the known one when it is usable; else
/// the version `mysql --version` printed (when it ran and exited with 0, and a
/// version could be read); else the known text as it is.
pub open spec fn resolved_version(known: Seq<char>, probe: Option<Result<ProcessOutput, String>>) -> Seq<char> {
    if version_known(known) {
        known
    } else {
        match probe {
            Some(Ok(o)) => if o.exit_code == 0 {
                match regex_first_capture(VERSION_PATTERN@, o.stdout@, 1) {
                    Some(v) => v,
                    None => known,
                }
            } else {
                known
            },
            _ => known,
        }
    }
}

/// Picks the version of [`resolved_version`]; `probe` is the run of `mysql
/// --version`, absent when `mysql.exe` was not found.
pub fn resolve_instance_version(known_version: &str, probe: Option<&Result<ProcessOutput, String>>) -> (r: String)
    ensures
        r@ == resolved_version(
            known_version@,
            match probe {
                Some(p) => Some(*p),
                None => None,
            },
        ),
{
    if !needs_version_probe(known_version) {
        return owned(known_version);
    }
    match probe {
        Some(Ok(o)) => {
            if o.exit_code == 0 {
                match parse_version(o.stdout.as_str()) {
                    Some(v) => v,
                    None => owned(known_version),
                }
            } else {
                owned(known_version)
            }
        },
        _ => owned(known_version),
    }
}

/// An uninstall needs at least one selected service.
pub fn check_uninstall_selection(services: &Vec<String>) -> (r: Result<(), String>)
    ensures
        services@.len() == 0 <==> (r matches Err(e) && e@ == "未选择要卸载的实例服务，操作已取消"@),
        services@.len() > 0 <==> r is Ok,
{
    if services.len() == 0 {
        Err(owned("未选择要卸载的实例服务，操作已取消"))
    } else {
        Ok(())
    }
}

/// The version recorded for `service`: that of the first instance running
/// under that service, or the empty text.
pub open spec fn recorded_version(xs: Seq<DbView>, service: Seq<char>) -> Seq<char>
    decreases xs.len(),
{
    if xs.len() == 0 {
        seq![]
    } else if xs[0].4 == Some(service) {
        xs[0].1
    } else {
        recorded_version(xs.drop_first(), service)
    }
}

/// Looks up the version of [`recorded_version`].
pub fn known_version_for<T: DbInstance>(instances: &Vec<T>, service: &str) -> (r: String)
    ensures
        r@ == recorded_version(db_views(instances@), service@),
{
    let ghost xs = db_views(instances@);
    let mut i: usize = 0;
    assert(xs.skip(0) =~= xs);
    while i < instances.len()
        invariant
            i <= instances@.len(),
            xs == db_views(instances@),
            recorded_version(xs.skip(i as int), service@) == recorded_version(xs, service@),
        decreases instances.len() - i,
    {
        assert(xs.skip(i as int)[0] == instances@[i as int].db_view());
        assert(xs.skip(i as int).drop_first() =~= xs.skip(i + 1));
        match instances[i].get_service_name() {
            Some(n) => {
                if crate::text::str_eq(n, service) {
                    return owned(instances[i].get_version());
                }
            },
            None => {},
        }
        i += 1;
    }
    assert(xs.skip(i as int) =~= Seq::<DbView>::empty());
    String::new()
}

/// The first selected service whose name is refused, from `k` on.
pub open spec fn first_refused_service(services: Seq<Seq<char>>, k: nat) -> Option<Seq<char>>
    decreases services.len() - k,
{
    if k >= services.len() {
        None
    } else {
        match service_name_problem(services[k as int]) {
            Some(m) => Some(m),
            None => first_refused_service(services, k + 1),
        }
    }
}

/// What an uninstall request is answered before anything is touched: an empty
/// selection is refused; so is a selection with a refused service name, with
/// the first such name's problem.
pub open spec fn uninstall_request_answer(services: Seq<Seq<char>>) -> Result<(), Seq<char>> {
    if services.len() == 0 {
        Err("请先选择要卸载的实例服务（未选择时操作已取消，避免误卸全部）"@)
    } else {
        match first_refused_service(services, 0) {
            Some(m) => Err("服务名无效: "@ + m),
            None => Ok(()),
        }
    }
}

/// Checks an uninstall request (see [`uninstall_request_answer`]).
pub fn check_uninstall_request(services: &Vec<String>) -> (r: Result<(), String>)
    ensures
        match uninstall_request_answer(services.deep_view()) {
            Ok(()) => r is Ok,
            Err(m) => r matches Err(e) && e@ == m,
        },
{
    let ghost sv = services.deep_view();
    if services.len() == 0 {
        return Err(owned("请先选择要卸载的实例服务（未选择时操作已取消，避免误卸全部）"));
    }
    let mut i: usize = 0;
    while i < services.len()
        invariant
            i <= services.len(),
            sv == services.deep_view(),
            first_refused_service(sv, 0) == first_refused_service(sv, i as nat),
        decreases services.len() - i,
    {
        assert(sv[i as int] == services@[i as int]@);
        match validate_service_name(services[i].as_str()) {
            Ok(()) => {},
            Err(e) => {
                return Err(e.to_user_message());
            },
        }
        i += 1;
    }
    Ok(())
}

} // verus!
