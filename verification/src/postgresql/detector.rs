//! Reading what PostgreSQL tools print and the settings its files hold.
use vstd::prelude::*;
use crate::text::{
    lines, lines_of, trim, trim_chars, starts_with, starts_with_str, contains, contains_str,
    parse_unsigned, parse_u16, split_char, split_ch, vviews, trim_start_char, trim_start_char_chars,
    trim_end_char, trim_end_char_chars, is_ascii_digit, to_chars, from_chars, slice, str_eq,
};
use crate::pattern::{regex_matches, regex_first_capture, regex_is_match, regex_capture};
use crate::winpath::{win_parent, win_join, parent_of, join_path};
use crate::error::owned;
use crate::detector_base::{ARCH_UNKNOWN, VERSION_UNKNOWN, STATUS_NO_SERVICE};
use crate::types::{PostgresqlInfo, PostgresqlInstance};

verus! {

/// The pattern of a three-part version number.
pub const FULL_VERSION_PATTERN: &'static str = "(\\d+\\.\\d+\\.\\d+)";

/// The pattern of a two-part version number.
pub const SHORT_VERSION_PATTERN: &'static str = "(\\d+\\.\\d+)";

/// The pattern of a `port = N` setting, any case, leading blanks allowed.
pub const PORT_PATTERN: &'static str = "(?i)^\\s*port\\s*=\\s*(\\d+)";

/// The major version a service name like `postgresql-x64-16` ends with: the
/// last `-`-separated piece when there are at least three and it is all ASCII digits.
pub open spec fn major_from_service(name: Seq<char>) -> Option<Seq<char>> {
    let ps = split_char(name, '-');
    if ps.len() >= 3 && (forall|i: int| 0 <= i < ps.last().len() ==> is_ascii_digit(#[trigger] ps.last()[i])) {
        Some(ps.last())
    } else {
        None
    }
}

/// The major version in a service name (see [`major_from_service`]).
pub fn extract_major_from_service_name(service_name: &str) -> (r: Option<String>)
    ensures
        r.deep_view() == major_from_service(service_name@),
{
    let v = to_chars(service_name);
    let ps = split_ch(&v, '-');
    assert(vviews(ps@) == split_char(service_name@, '-'));
    if ps.len() < 3 {
        return None;
    }
    let last = &ps[ps.len() - 1];
    assert(vviews(ps@).last() == last@);
    let mut i: usize = 0;
    while i < last.len()
        invariant
            i <= last@.len(),
            vviews(ps@) == split_char(service_name@, '-'),
            ps@.len() >= 3,
            last@ == vviews(ps@).last(),
            forall|k: int| 0 <= k < i ==> is_ascii_digit(#[trigger] last@[k]),
        decreases last.len() - i,
    {
        if !('0' <= last[i] && last[i] <= '9') {
            assert(!is_ascii_digit(split_char(service_name@, '-').last()[i as int]));
            return None;
        }
        i += 1;
    }
    Some(from_chars(last))
}

/// The version `psql --version` prints: the first `x.y.z`, else the first `x.y`.
pub open spec fn version_in(output: Seq<char>) -> Option<Seq<char>> {
    if regex_matches(FULL_VERSION_PATTERN@, output) {
        regex_first_capture(FULL_VERSION_PATTERN@, output, 1)
    } else {
        regex_first_capture(SHORT_VERSION_PATTERN@, output, 1)
    }
}

/// The version in `psql --version` output (see [`version_in`]).
pub fn parse_version(output: &str) -> (r: Option<String>)
    ensures
        r.deep_view() == version_in(output@),
{
    if regex_is_match(FULL_VERSION_PATTERN, output) {
        regex_capture(FULL_VERSION_PATTERN, output, 1)
    } else {
        regex_capture(SHORT_VERSION_PATTERN, output, 1)
    }
}

/// The architecture a `--version` line names; the Windows installer defaults to x64.
pub open spec fn architecture_of(output: Seq<char>) -> Seq<char> {
    if contains(output, "x86_64"@) || contains(output, "Win64"@) || contains(output, "x64"@) {
        "x86_64"@
    } else if contains(output, "i686"@) || contains(output, "Win32"@) || contains(output, "x86"@) {
        "x86"@
    } else {
        "x86_64"@
    }
}

/// The architecture a `--version` line names (see [`architecture_of`]).
pub fn parse_architecture(output: &str) -> (r: String)
    ensures
        r@ == architecture_of(output@),
{
    let v = to_chars(output);
    if contains_str(&v, "x86_64") || contains_str(&v, "Win64") || contains_str(&v, "x64") {
        owned("x86_64")
    } else if contains_str(&v, "i686") || contains_str(&v, "Win32") || contains_str(&v, "x86") {
        owned("x86")
    } else {
        owned("x86_64")
    }
}

/// The port of the first uncommented `port = N` line whose `N` is a valid `u16`.
pub open spec fn conf_port(ls: Seq<Seq<char>>) -> Option<nat>
    decreases ls.len(),
{
    if ls.len() == 0 {
        None
    } else {
        let t = trim(ls[0]);
        if !starts_with(t, "#"@) && (regex_first_capture(PORT_PATTERN@, t, 1) matches Some(d)
            && parse_unsigned(d, 0xffff) is Some) {
            parse_unsigned(regex_first_capture(PORT_PATTERN@, t, 1)->0, 0xffff)
        } else {
            conf_port(ls.drop_first())
        }
    }
}

/// The port `postgresql.conf` sets (see [`conf_port`]).
pub fn parse_port_from_config(content: &str) -> (r: Option<u16>)
    ensures
        match r {
            Some(p) => conf_port(lines(content@)) == Some(p as nat),
            None => conf_port(lines(content@)) is None,
        },
{
    let v = to_chars(content);
    let ls = lines_of(&v);
    let ghost all = vviews(ls@);
    let mut i: usize = 0;
    assert(all.skip(0) =~= all);
    while i < ls.len()
        invariant
            i <= ls.len(),
            all == vviews(ls@),
            all == lines(content@),
            conf_port(all) == conf_port(all.skip(i as int)),
        decreases ls.len() - i,
    {
        assert(all.skip(i as int)[0] == ls@[i as int]@);
        assert(all.skip(i as int).drop_first() =~= all.skip(i + 1));
        let t = trim_chars(&ls[i]);
        if !starts_with_str(&t, "#") {
            let ts = from_chars(&t);
            match regex_capture(PORT_PATTERN, ts.as_str(), 1) {
                Some(d) => {
                    let dv = to_chars(d.as_str());
                    match parse_u16(&dv) {
                        Some(p) => {
                            return Some(p);
                        },
                        None => {},
                    }
                },
                None => {},
            }
        }
        i += 1;
    }
    assert(all.skip(ls.len() as int) =~= Seq::<Seq<char>>::empty());
    None
}

/// The value of a `data_directory` line, without `=`, blanks and quotes; none
/// for other lines and comments.
pub open spec fn data_directory_value(line: Seq<char>) -> Option<Seq<char>> {
    let t = trim(line);
    if starts_with(t, "#"@) || !starts_with(t, "data_directory"@) {
        None
    } else {
        let rest = t.skip(14);
        Some(trim_end_char(trim_start_char(trim_end_char(trim_start_char(trim(trim_start_char(rest, '=')), '\''), '\''), '"'), '"'))
    }
}

/// The non-empty `data_directory` values of `postgresql.conf`, in order.
pub open spec fn data_directory_values(ls: Seq<Seq<char>>) -> Seq<Seq<char>>
    decreases ls.len(),
{
    if ls.len() == 0 {
        seq![]
    } else {
        let prev = data_directory_values(ls.drop_last());
        match data_directory_value(ls.last()) {
            Some(v) => if v.len() > 0 { prev.push(v) } else { prev },
            None => prev,
        }
    }
}

/// The candidate data directories named by `postgresql.conf`, in order; the
/// first that exists is the instance's.
pub fn data_directory_candidates(content: &str) -> (r: Vec<String>)
    ensures
        r.deep_view() == data_directory_values(lines(content@)),
{
    let v = to_chars(content);
    let ls = lines_of(&v);
    let ghost all = vviews(ls@);
    let mut out: Vec<String> = Vec::new();
    let mut i: usize = 0;
    assert(all.take(0) =~= Seq::<Seq<char>>::empty());
    assert(out.deep_view() =~= Seq::<Seq<char>>::empty());
    while i < ls.len()
        invariant
            i <= ls.len(),
            all == vviews(ls@),
            out.deep_view() == data_directory_values(all.take(i as int)),
        decreases ls.len() - i,
    {
        assert(all.take(i + 1).drop_last() =~= all.take(i as int));
        assert(all.take(i + 1).last() == ls@[i as int]@);
        let t = trim_chars(&ls[i]);
        if !starts_with_str(&t, "#") && starts_with_str(&t, "data_directory") {
            proof {
                reveal_strlit("data_directory");
            }
            let rest = slice(&t, 14, t.len());
            assert(rest@ =~= t@.skip(14));
            let a = trim_start_char_chars(&rest, '=');
            let b = trim_chars(&a);
            let c = trim_start_char_chars(&b, '\'');
            let d = trim_end_char_chars(&c, '\'');
            let e = trim_start_char_chars(&d, '"');
            let f = trim_end_char_chars(&e, '"');
            if f.len() > 0 {
                let ghost before = out.deep_view();
                out.push(from_chars(&f));
                assert(out.deep_view() =~= before.push(f@));
            }
        }
        i += 1;
    }
    assert(all.take(ls.len() as int) =~= all);
    out
}

/// The data directory beside a `bin` directory.
pub open spec fn data_dir_beside(bin_path: Seq<char>) -> Option<Seq<char>> {
    match win_parent(bin_path) {
        Some(p) => Some(win_join(p, "data"@)),
        None => None,
    }
}

/// The data directory beside a `bin` directory (see [`data_dir_beside`]); it
/// is the instance's when it is a directory.
pub fn data_dir_from_bin(bin_path: &str) -> (r: Option<String>)
    ensures
        r.deep_view() == data_dir_beside(bin_path@),
{
    let b = to_chars(bin_path);
    match parent_of(&b) {
        Some(p) => {
            let d = to_chars("data");
            let j = join_path(&p, &d);
            Some(from_chars(&j))
        },
        None => None,
    }
}

/// The version and architecture of a service's installation: from a successful
/// `--version` run, else the major version in the service name, else unknown
/// (an empty version when the run succeeded but printed none).
pub open spec fn service_version_and_arch(output: Option<Seq<char>>, svc_version: Option<Seq<char>>) -> (Seq<char>, Seq<char>) {
    match output {
        Some(o) => (
            match version_in(o) {
                Some(v) => v,
                None => match svc_version {
                    Some(s) => s,
                    None => seq![],
                },
            },
            architecture_of(o),
        ),
        None => (
            match svc_version {
                Some(s) => s,
                None => VERSION_UNKNOWN@,
            },
            ARCH_UNKNOWN@,
        ),
    }
}

/// Version and architecture from what a successful `--version` run printed
/// (`None` when it failed) and the service name (see [`service_version_and_arch`]).
pub fn version_and_arch(output: Option<&str>, service_name: &str) -> (r: (String, String))
    ensures
        (r.0@, r.1@) == service_version_and_arch(
            match output {
                Some(o) => Some(o@),
                None => None,
            },
            major_from_service(service_name@),
        ),
{
    let svc_version = extract_major_from_service_name(service_name);
    match output {
        Some(o) => {
            let v = match parse_version(o) {
                Some(v) => v,
                None => match svc_version {
                    Some(s) => s,
                    None => String::new(),
                },
            };
            (v, parse_architecture(o))
        },
        None => {
            let v = match svc_version {
                Some(s) => s,
                None => owned(VERSION_UNKNOWN),
            };
            (v, owned(ARCH_UNKNOWN))
        },
    }
}

/// An instance reached through its service: version and architecture from
/// [`service_version_and_arch`], and the given status, directory, port and
/// data directory.
pub fn service_instance(
    service_name: String,
    status: String,
    path: String,
    version_output: Option<&str>,
    port: Option<u16>,
    data_dir: Option<String>,
) -> (r: PostgresqlInstance)
    ensures
        (r.version@, r.architecture@) == service_version_and_arch(
            match version_output {
                Some(o) => Some(o@),
                None => None,
            },
            major_from_service(service_name@),
        ),
        r.status == status,
        r.path == path,
        r.service_name == Some(service_name),
        r.port == port,
        r.data_dir == data_dir,
        !r.is_residual,
{
    let (version, architecture) = version_and_arch(version_output, service_name.as_str());
    PostgresqlInstance {
        version,
        architecture,
        status,
        path,
        service_name: Some(service_name),
        port,
        is_residual: false,
        data_dir,
    }
}

/// A service whose executable could not be located: the major version in its
/// name (else unknown), unknown architecture, no path, port or data directory.
pub fn service_only_instance(service_name: String, status: String) -> (r: PostgresqlInstance)
    ensures
        r.version@ == match major_from_service(service_name@) {
            Some(v) => v,
            None => VERSION_UNKNOWN@,
        },
        r.architecture@ == ARCH_UNKNOWN@,
        r.status == status,
        r.path@.len() == 0,
        r.service_name == Some(service_name),
        r.port is None,
        r.data_dir is None,
        !r.is_residual,
{
    let version = match extract_major_from_service_name(service_name.as_str()) {
        Some(v) => v,
        None => owned(VERSION_UNKNOWN),
    };
    PostgresqlInstance {
        version,
        architecture: owned(ARCH_UNKNOWN),
        status,
        path: String::new(),
        service_name: Some(service_name),
        port: None,
        is_residual: false,
        data_dir: None,
    }
}

/// An installation found by directory scan, without a service: the version its
/// `--version` line names (else [`ARCH_UNKNOWN`]) and its architecture.
pub fn unserviced_instance(stdout: &str, path: String, port: Option<u16>, data_dir: Option<String>) -> (r: PostgresqlInstance)
    ensures
        r.version@ == match version_in(stdout@) {
            Some(v) => v,
            None => ARCH_UNKNOWN@,
        },
        r.architecture@ == architecture_of(stdout@),
        r.status@ == STATUS_NO_SERVICE@,
        r.path == path,
        r.service_name is None,
        r.port == port,
        r.data_dir == data_dir,
        !r.is_residual,
{
    let version = match parse_version(stdout) {
        Some(v) => v,
        None => owned(ARCH_UNKNOWN),
    };
    PostgresqlInstance {
        version,
        architecture: parse_architecture(stdout),
        status: owned(STATUS_NO_SERVICE),
        path,
        service_name: None,
        port,
        is_residual: false,
        data_dir,
    }
}

/// Some instance already carries the service `name`.
pub fn has_service_instance(instances: &Vec<PostgresqlInstance>, name: &str) -> (r: bool)
    ensures
        r == exists|k: int| 0 <= k < instances@.len() && ((#[trigger] instances@[k]).service_name
            matches Some(s) && s@ == name@),
{
    let mut i: usize = 0;
    while i < instances.len()
        invariant
            i <= instances@.len(),
            forall|k: int| 0 <= k < i ==> !((#[trigger] instances@[k]).service_name matches Some(s) && s@ == name@),
        decreases instances.len() - i,
    {
        match &instances[i].service_name {
            Some(s) => {
                if str_eq(s.as_str(), name) {
                    return true;
                }
            },
            None => {},
        }
        i += 1;
    }
    false
}

/// The detection result for the final list of instances.
pub fn postgresql_info(instances: Vec<PostgresqlInstance>) -> (r: PostgresqlInfo)
    requires
        instances@.len() <= i32::MAX,
    ensures
        r.instances == instances,
        r.total_count as int == instances@.len(),
{
    let total_count = instances.len() as i32;
    PostgresqlInfo { instances, total_count }
}

} // verus!
