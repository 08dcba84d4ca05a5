//! Reading what MySQL tools print: versions, architectures, ports from option
//! files and `netstat`, and the instances assembled from them.
use vstd::prelude::*;
use crate::text::{
    lines, lines_of, trim, trim_chars, starts_with, ends_with, starts_with_str, ends_with_str,
    contains, contains_str, parse_unsigned, parse_u16, parse_u32, words, words_of, split_char,
    split_ch, vviews, trim_start_char, trim_end_char, trim_start_char_chars, trim_end_char_chars,
    to_chars, from_chars, slice, push_str, push_all, utf8_len, utf8_len_lt, eq_str,
};
use crate::pattern::{regex_first_capture, regex_capture, unicode_lower, to_lowercase};
use crate::winpath::{win_parent, win_join, parent_of, join_path};
use crate::error::owned;
use crate::types::{MySQLInfo, MySQLInstance};
use crate::detector_base::{ARCH_UNKNOWN, VERSION_UNKNOWN, STATUS_NO_SERVICE};

verus! {

/// The pattern of a three-part version number.
pub const VERSION_PATTERN: &'static str = "(\\d+\\.\\d+\\.\\d+)";

/// The pattern of a `port = N` line, any case.
pub const PORT_PATTERN: &'static str = "(?i)^port\\s*=\\s*(\\d+)";

/// The pattern of a `--defaults-file=` option, quoted or not.
pub const DEFAULTS_FILE_PATTERN: &'static str = "(?i)--defaults-file=(?:\"([^\"]+)\"|([^\\s\"]+))";

/// A `[section]` header line.
pub open spec fn is_section(t: Seq<char>) -> bool {
    starts_with(t, "["@) && ends_with(t, "]"@)
}

/// The lower-cased name of a section header.
pub open spec fn section_name(t: Seq<char>) -> Seq<char> {
    unicode_lower(trim(t.subrange(1, t.len() - 1)))
}

/// The port of the first `port = N` line inside a `[mysqld]` section whose `N`
/// is a valid `u16`; `in_mysqld` tells whether the lines start inside one.
pub open spec fn port_scan(ls: Seq<Seq<char>>, in_mysqld: bool) -> Option<nat>
    decreases ls.len(),
{
    if ls.len() == 0 {
        None
    } else {
        let t = trim(ls[0]);
        if is_section(t) {
            port_scan(ls.drop_first(), section_name(t) == "mysqld"@)
        } else if in_mysqld && (regex_first_capture(PORT_PATTERN@, t, 1) matches Some(d)
            && parse_unsigned(d, 0xffff) is Some) {
            parse_unsigned(regex_first_capture(PORT_PATTERN@, t, 1)->0, 0xffff)
        } else {
            port_scan(ls.drop_first(), in_mysqld)
        }
    }
}

/// The port a MySQL option file gives the server (see [`port_scan`]).
pub fn parse_port_from_config(content: &str) -> (r: Option<u16>)
    ensures
        match r {
            Some(p) => port_scan(lines(content@), false) == Some(p as nat),
            None => port_scan(lines(content@), false) is None,
        },
{
    let v = to_chars(content);
    let ls = lines_of(&v);
    let ghost all = vviews(ls@);
    let mut in_mysqld = false;
    let mut i: usize = 0;
    assert(all.skip(0) =~= all);
    while i < ls.len()
        invariant
            i <= ls.len(),
            all == vviews(ls@),
            all == lines(content@),
            port_scan(all, false) == port_scan(all.skip(i as int), in_mysqld),
        decreases ls.len() - i,
    {
        assert(all.skip(i as int)[0] == ls@[i as int]@);
        assert(all.skip(i as int).drop_first() =~= all.skip(i + 1));
        let t = trim_chars(&ls[i]);
        if starts_with_str(&t, "[") && ends_with_str(&t, "]") {
            proof {
                reveal_strlit("[");
                reveal_strlit("]");
                assert(t@.take(1)[0] == '[');
                assert(t@.skip(t@.len() - 1)[0] == ']');
            }
            let inner = slice(&t, 1, t.len() - 1);
            let name = trim_chars(&inner);
            let lower = to_lowercase(from_chars(&name).as_str());
            let lv = to_chars(lower.as_str());
            in_mysqld = eq_str(&lv, "mysqld");
        } else if in_mysqld {
            let ts = from_chars(&t);
            match regex_capture(PORT_PATTERN, ts.as_str(), 1) {
                Some(d) => {
                    let dv = to_chars(d.as_str());
                    match parse_u16(&dv) {
                        Some(p) => {
                            return Some(p);
                        },
                        None => {},
                    }
                },
                None => {},
            }
        }
        i += 1;
    }
    assert(all.skip(ls.len() as int) =~= Seq::<Seq<char>>::empty());
    None
}

/// The first three-part version number in a tool's output.
pub fn parse_version(output: &str) -> (r: Option<String>)
    ensures
        r.deep_view() == regex_first_capture(VERSION_PATTERN@, output@, 1),
{
    regex_capture(VERSION_PATTERN, output, 1)
}

/// The architecture a `--version` line names.
pub open spec fn architecture_of(output: Seq<char>) -> Seq<char> {
    if contains(output, "x86_64"@) || contains(output, "Win64"@) {
        "x86_64"@
    } else if contains(output, "i686"@) || contains(output, "Win32"@) {
        "x86"@
    } else {
        "unknown"@
    }
}

/// The architecture a `--version` line names: `x86_64`, `x86` or `unknown`.
pub fn parse_architecture(output: &str) -> (r: String)
    ensures
        r@ == architecture_of(output@),
{
    let v = to_chars(output);
    if contains_str(&v, "x86_64") || contains_str(&v, "Win64") {
        owned("x86_64")
    } else if contains_str(&v, "i686") || contains_str(&v, "Win32") {
        owned("x86")
    } else {
        owned("unknown")
    }
}

/// The text after the last `c` (all of `s` when there is none).
pub open spec fn after_last(s: Seq<char>, c: char) -> Seq<char>
    decreases s.len(),
{
    if s.len() == 0 {
        s
    } else if s.last() == c {
        seq![]
    } else {
        after_last(s.drop_last(), c).push(s.last())
    }
}

fn after_last_chars(s: &Vec<char>, c: char) -> (r: Vec<char>)
    ensures
        r@ == after_last(s@, c),
{
    let mut i: usize = s.len();
    while i > 0 && s[i - 1] != c
        invariant
            i <= s.len(),
            forall|j: int| i <= j < s.len() ==> s@[j] != c,
        decreases i,
    {
        i -= 1;
    }
    let r = slice(s, i, s.len());
    proof {
        lemma_after_last(s@, c, i as int);
    }
    r
}

proof fn lemma_after_last(s: Seq<char>, c: char, i: int)
    requires
        0 <= i <= s.len(),
        forall|j: int| i <= j < s.len() ==> s[j] != c,
        i == 0 || s[i - 1] == c,
    ensures
        after_last(s, c) == s.subrange(i, s.len() as int),
    decreases s.len(),
{
    if s.len() == 0 {
    } else if s.last() == c {
        assert(i == s.len());
    } else {
        lemma_after_last(s.drop_last(), c, i);
        assert(s.subrange(i, s.len() as int) =~= s.drop_last().subrange(i, s.len() - 1).push(s.last()));
    }
}

/// The port a `netstat -ano` line shows `pid` listening on: the line says
/// `LISTENING`, has at least five words, ends with the pid, and its second word
/// ends with `:<port>`.
pub open spec fn listening_port(line: Seq<char>, pid: u32) -> Option<nat> {
    let ws = words(line);
    if !contains(line, "LISTENING"@) || ws.len() < 5 {
        None
    } else if parse_unsigned(ws.last(), 0xffff_ffff) != Some(pid as nat) {
        None
    } else {
        parse_unsigned(after_last(ws[1], ':'), 0xffff)
    }
}

/// The port `pid` listens on according to one `netstat -ano` line (see [`listening_port`]).
pub fn parse_listening_port_for_pid(line: &str, pid: u32) -> (r: Option<u16>)
    ensures
        match r {
            Some(p) => listening_port(line@, pid) == Some(p as nat),
            None => listening_port(line@, pid) is None,
        },
{
    let v = to_chars(line);
    if !contains_str(&v, "LISTENING") {
        return None;
    }
    let ws = words_of(&v);
    assert(vviews(ws@) == words(line@));
    if ws.len() < 5 {
        return None;
    }
    assert(vviews(ws@).last() == ws@[ws.len() - 1]@);
    let line_pid = match parse_u32(&ws[ws.len() - 1]) {
        Some(p) => p,
        None => {
            return None;
        },
    };
    if line_pid != pid {
        return None;
    }
    assert(vviews(ws@)[1] == ws@[1]@);
    let port = after_last_chars(&ws[1], ':');
    parse_u16(&port)
}

/// The pids listed by `tasklist /FO CSV /NH`: the second comma-separated field
/// of each line, trimmed and unquoted, when it parses as a `u32`.
pub open spec fn csv_pids(ls: Seq<Seq<char>>) -> Seq<nat>
    decreases ls.len(),
{
    if ls.len() == 0 {
        seq![]
    } else {
        let prev = csv_pids(ls.drop_last());
        let parts = split_char(ls.last(), ',');
        if parts.len() >= 2 && parse_unsigned(
            trim_end_char(trim_start_char(trim(parts[1]), '"'), '"'),
            0xffff_ffff,
        ) is Some {
            prev.push(
                parse_unsigned(trim_end_char(trim_start_char(trim(parts[1]), '"'), '"'), 0xffff_ffff)->0,
            )
        } else {
            prev
        }
    }
}

/// The pids in `tasklist` CSV output (see [`csv_pids`]).
pub fn parse_tasklist_pids(stdout: &str) -> (r: Vec<u32>)
    ensures
        r@.len() == csv_pids(lines(stdout@)).len(),
        forall|k: int| 0 <= k < r@.len() ==> r@[k] as nat == #[trigger] csv_pids(lines(stdout@))[k],
{
    let v = to_chars(stdout);
    let ls = lines_of(&v);
    let ghost all = vviews(ls@);
    let mut out: Vec<u32> = Vec::new();
    let mut i: usize = 0;
    assert(all.take(0) =~= Seq::<Seq<char>>::empty());
    while i < ls.len()
        invariant
            i <= ls.len(),
            all == vviews(ls@),
            out@.len() == csv_pids(all.take(i as int)).len(),
            forall|k: int| 0 <= k < out@.len() ==> out@[k] as nat == #[trigger] csv_pids(all.take(i as int))[k],
        decreases ls.len() - i,
    {
        assert(all.take(i + 1).drop_last() =~= all.take(i as int));
        assert(all.take(i + 1).last() == ls@[i as int]@);
        let parts = split_ch(&ls[i], ',');
        assert(vviews(parts@) == split_char(ls@[i as int]@, ','));
        if parts.len() >= 2 {
            assert(vviews(parts@)[1] == parts@[1]@);
            let t = trim_chars(&parts[1]);
            let a = trim_start_char_chars(&t, '"');
            let b = trim_end_char_chars(&a, '"');
            match parse_u32(&b) {
                Some(p) => {
                    out.push(p);
                },
                None => {},
            }
        }
        i += 1;
    }
    assert(all.take(ls.len() as int) =~= all);
    out
}

/// The path the service's `--defaults-file=` option names in `sc qc` output.
pub open spec fn defaults_file_in(stdout: Seq<char>) -> Option<Seq<char>> {
    match regex_first_capture(DEFAULTS_FILE_PATTERN@, stdout, 1) {
        Some(p) => Some(p),
        None => regex_first_capture(DEFAULTS_FILE_PATTERN@, stdout, 2),
    }
}

/// The option file a service is configured with, read from `sc qc` output.
pub fn defaults_file_from_service_config(stdout: &str) -> (r: Option<String>)
    ensures
        r.deep_view() == defaults_file_in(stdout@),
{
    match regex_capture(DEFAULTS_FILE_PATTERN, stdout, 1) {
        Some(p) => Some(p),
        None => regex_capture(DEFAULTS_FILE_PATTERN, stdout, 2),
    }
}

/// The service-name rule of the option-file search applies: `MySQL` followed by
/// at least two more bytes.
pub open spec fn service_folder_rule(svc: Seq<char>) -> bool {
    starts_with(svc, "MySQL"@) && utf8_len(svc) > 5 && utf8_len(svc.skip(5)) >= 2
}

/// The folder under `C:\ProgramData\MySQL` searched for a service:
/// `MySQL Server <d>.<e>` for `MySQL<d><e>...`, else the service name.
pub open spec fn service_config_folder(svc: Seq<char>) -> Seq<char> {
    if service_folder_rule(svc) {
        "MySQL Server "@ + seq![svc[5]] + "."@ + seq![svc[6]]
    } else {
        svc
    }
}

/// The byte slicing of the rule would cut a character in two.
pub open spec fn config_folder_panics(svc: Seq<char>) -> bool {
    service_folder_rule(svc) && ((svc[5] as u32) >= 0x80 || (svc[6] as u32) >= 0x80)
}

/// Whether [`config_folder_panics`] holds: the option-file search would cut a
/// character of this service name in two.
pub fn service_folder_would_panic(svc: &str) -> (r: bool)
    ensures
        r == config_folder_panics(svc@),
{
    let v = to_chars(svc);
    if starts_with_str(&v, "MySQL") && !utf8_len_lt(&v, 6) {
        proof {
            reveal_strlit("MySQL");
        }
        let rest = slice(&v, 5, v.len());
        assert(rest@ =~= svc@.skip(5));
        if !utf8_len_lt(&rest, 2) {
            proof {
                crate::text::lemma_utf8_len_first(rest@);
            }
            return (v[5] as u32) >= 0x80 || (v[6] as u32) >= 0x80;
        }
    }
    false
}

fn service_config_folder_of(svc: &str) -> (r: Vec<char>)
    requires
        !config_folder_panics(svc@),
    ensures
        r@ == service_config_folder(svc@),
{
    let v = to_chars(svc);
    if starts_with_str(&v, "MySQL") && !utf8_len_lt(&v, 6) {
        proof {
            reveal_strlit("MySQL");
        }
        let rest = slice(&v, 5, v.len());
        assert(rest@ =~= svc@.skip(5));
        if !utf8_len_lt(&rest, 2) {
            proof {
                crate::text::lemma_utf8_len_first(rest@);
                crate::text::lemma_utf8_len_first(rest@.drop_first());
            }
            let mut s: Vec<char> = Vec::new();
            push_str(&mut s, "MySQL Server ");
            s.push(v[5]);
            s.push('.');
            s.push(v[6]);
            proof {
                reveal_strlit(".");
            }
            assert(s@ =~= service_config_folder(svc@));
            return s;
        }
    }
    v
}

/// The option files looked for, in order: `my.ini` and `my.cnf` beside the
/// `bin` directory, in it, in the service's folder under `C:\ProgramData\MySQL`,
/// in `C:\ProgramData\MySQL` itself, and in each of its sub-directories `subdirs`.
pub open spec fn config_candidates(bin_path: Seq<char>, service: Option<Seq<char>>, subdirs: Seq<Seq<char>>) -> Seq<Seq<char>> {
    let pd = "C:\\ProgramData\\MySQL"@;
    let beside = match win_parent(bin_path) {
        Some(p) => seq![win_join(p, "my.ini"@), win_join(p, "my.cnf"@)],
        None => seq![],
    };
    let inside = seq![win_join(bin_path, "my.ini"@), win_join(bin_path, "my.cnf"@)];
    let svc = match service {
        Some(s) => {
            let d = win_join(pd, service_config_folder(s));
            seq![win_join(d, "my.ini"@), win_join(d, "my.cnf"@)]
        },
        None => seq![],
    };
    let root = seq![win_join(pd, "my.ini"@), win_join(pd, "my.cnf"@)];
    beside + inside + svc + root + subdir_candidates(subdirs)
}

/// `my.ini` and `my.cnf` in each directory, in order.
pub open spec fn subdir_candidates(dirs: Seq<Seq<char>>) -> Seq<Seq<char>>
    decreases dirs.len(),
{
    if dirs.len() == 0 {
        seq![]
    } else {
        subdir_candidates(dirs.drop_last()) + seq![
            win_join(dirs.last(), "my.ini"@),
            win_join(dirs.last(), "my.cnf"@),
        ]
    }
}

fn push_pair(out: &mut Vec<String>, dir: &Vec<char>)
    ensures
        final(out).deep_view() == old(out).deep_view() + seq![
            win_join(dir@, "my.ini"@),
            win_join(dir@, "my.cnf"@),
        ],
{
    let ghost before = out.deep_view();
    let ini = to_chars("my.ini");
    let cnf = to_chars("my.cnf");
    let a = join_path(dir, &ini);
    let b = join_path(dir, &cnf);
    out.push(from_chars(&a));
    out.push(from_chars(&b));
    assert(out.deep_view() =~= before + seq![win_join(dir@, "my.ini"@), win_join(dir@, "my.cnf"@)]);
}

/// The option files looked for around an installation (see [`config_candidates`]).
pub fn collect_config_file_candidates(bin_path: &str, service_name: Option<&str>, subdirs: &Vec<String>) -> (r: Vec<String>)
    requires
        service_name matches Some(s) ==> !config_folder_panics(s@),
    ensures
        r.deep_view() == config_candidates(
            bin_path@,
            match service_name {
                Some(s) => Some(s@),
                None => None,
            },
            subdirs.deep_view(),
        ),
{
    let bin = to_chars(bin_path);
    let pd = to_chars("C:\\ProgramData\\MySQL");
    let mut out: Vec<String> = Vec::new();
    match parent_of(&bin) {
        Some(p) => push_pair(&mut out, &p),
        None => {},
    }
    push_pair(&mut out, &bin);
    match service_name {
        Some(s) => {
            let f = service_config_folder_of(s);
            let d = join_path(&pd, &f);
            push_pair(&mut out, &d);
        },
        None => {},
    }
    push_pair(&mut out, &pd);
    let ghost head = out.deep_view();
    let ghost ds = subdirs.deep_view();
    let mut i: usize = 0;
    assert(ds.take(0) =~= Seq::<Seq<char>>::empty());
    assert(head + subdir_candidates(ds.take(0)) =~= head);
    while i < subdirs.len()
        invariant
            i <= subdirs.len(),
            ds == subdirs.deep_view(),
            out.deep_view() == head + subdir_candidates(ds.take(i as int)),
        decreases subdirs.len() - i,
    {
        assert(ds.take(i + 1).drop_last() =~= ds.take(i as int));
        assert(ds.take(i + 1).last() == subdirs@[i as int]@);
        let d = to_chars(subdirs[i].as_str());
        push_pair(&mut out, &d);
        assert(out.deep_view() =~= head + subdir_candidates(ds.take(i + 1)));
        i += 1;
    }
    assert(ds.take(subdirs.len() as int) =~= ds);
    out
}

/// An instance read from a `--version` line: the version it names (else
/// [`ARCH_UNKNOWN`]), its architecture, and the given status, path, service and port.
pub fn instance_from_version_output(
    stdout: &str,
    status: String,
    path: String,
    service_name: Option<String>,
    port: Option<u16>,
) -> (r: MySQLInstance)
    ensures
        r.version@ == match regex_first_capture(VERSION_PATTERN@, stdout@, 1) {
            Some(v) => v,
            None => ARCH_UNKNOWN@,
        },
        r.architecture@ == architecture_of(stdout@),
        r.status == status,
        r.path == path,
        r.service_name == service_name,
        r.port == port,
        !r.is_residual,
{
    let version = match parse_version(stdout) {
        Some(v) => v,
        None => owned(ARCH_UNKNOWN),
    };
    let architecture = parse_architecture(stdout);
    MySQLInstance { version, architecture, status, path, service_name, port, is_residual: false }
}

/// A service found without a readable installation: unknown version and
/// architecture, no path, no port.
pub fn service_only_instance(service_name: String, status: String) -> (r: MySQLInstance)
    ensures
        r.version@ == VERSION_UNKNOWN@,
        r.architecture@ == ARCH_UNKNOWN@,
        r.status == status,
        r.path@.len() == 0,
        r.service_name == Some(service_name),
        r.port is None,
        !r.is_residual,
{
    MySQLInstance {
        version: owned(VERSION_UNKNOWN),
        architecture: owned(ARCH_UNKNOWN),
        status,
        path: String::new(),
        service_name: Some(service_name),
        port: None,
        is_residual: false,
    }
}

/// Some instance already carries the service `name`.
pub fn has_service_instance(instances: &Vec<MySQLInstance>, name: &str) -> (r: bool)
    ensures
        r == exists|k: int| 0 <= k < instances@.len() && ((#[trigger] instances@[k]).service_name
            matches Some(s) && s@ == name@),
{
    let mut i: usize = 0;
    while i < instances.len()
        invariant
            i <= instances@.len(),
            forall|k: int| 0 <= k < i ==> !((#[trigger] instances@[k]).service_name matches Some(s)
                && s@ == name@),
        decreases instances.len() - i,
    {
        match &instances[i].service_name {
            Some(s) => {
                if crate::text::str_eq(s.as_str(), name) {
                    return true;
                }
            },
            None => {},
        }
        i += 1;
    }
    false
}

/// Marks `path` as processed; true when it was not processed before.
pub fn first_visit(processed: &mut Vec<String>, path: &str) -> (r: bool)
    ensures
        r == !(exists|k: int| 0 <= k < old(processed)@.len() && (#[trigger] old(processed)@[k])@
            == path@),
        r ==> final(processed).deep_view() == old(processed).deep_view().push(path@),
        !r ==> final(processed).deep_view() == old(processed).deep_view(),
{
    let mut i: usize = 0;
    while i < processed.len()
        invariant
            i <= processed@.len(),
            forall|k: int| 0 <= k < i ==> (#[trigger] processed@[k])@ != path@,
        decreases processed.len() - i,
    {
        if crate::text::str_eq(processed[i].as_str(), path) {
            return false;
        }
        i += 1;
    }
    let ghost before = processed.deep_view();
    processed.push(owned(path));
    assert(processed.deep_view() =~= before.push(path@));
    true
}

/// The names tried for a service when nothing else was found.
pub fn common_service_names() -> (r: Vec<String>)
    ensures
        r.deep_view() == seq!["MySQL80"@, "MySQL57"@, "MySQL56"@, "MySQL55"@, "MySQL"@],
{
    let mut r: Vec<String> = Vec::new();
    r.push(owned("MySQL80"));
    r.push(owned("MySQL57"));
    r.push(owned("MySQL56"));
    r.push(owned("MySQL55"));
    r.push(owned("MySQL"));
    assert(r.deep_view() =~= seq!["MySQL80"@, "MySQL57"@, "MySQL56"@, "MySQL55"@, "MySQL"@]);
    r
}

/// The directories searched for installations that have no service.
pub fn install_search_roots() -> (r: Vec<String>)
    ensures
        r.deep_view() == seq![
            "C:\\Program Files\\MySQL"@,
            "C:\\Program Files (x86)\\MySQL"@,
            "C:\\Program Files\\MariaDB"@,
            "C:\\Program Files (x86)\\MariaDB"@,
            "C:\\xampp\\mysql"@,
            "C:\\wamp64\\bin\\mysql"@,
            "C:\\wamp\\bin\\mysql"@,
            "C:\\appserv\\mysql"@,
        ],
{
    let mut r: Vec<String> = Vec::new();
    r.push(owned("C:\\Program Files\\MySQL"));
    r.push(owned("C:\\Program Files (x86)\\MySQL"));
    r.push(owned("C:\\Program Files\\MariaDB"));
    r.push(owned("C:\\Program Files (x86)\\MariaDB"));
    r.push(owned("C:\\xampp\\mysql"));
    r.push(owned("C:\\wamp64\\bin\\mysql"));
    r.push(owned("C:\\wamp\\bin\\mysql"));
    r.push(owned("C:\\appserv\\mysql"));
    assert(r.deep_view() =~= seq![
        "C:\\Program Files\\MySQL"@,
        "C:\\Program Files (x86)\\MySQL"@,
        "C:\\Program Files\\MariaDB"@,
        "C:\\Program Files (x86)\\MariaDB"@,
        "C:\\xampp\\mysql"@,
        "C:\\wamp64\\bin\\mysql"@,
        "C:\\wamp\\bin\\mysql"@,
        "C:\\appserv\\mysql"@,
    ]);
    r
}

/// An installation found by directory scan, without a service.
pub fn unserviced_instance(stdout: &str, path: String, port: Option<u16>) -> (r: MySQLInstance)
    ensures
        r.version@ == match regex_first_capture(VERSION_PATTERN@, stdout@, 1) {
            Some(v) => v,
            None => ARCH_UNKNOWN@,
        },
        r.architecture@ == architecture_of(stdout@),
        r.status@ == STATUS_NO_SERVICE@,
        r.path == path,
        r.service_name is None,
        r.port == port,
        !r.is_residual,
{
    instance_from_version_output(stdout, owned(STATUS_NO_SERVICE), path, None, port)
}

/// The detection result for the final list of instances.
pub fn mysql_info(instances: Vec<MySQLInstance>) -> (r: MySQLInfo)
    requires
        instances@.len() <= i32::MAX,
    ensures
        r.instances == instances,
        r.total_count as int == instances@.len(),
{
    let total_count = instances.len() as i32;
    MySQLInfo { instances, total_count }
}

} // verus!
