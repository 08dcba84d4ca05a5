//! Windows services: reading a service's executable from its command line,
//! naming its state, and picking services by keyword.
use vstd::prelude::*;
use crate::text::{
    trim, trim_chars, starts_with, starts_with_str, find_char, find_ch, lemma_find_char, words, words_of,
    vviews, join, join_chars, contains, contains_str, utf16, utf16_units, to_chars, from_chars, slice,
    lines, lines_of, trim_start_char, trim_start_char_chars, eq_str, push_str, push_all,
    parse_unsigned, parse_u32,
};
use crate::types::ProcessOutput;
use crate::winpath::{win_parent, parent_of};
use crate::pattern::{unicode_lower, to_lowercase};
use crate::detector_base::{STATUS_NOT_INSTALLED, STATUS_RUNNING, STATUS_STOPPED};
use crate::error::owned;

verus! {

/// UTF-16 units of `s` followed by a terminating zero.
pub fn to_wide(s: &str) -> (r: Vec<u16>)
    ensures
        r@ == utf16(s@).push(0),
{
    let v = to_chars(s);
    let mut w = utf16_units(&v);
    w.push(0);
    w
}

/// What the command line of a service says of its executable.
#[derive(Debug, Clone)]
pub enum ExePath {
    /// The executable, read without looking at the disk.
    Known(String),
    /// The first of these paths that exists; the first one when none does.
    FirstExisting(Vec<String>),
}

/// The unquoted candidates: the first word, then the first one to five words joined by spaces.
pub open spec fn exe_candidates(ws: Seq<Seq<char>>) -> Seq<Seq<char>> {
    let k = if ws.len() < 5 { ws.len() } else { 5 };
    seq![ws[0]] + Seq::new(k, |i: int| join(ws.take(i + 1), " "@))
}

/// What a service's command line says of its executable: the text inside a
/// leading pair of quotes; else, for a line of words, the candidates tried in
/// order; else the trimmed line itself.
pub open spec fn exe_path_of(command_line: Seq<char>) -> (bool, Seq<Seq<char>>) {
    let t = trim(command_line);
    let ws = words(t);
    if starts_with(t, "\""@) && find_char(t.skip(1), '"') is Some {
        (true, seq![t.subrange(1, (1 + find_char(t.skip(1), '"')->0) as int)])
    } else if ws.len() == 0 {
        (true, seq![t])
    } else {
        (false, exe_candidates(ws))
    }
}

/// The view of an [`ExePath`]: whether it is known, and the paths.
pub open spec fn exe_path_view(e: ExePath) -> (bool, Seq<Seq<char>>) {
    match e {
        ExePath::Known(p) => (true, seq![p@]),
        ExePath::FirstExisting(ps) => (false, ps.deep_view()),
    }
}

/// Reads the executable of a service from its command line (see [`exe_path_of`]).
pub fn extract_exe_path(command_line: &str) -> (r: ExePath)
    ensures
        exe_path_view(r) == exe_path_of(command_line@),
{
    let v = to_chars(command_line);
    let t = trim_chars(&v);
    if starts_with_str(&t, "\"") {
        proof {
            reveal_strlit("\"");
        }
        let rest = slice(&t, 1, t.len());
        assert(rest@ =~= t@.skip(1));
        proof {
            lemma_find_char(rest@, '"');
        }
        match find_ch(&rest, '"') {
            Some(end) => {
                let inner = slice(&t, 1, 1 + end);
                let r = ExePath::Known(from_chars(&inner));
                assert(exe_path_view(r) =~= exe_path_of(command_line@));
                return r;
            },
            None => {},
        }
    }
    let ws = words_of(&t);
    assert(vviews(ws@) == words(t@));
    if ws.len() == 0 {
        let r = ExePath::Known(from_chars(&t));
        assert(exe_path_view(r) =~= exe_path_of(command_line@));
        return r;
    }
    let ghost wv = vviews(ws@);
    let mut out: Vec<String> = Vec::new();
    assert(wv[0] == ws@[0]@);
    out.push(from_chars(&ws[0]));
    let k: usize = if ws.len() < 5 { ws.len() } else { 5 };
    let sep = to_chars(" ");
    let mut i: usize = 0;
    while i < k
        invariant
            i <= k <= ws@.len(),
            k == (if ws@.len() < 5 { ws@.len() } else { 5 }),
            wv == vviews(ws@),
            sep@ == " "@,
            out.deep_view() == seq![wv[0]] + Seq::new(i as nat, |j: int| join(wv.take(j + 1), " "@)),
        decreases k - i,
    {
        let mut prefix: Vec<Vec<char>> = Vec::new();
        let mut j: usize = 0;
        while j <= i
            invariant
                j <= i + 1,
                i < k <= ws@.len(),
                wv == vviews(ws@),
                vviews(prefix@) == wv.take(j as int),
            decreases i + 1 - j,
        {
            let ghost pb = vviews(prefix@);
            prefix.push(ws[j].clone());
            assert(vviews(prefix@) =~= pb.push(wv[j as int]));
            assert(wv.take(j + 1) =~= wv.take(j as int).push(wv[j as int]));
            j += 1;
        }
        let joined = join_chars(&prefix, &sep);
        assert(vviews(prefix@) == wv.take(i + 1));
        assert(joined@ == join(wv.take(i + 1), " "@));
        let ghost ob = out.deep_view();
        out.push(from_chars(&joined));
        assert(out.deep_view() =~= ob.push(joined@));
        assert(out.deep_view() =~= seq![wv[0]] + Seq::new((i + 1) as nat, |j: int| join(wv.take(j + 1), " "@)));
        i += 1;
    }
    let r = ExePath::FirstExisting(out);
    assert(exe_path_view(r) =~= exe_path_of(command_line@));
    r
}

/// The executable among the candidates: the first that exists (`exists[i]`
/// tells whether candidate `i` does), else the first candidate.
pub fn choose_exe_path(candidates: &Vec<String>, exists: &Vec<bool>) -> (r: String)
    requires
        candidates@.len() > 0,
        exists@.len() == candidates@.len(),
    ensures
        (exists|i: int| 0 <= i < exists@.len() && exists@[i]) ==> exists|i: int| 0 <= i < exists@.len()
            && exists@[i] && r@ == candidates@[i]@ && forall|j: int| 0 <= j < i ==> !exists@[j],
        (forall|i: int| 0 <= i < exists@.len() ==> !exists@[i]) ==> r@ == candidates@[0]@,
{
    let mut i: usize = 0;
    while i < candidates.len()
        invariant
            i <= candidates@.len(),
            exists@.len() == candidates@.len(),
            forall|j: int| 0 <= j < i ==> !exists@[j],
        decreases candidates.len() - i,
    {
        if exists[i] {
            return candidates[i].clone();
        }
        i += 1;
    }
    candidates[0].clone()
}

/// The directory of a service's executable: its parent, when it has one.
pub fn service_bin_dir(exe_path: &str) -> (r: Option<String>)
    ensures
        r.deep_view() == win_parent(exe_path@),
{
    let v = to_chars(exe_path);
    match parent_of(&v) {
        Some(p) => Some(from_chars(&p)),
        None => None,
    }
}

/// The state label of a service: not installed when its state could not be
/// read, running in state 4 (`SERVICE_RUNNING`), stopped in every other state.
pub fn service_state_label(state: Option<u32>) -> (r: &'static str)
    ensures
        r@ == match state {
            None => STATUS_NOT_INSTALLED@,
            Some(s) => if s == 4 { STATUS_RUNNING@ } else { STATUS_STOPPED@ },
        },
{
    match state {
        None => STATUS_NOT_INSTALLED,
        Some(s) => if s == 4 { STATUS_RUNNING } else { STATUS_STOPPED },
    }
}

/// The service names whose lower-cased text contains one of the keywords, in order.
pub open spec fn matching_services(names: Seq<Seq<char>>, keywords: Seq<Seq<char>>) -> Seq<Seq<char>>
    decreases names.len(),
{
    if names.len() == 0 {
        seq![]
    } else {
        let prev = matching_services(names.drop_last(), keywords);
        if exists|k: int| 0 <= k < keywords.len() && contains(unicode_lower(names.last()), #[trigger] keywords[k]) {
            prev.push(names.last())
        } else {
            prev
        }
    }
}

/// Picks the services whose name contains a keyword (see [`matching_services`]).
pub fn filter_services(names: &Vec<String>, keywords: &Vec<String>) -> (r: Vec<String>)
    ensures
        r.deep_view() == matching_services(names.deep_view(), keywords.deep_view()),
{
    let ghost ns = names.deep_view();
    let ghost ks = keywords.deep_view();
    let mut out: Vec<String> = Vec::new();
    let mut i: usize = 0;
    assert(ns.take(0) =~= Seq::<Seq<char>>::empty());
    assert(out.deep_view() =~= Seq::<Seq<char>>::empty());
    while i < names.len()
        invariant
            i <= names@.len(),
            ns == names.deep_view(),
            ks == keywords.deep_view(),
            out.deep_view() == matching_services(ns.take(i as int), ks),
        decreases names.len() - i,
    {
        assert(ns.take(i + 1).drop_last() =~= ns.take(i as int));
        assert(ns.take(i + 1).last() == names@[i as int]@);
        let lower = to_lowercase(names[i].as_str());
        let l = to_chars(lower.as_str());
        let mut k: usize = 0;
        let mut hit = false;
        while k < keywords.len()
            invariant
                k <= keywords@.len(),
                ks == keywords.deep_view(),
                l@ == unicode_lower(names@[i as int]@),
                hit == exists|q: int| 0 <= q < k && contains(l@, #[trigger] ks[q]),
            decreases keywords.len() - k,
        {
            assert(ks[k as int] == keywords@[k as int]@);
            if contains_str(&l, keywords[k].as_str()) {
                hit = true;
            }
            k += 1;
        }
        if hit {
            let ghost ob = out.deep_view();
            out.push(names[i].clone());
            assert(out.deep_view() =~= ob.push(ns[i as int]));
        }
        i += 1;
    }
    assert(ns.take(names@.len() as int) =~= ns);
    out
}

/// The process id a line of `sc queryex` names: the text after `PID`, trimmed,
/// without leading colons, trimmed again; none for another line, an empty id,
/// or `0` (a stopped service).
pub open spec fn sc_line_pid(line: Seq<char>) -> Option<Seq<char>> {
    let t = trim(line);
    if starts_with(t, "PID"@) {
        let p = trim(trim_start_char(trim(t.skip(3)), ':'));
        if p.len() > 0 && p != "0"@ {
            Some(p)
        } else {
            None
        }
    } else {
        None
    }
}

/// The process ids named by the lines, in order.
pub open spec fn sc_pids(ls: Seq<Seq<char>>) -> Seq<Seq<char>>
    decreases ls.len(),
{
    if ls.len() == 0 {
        seq![]
    } else {
        sc_pids(ls.drop_last()) + match sc_line_pid(ls.last()) {
            Some(p) => seq![p],
            None => seq![],
        }
    }
}

fn line_pid(line: &Vec<char>) -> (r: Option<Vec<char>>)
    ensures
        match r {
            Some(p) => sc_line_pid(line@) == Some(p@),
            None => sc_line_pid(line@) is None,
        },
{
    let t = trim_chars(line);
    if !starts_with_str(&t, "PID") {
        return None;
    }
    proof {
        reveal_strlit("PID");
    }
    let rest = slice(&t, 3, t.len());
    assert(rest@ =~= t@.skip(3));
    let a = trim_chars(&rest);
    let b = trim_start_char_chars(&a, ':');
    let p = trim_chars(&b);
    if p.len() > 0 && !eq_str(&p, "0") {
        Some(p)
    } else {
        None
    }
}

/// The process ids `sc queryex` printed (see [`sc_line_pid`]).
pub fn service_pids(stdout: &str) -> (r: Vec<String>)
    ensures
        r.deep_view() == sc_pids(lines(stdout@)),
{
    let v = to_chars(stdout);
    let ls = lines_of(&v);
    let ghost all = vviews(ls@);
    let mut out: Vec<String> = Vec::new();
    let mut i: usize = 0;
    assert(all.take(0) =~= Seq::<Seq<char>>::empty());
    while i < ls.len()
        invariant
            i <= ls.len(),
            all == vviews(ls@),
            all == lines(stdout@),
            out.deep_view() == sc_pids(all.take(i as int)),
        decreases ls.len() - i,
    {
        assert(all.take(i + 1).drop_last() =~= all.take(i as int));
        assert(all.take(i + 1).last() == ls@[i as int]@);
        let ghost before = out.deep_view();
        match line_pid(&ls[i]) {
            Some(p) => {
                out.push(from_chars(&p));
                assert(out.deep_view() =~= before + seq![p@]);
            },
            None => {
                assert(sc_pids(all.take(i + 1)) =~= sc_pids(all.take(i as int)));
            },
        }
        i += 1;
    }
    assert(all.take(ls.len() as int) =~= all);
    out
}

/// The report of `taskkill /F /PID`: a line for the cleaned items when it
/// exited with 0, else a line for the errors.
pub open spec fn pid_kill_report(pid: Seq<char>, service: Seq<char>, result: Result<ProcessOutput, String>) -> Result<
    Seq<char>,
    Seq<char>,
> {
    match result {
        Ok(o) => if o.exit_code == 0 {
            Ok("已终止实例进程 PID "@ + pid + " (服务 "@ + service + ")"@)
        } else {
            Err("终止 PID "@ + pid + " 失败: "@ + trim(o.stderr@))
        },
        Err(e) => Err("终止 PID "@ + pid + " 异常: "@ + e@),
    }
}

/// Words the report of [`pid_kill_report`].
pub fn report_pid_kill(pid: &str, service: &str, result: &Result<ProcessOutput, String>) -> (r: Result<String, String>)
    ensures
        match (r, pid_kill_report(pid@, service@, *result)) {
            (Ok(a), Ok(b)) => a@ == b,
            (Err(a), Err(b)) => a@ == b,
            _ => false,
        },
{
    let mut m: Vec<char> = Vec::new();
    match result {
        Ok(o) => {
            if o.exit_code == 0 {
                push_str(&mut m, "已终止实例进程 PID ");
                push_str(&mut m, pid);
                push_str(&mut m, " (服务 ");
                push_str(&mut m, service);
                push_str(&mut m, ")");
                Ok(from_chars(&m))
            } else {
                push_str(&mut m, "终止 PID ");
                push_str(&mut m, pid);
                push_str(&mut m, " 失败: ");
                let e = to_chars(o.stderr.as_str());
                let t = trim_chars(&e);
                push_all(&mut m, &t);
                Err(from_chars(&m))
            }
        },
        Err(e) => {
            push_str(&mut m, "终止 PID ");
            push_str(&mut m, pid);
            push_str(&mut m, " 异常: ");
            push_str(&mut m, e.as_str());
            Err(from_chars(&m))
        },
    }
}

/// The state number a line of `sc query` gives: the first word after the colon
/// of a `STATE` line, as a `u32`.
pub open spec fn sc_line_state(line: Seq<char>) -> Option<nat> {
    let t = trim(line);
    if starts_with(t, "STATE"@) {
        match find_char(t.skip(5), ':') {
            Some(k) => {
                let ws = words(t.skip(5).skip((k + 1) as int));
                if ws.len() > 0 {
                    parse_unsigned(ws[0], 0xffff_ffff)
                } else {
                    None
                }
            },
            None => None,
        }
    } else {
        None
    }
}

/// The state of the first `STATE` line that gives one.
pub open spec fn sc_state_of(ls: Seq<Seq<char>>) -> Option<nat>
    decreases ls.len(),
{
    if ls.len() == 0 {
        None
    } else {
        match sc_line_state(ls[0]) {
            Some(n) => Some(n),
            None => sc_state_of(ls.drop_first()),
        }
    }
}

fn line_state(line: &Vec<char>) -> (r: Option<u32>)
    ensures
        match r {
            Some(n) => sc_line_state(line@) == Some(n as nat),
            None => sc_line_state(line@) is None,
        },
{
    let t = trim_chars(line);
    if !starts_with_str(&t, "STATE") {
        return None;
    }
    proof {
        reveal_strlit("STATE");
    }
    let rest = slice(&t, 5, t.len());
    assert(rest@ =~= t@.skip(5));
    proof {
        lemma_find_char(rest@, ':');
    }
    match find_ch(&rest, ':') {
        Some(k) => {
            let after = slice(&rest, k + 1, rest.len());
            assert(after@ =~= rest@.skip(k + 1));
            let ws = words_of(&after);
            assert(vviews(ws@) == words(after@));
            if ws.len() > 0 {
                assert(vviews(ws@)[0] == ws@[0]@);
                parse_u32(&ws[0])
            } else {
                None
            }
        },
        None => None,
    }
}

/// The state number `sc query` printed for a service (4 is running), read
/// from a run that exited with 0; none when it failed or printed no state.
pub fn sc_query_state(result: &Result<ProcessOutput, String>) -> (r: Option<u32>)
    ensures
        match *result {
            Ok(o) => if o.exit_code == 0 {
                match sc_state_of(lines(o.stdout@)) {
                    Some(n) => r matches Some(x) && x as nat == n,
                    None => r is None,
                }
            } else {
                r is None
            },
            Err(_) => r is None,
        },
{
    let o = match result {
        Ok(o) => o,
        Err(_) => {
            return None;
        },
    };
    if o.exit_code != 0 {
        return None;
    }
    let v = to_chars(o.stdout.as_str());
    let ls = lines_of(&v);
    let ghost all = vviews(ls@);
    let mut i: usize = 0;
    assert(all.skip(0) =~= all);
    while i < ls.len()
        invariant
            i <= ls.len(),
            all == vviews(ls@),
            all == lines(o.stdout@),
            *result == Ok::<ProcessOutput, String>(*o),
            o.exit_code == 0,
            sc_state_of(all.skip(i as int)) == sc_state_of(all),
        decreases ls.len() - i,
    {
        assert(all.skip(i as int)[0] == ls@[i as int]@);
        assert(all.skip(i as int).drop_first() =~= all.skip(i + 1));
        match line_state(&ls[i]) {
            Some(n) => {
                return Some(n);
            },
            None => {},
        }
        i += 1;
    }
    assert(all.skip(i as int) =~= Seq::<Seq<char>>::empty());
    None
}

/// The service a line of `sc query` names: the trimmed text after the colon of
/// a `SERVICE_NAME:` line, unless empty.
pub open spec fn sc_line_service(line: Seq<char>) -> Option<Seq<char>> {
    let t = trim(line);
    if starts_with(t, "SERVICE_NAME:"@) && trim(t.skip(13)).len() > 0 {
        Some(trim(t.skip(13)))
    } else {
        None
    }
}

/// The services named by the lines, in order.
pub open spec fn sc_services(ls: Seq<Seq<char>>) -> Seq<Seq<char>>
    decreases ls.len(),
{
    if ls.len() == 0 {
        seq![]
    } else {
        sc_services(ls.drop_last()) + match sc_line_service(ls.last()) {
            Some(n) => seq![n],
            None => seq![],
        }
    }
}

fn line_service(line: &Vec<char>) -> (r: Option<Vec<char>>)
    ensures
        match r {
            Some(n) => sc_line_service(line@) == Some(n@),
            None => sc_line_service(line@) is None,
        },
{
    let t = trim_chars(line);
    if !starts_with_str(&t, "SERVICE_NAME:") {
        return None;
    }
    proof {
        reveal_strlit("SERVICE_NAME:");
    }
    let rest = slice(&t, 13, t.len());
    assert(rest@ =~= t@.skip(13));
    let n = trim_chars(&rest);
    if n.len() > 0 {
        Some(n)
    } else {
        None
    }
}

/// The services `sc query state= all` listed (see [`sc_line_service`]).
pub fn sc_service_names(stdout: &str) -> (r: Vec<String>)
    ensures
        r.deep_view() == sc_services(lines(stdout@)),
{
    let v = to_chars(stdout);
    let ls = lines_of(&v);
    let ghost all = vviews(ls@);
    let mut out: Vec<String> = Vec::new();
    let mut i: usize = 0;
    assert(all.take(0) =~= Seq::<Seq<char>>::empty());
    while i < ls.len()
        invariant
            i <= ls.len(),
            all == vviews(ls@),
            all == lines(stdout@),
            out.deep_view() == sc_services(all.take(i as int)),
        decreases ls.len() - i,
    {
        assert(all.take(i + 1).drop_last() =~= all.take(i as int));
        assert(all.take(i + 1).last() == ls@[i as int]@);
        let ghost before = out.deep_view();
        match line_service(&ls[i]) {
            Some(n) => {
                out.push(from_chars(&n));
                assert(out.deep_view() =~= before + seq![n@]);
            },
            None => {
                assert(sc_services(all.take(i + 1)) =~= sc_services(all.take(i as int)));
            },
        }
        i += 1;
    }
    assert(all.take(ls.len() as int) =~= all);
    out
}

/// The command line a line of `sc qc` gives: the trimmed text after the first
/// colon of a `BINARY_PATH_NAME` line, unless empty.
pub open spec fn sc_line_binary(line: Seq<char>) -> Option<Seq<char>> {
    let t = trim(line);
    if starts_with(t, "BINARY_PATH_NAME"@) {
        match find_char(t, ':') {
            Some(k) => if trim(t.skip((k + 1) as int)).len() > 0 {
                Some(trim(t.skip((k + 1) as int)))
            } else {
                None
            },
            None => None,
        }
    } else {
        None
    }
}

/// The command line of the first `BINARY_PATH_NAME` line that gives one.
pub open spec fn sc_binary_of(ls: Seq<Seq<char>>) -> Option<Seq<char>>
    decreases ls.len(),
{
    if ls.len() == 0 {
        None
    } else {
        match sc_line_binary(ls[0]) {
            Some(b) => Some(b),
            None => sc_binary_of(ls.drop_first()),
        }
    }
}

fn line_binary(line: &Vec<char>) -> (r: Option<Vec<char>>)
    ensures
        match r {
            Some(b) => sc_line_binary(line@) == Some(b@),
            None => sc_line_binary(line@) is None,
        },
{
    let t = trim_chars(line);
    if !starts_with_str(&t, "BINARY_PATH_NAME") {
        return None;
    }
    proof {
        lemma_find_char(t@, ':');
    }
    match find_ch(&t, ':') {
        Some(k) => {
            let rest = slice(&t, k + 1, t.len());
            assert(rest@ =~= t@.skip((k + 1) as int));
            let b = trim_chars(&rest);
            if b.len() > 0 {
                Some(b)
            } else {
                None
            }
        },
        None => None,
    }
}

/// The command line `sc qc` printed for a service, read from a run that exited
/// with 0.
pub fn sc_binary_path(result: &Result<ProcessOutput, String>) -> (r: Option<String>)
    ensures
        match *result {
            Ok(o) => if o.exit_code == 0 {
                r.deep_view() == sc_binary_of(lines(o.stdout@))
            } else {
                r is None
            },
            Err(_) => r is None,
        },
{
    let o = match result {
        Ok(o) => o,
        Err(_) => {
            return None;
        },
    };
    if o.exit_code != 0 {
        return None;
    }
    let v = to_chars(o.stdout.as_str());
    let ls = lines_of(&v);
    let ghost all = vviews(ls@);
    let mut i: usize = 0;
    assert(all.skip(0) =~= all);
    while i < ls.len()
        invariant
            i <= ls.len(),
            all == vviews(ls@),
            all == lines(o.stdout@),
            *result == Ok::<ProcessOutput, String>(*o),
            o.exit_code == 0,
            sc_binary_of(all.skip(i as int)) == sc_binary_of(all),
        decreases ls.len() - i,
    {
        assert(all.skip(i as int)[0] == ls@[i as int]@);
        assert(all.skip(i as int).drop_first() =~= all.skip(i + 1));
        match line_binary(&ls[i]) {
            Some(b) => {
                return Some(from_chars(&b));
            },
            None => {},
        }
        i += 1;
    }
    assert(all.skip(i as int) =~= Seq::<Seq<char>>::empty());
    None
}

} // verus!
