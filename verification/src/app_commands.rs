//! The application-wide commands: the directories a folder may be opened in,
//! and the checks on exported logs and settings.
use vstd::prelude::*;
use crate::text::{trim, trim_chars, utf8_len, utf8_len_capped, utf8_len_lt, to_chars, from_chars, push_str, push_all, decimal, decimal_chars, chars_eq};
use crate::winpath::is_sep;
use crate::error::owned;

verus! {

/// The components of a path: the pieces between separators, empty ones dropped.
pub open spec fn components(p: Seq<char>) -> Seq<Seq<char>>
    decreases p.len(),
{
    if p.len() == 0 {
        seq![]
    } else {
        let prev = components(p.drop_last());
        if is_sep(p.last()) {
            prev
        } else if p.len() >= 2 && !is_sep(p[p.len() - 2]) && prev.len() > 0 {
            prev.drop_last().push(prev.last().push(p.last()))
        } else {
            prev.push(seq![p.last()])
        }
    }
}

/// `base` is `target` or one of its ancestors, compared component by component.
pub open spec fn within(target: Seq<char>, base: Seq<char>) -> bool {
    let t = components(target);
    let b = components(base);
    b.len() <= t.len() && t.take(b.len() as int) == b
}

fn components_of(p: &Vec<char>) -> (r: Vec<Vec<char>>)
    ensures
        crate::text::vviews(r@) == components(p@),
{
    let mut out: Vec<Vec<char>> = Vec::new();
    let mut i: usize = 0;
    assert(p@.take(0) =~= Seq::<char>::empty());
    assert(crate::text::vviews(out@) =~= Seq::<Seq<char>>::empty());
    while i < p.len()
        invariant
            i <= p@.len(),
            crate::text::vviews(out@) == components(p@.take(i as int)),
        decreases p.len() - i,
    {
        assert(p@.take(i + 1).drop_last() =~= p@.take(i as int));
        assert(p@.take(i + 1).last() == p@[i as int]);
        let c = p[i];
        let ghost before = crate::text::vviews(out@);
        if c == '\\' || c == '/' {
        } else if i >= 1 && !(p[i - 1] == '\\' || p[i - 1] == '/') && out.len() > 0 {
            assert(p@.take(i + 1)[i - 1] == p@[i - 1]);
            let mut last = out.pop().unwrap();
            last.push(c);
            out.push(last);
            assert(crate::text::vviews(out@) =~= before.drop_last().push(before.last().push(c)));
        } else {
            proof {
                if i >= 1 {
                    assert(p@.take(i + 1)[i - 1] == p@[i - 1]);
                }
            }
            let mut piece: Vec<char> = Vec::new();
            piece.push(c);
            out.push(piece);
            assert(crate::text::vviews(out@) =~= before.push(seq![c]));
        }
        i += 1;
    }
    assert(p@.take(p@.len() as int) =~= p@);
    out
}

/// Whether an (already canonical) target lies within one of the (canonical)
/// bases; a target or base that could not be made canonical is `None` and
/// allows nothing.
pub fn is_path_allowed(target: Option<&str>, allowed_bases: &Vec<Option<String>>) -> (r: bool)
    ensures
        r == (target is Some && exists|i: int| 0 <= i < allowed_bases@.len() && (#[trigger] allowed_bases@[i] matches Some(b)
            && within(target->0@, b@))),
{
    let t = match target {
        Some(t) => t,
        None => {
            return false;
        },
    };
    let tc = components_of(&to_chars(t));
    let mut i: usize = 0;
    while i < allowed_bases.len()
        invariant
            i <= allowed_bases@.len(),
            crate::text::vviews(tc@) == components(t@),
            target == Some(t),
            forall|k: int| 0 <= k < i ==> !(#[trigger] allowed_bases@[k] matches Some(b) && within(t@, b@)),
        decreases allowed_bases.len() - i,
    {
        match &allowed_bases[i] {
            Some(b) => {
                let bc = components_of(&to_chars(b.as_str()));
                let ghost tv = crate::text::vviews(tc@);
                let ghost bv = crate::text::vviews(bc@);
                if bc.len() <= tc.len() {
                    let mut j: usize = 0;
                    let mut same = true;
                    while j < bc.len()
                        invariant
                            j <= bc@.len() <= tc@.len(),
                            tv == crate::text::vviews(tc@),
                            bv == crate::text::vviews(bc@),
                            same == (forall|q: int| 0 <= q < j ==> tv[q] == bv[q]),
                        decreases bc.len() - j,
                    {
                        assert(tv[j as int] == tc@[j as int]@);
                        assert(bv[j as int] == bc@[j as int]@);
                        if !chars_eq(&tc[j], &bc[j]) {
                            same = false;
                        }
                        j += 1;
                    }
                    if same {
                        assert(tv.take(bv.len() as int) =~= bv);
                        assert(bv == components(b@));
                        assert(within(t@, b@));
                        assert(allowed_bases@[i as int] == Some(*b));
                        assert(target->0@ == t@);
                        assert(allowed_bases@[i as int] matches Some(bb) && within(target->0@, bb@));
                        return true;
                    }
                    proof {
                        if tv.take(bv.len() as int) == bv {
                            assert forall|q: int| 0 <= q < bv.len() implies tv[q] == bv[q] by {
                                assert(tv.take(bv.len() as int)[q] == tv[q]);
                            }
                        }
                    }
                }
            },
            None => {},
        }
        i += 1;
    }
    false
}

/// What an export is refused for, or the trimmed content to write.
pub open spec fn export_check(content: Seq<char>, empty_message: Seq<char>, label: Seq<char>, limit: nat) -> Result<Seq<char>, Seq<char>> {
    let t = trim(content);
    if t.len() == 0 {
        Err(empty_message)
    } else if utf8_len(t) > limit {
        Err(label + "内容过大 ("@ + decimal(utf8_len(t)) + " 字节，上限 "@ + decimal(limit) + " 字节)"@)
    } else {
        Ok(t)
    }
}

fn check_export(content: &str, empty_message: &str, label: &str, limit: usize) -> (r: Result<String, String>)
    requires
        limit < usize::MAX,
    ensures
        match export_check(content@, empty_message@, label@, limit as nat) {
            Ok(t) => r matches Ok(x) && x@ == t,
            Err(m) => r matches Err(e) && e@ == m,
        },
{
    let v = to_chars(content);
    let t = trim_chars(&v);
    if t.len() == 0 {
        return Err(owned(empty_message));
    }
    let ts = from_chars(&t);
    let n = ts.as_str().as_bytes().len();
    if n > limit {
        let mut m: Vec<char> = Vec::new();
        push_str(&mut m, label);
        push_str(&mut m, "内容过大 (");
        let d = decimal_chars(n as u64);
        push_all(&mut m, &d);
        push_str(&mut m, " 字节，上限 ");
        let l = decimal_chars(limit as u64);
        push_all(&mut m, &l);
        push_str(&mut m, " 字节)");
        return Err(from_chars(&m));
    }
    Ok(ts)
}

/// The largest log export, in bytes: 10 MiB.
pub const MAX_LOG_EXPORT_BYTES: usize = 10485760;

/// The largest settings export, in bytes: 5 MiB.
pub const MAX_CONFIG_EXPORT_BYTES: usize = 5242880;

/// Checks the log panel's text before it is exported: it must not be blank nor
/// exceed 10 MiB once trimmed; the trimmed text is what is written.
pub fn check_log_export(content: &str) -> (r: Result<String, String>)
    ensures
        match export_check(content@, "日志为空，无可导出内容"@, "日志"@, MAX_LOG_EXPORT_BYTES as nat) {
            Ok(t) => r matches Ok(x) && x@ == t,
            Err(m) => r matches Err(e) && e@ == m,
        },
{
    check_export(content, "日志为空，无可导出内容", "日志", MAX_LOG_EXPORT_BYTES)
}

/// Checks the settings before they are exported: they must not be blank nor
/// exceed 5 MiB once trimmed; the trimmed text is what is written.
pub fn check_config_export(content: &str) -> (r: Result<String, String>)
    ensures
        match export_check(content@, "配置内容为空，无可导出"@, "配置"@, MAX_CONFIG_EXPORT_BYTES as nat) {
            Ok(t) => r matches Ok(x) && x@ == t,
            Err(m) => r matches Err(e) && e@ == m,
        },
{
    check_export(content, "配置内容为空，无可导出", "配置", MAX_CONFIG_EXPORT_BYTES)
}

/// The file an export is written to: `<prefix>-<unix seconds>.<extension>`.
pub fn export_file_name(prefix: &str, unix_secs: u64, extension: &str) -> (r: String)
    ensures
        r@ == prefix@ + "-"@ + decimal(unix_secs as nat) + "."@ + extension@,
{
    let mut s: Vec<char> = Vec::new();
    push_str(&mut s, prefix);
    push_str(&mut s, "-");
    let d = decimal_chars(unix_secs);
    push_all(&mut s, &d);
    push_str(&mut s, ".");
    push_str(&mut s, extension);
    from_chars(&s)
}

} // verus!
