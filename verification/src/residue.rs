//! Shared decisions of the residue clean-ups: the summary a clean-up ends
//! with, and deleting registry keys (order, paths, tolerated failures).
use vstd::prelude::*;
use crate::text::{
    contains, contains_str, decimal, decimal_chars, from_chars, lines, lines_of, push_all, push_str,
    replace_all, replaced_all, starts_with, starts_with_str, to_chars, trim, trim_chars, vviews, slice,
    text_order, lemma_text_order_antisym, lemma_text_order_trans, compare_chars,
};
use crate::pattern::{to_lowercase, unicode_lower};
use crate::error::owned;
use crate::mysql::cleaner::{ps_quote, ps_quoted};
use crate::types::{CleanOptions, CleanResult, ProcessOutput};

verus! {

/// The summary of a clean-up of `label`: a partial failure with the counts
/// when anything failed, "nothing found" when nothing was removed, otherwise
/// completion.
pub open spec fn clean_message(label: Seq<char>, cleaned: nat, failed: nat) -> Seq<char> {
    if failed > 0 {
        label + " 部分清理失败（成功 "@ + decimal(cleaned) + " 项，失败 "@ + decimal(failed) + " 项）"@
    } else if cleaned == 0 {
        label + " 未发现需要清理的残留"@
    } else {
        label + " 残留清理完成"@
    }
}

/// The result of a clean-up of `label` from what it removed and what failed
/// (see [`clean_message`]); it succeeded when nothing failed.
pub fn finish_clean_result(label: &str, cleaned_items: Vec<String>, errors: Vec<String>) -> (r: CleanResult)
    ensures
        r.success == (errors@.len() == 0),
        r.message@ == clean_message(label@, cleaned_items@.len(), errors@.len()),
        r.cleaned_items == cleaned_items,
        r.errors == errors,
{
    let mut m: Vec<char> = Vec::new();
    push_str(&mut m, label);
    if errors.len() > 0 {
        push_str(&mut m, " 部分清理失败（成功 ");
        let c = decimal_chars(cleaned_items.len() as u64);
        push_all(&mut m, &c);
        push_str(&mut m, " 项，失败 ");
        let f = decimal_chars(errors.len() as u64);
        push_all(&mut m, &f);
        push_str(&mut m, " 项）");
    } else if cleaned_items.len() == 0 {
        push_str(&mut m, " 未发现需要清理的残留");
    } else {
        push_str(&mut m, " 残留清理完成");
    }
    CleanResult { success: errors.len() == 0, message: from_chars(&m), cleaned_items, errors }
}

/// A failed deletion that only says the key is already gone (its parent was
/// deleted first): the lower-cased message says it was not found.
pub open spec fn key_already_gone(message: Seq<char>) -> bool {
    let l = unicode_lower(message);
    contains(l, "找不到"@) || contains(l, "不存在"@) || contains(l, "not found"@) || contains(l, "does not exist"@)
}

/// The failure reported for a key whose deletion failed, unless the key was
/// already gone (see [`key_already_gone`]).
pub fn registry_error_item(key: &str, message: &str) -> (r: Option<String>)
    ensures
        match r {
            Some(item) => !key_already_gone(message@) && item@ == "删除注册表 "@ + key@ + " 失败: "@ + message@,
            None => key_already_gone(message@),
        },
{
    let l = to_lowercase(message);
    let lv = to_chars(l.as_str());
    if contains_str(&lv, "找不到") || contains_str(&lv, "不存在") || contains_str(&lv, "not found") || contains_str(
        &lv,
        "does not exist",
    ) {
        return None;
    }
    let mut m: Vec<char> = Vec::new();
    push_str(&mut m, "删除注册表 ");
    push_str(&mut m, key);
    push_str(&mut m, " 失败: ");
    push_str(&mut m, message);
    Some(from_chars(&m))
}

pub open spec fn uninstall_keys(keys: Seq<Seq<char>>) -> Seq<Seq<char>> {
    keys.filter(|k: Seq<char>| contains(k, "Uninstall"@))
}

pub open spec fn other_keys(keys: Seq<Seq<char>>) -> Seq<Seq<char>> {
    keys.filter(|k: Seq<char>| !contains(k, "Uninstall"@))
}

/// Whether a key lies under an `Uninstall` key (a failed deletion of such a key
/// is followed by deleting what is under it, one subkey at a time).
pub fn is_uninstall_key(key: &str) -> (r: bool)
    ensures
        r == contains(key@, "Uninstall"@),
{
    let k = to_chars(key);
    contains_str(&k, "Uninstall")
}

/// The order keys are deleted in: those under an `Uninstall` key first, then
/// the rest, each group in its original order.
pub fn registry_delete_order(keys: &Vec<String>) -> (r: Vec<String>)
    ensures
        r.deep_view() == uninstall_keys(keys.deep_view()) + other_keys(keys.deep_view()),
{
    let ghost all = keys.deep_view();
    let mut first: Vec<String> = Vec::new();
    let mut rest: Vec<String> = Vec::new();
    let mut i: usize = 0;
    assert(all.take(0) =~= Seq::<Seq<char>>::empty());
    assert(first.deep_view() =~= Seq::<Seq<char>>::empty());
    assert(rest.deep_view() =~= Seq::<Seq<char>>::empty());
    while i < keys.len()
        invariant
            i <= keys@.len(),
            all == keys.deep_view(),
            first.deep_view() == uninstall_keys(all.take(i as int)),
            rest.deep_view() == other_keys(all.take(i as int)),
        decreases keys.len() - i,
    {
        let ghost prefix = all.take(i as int);
        assert(all.take(i + 1) =~= prefix.push(all[i as int]));
        assert(all[i as int] == keys@[i as int]@);
        proof {
            prefix.lemma_filter_push(all[i as int], |k: Seq<char>| contains(k, "Uninstall"@));
            prefix.lemma_filter_push(all[i as int], |k: Seq<char>| !contains(k, "Uninstall"@));
        }
        let kv = to_chars(keys[i].as_str());
        if contains_str(&kv, "Uninstall") {
            let ghost before = first.deep_view();
            first.push(keys[i].clone());
            assert(first.deep_view() =~= before.push(all[i as int]));
        } else {
            let ghost before = rest.deep_view();
            rest.push(keys[i].clone());
            assert(rest.deep_view() =~= before.push(all[i as int]));
        }
        i += 1;
    }
    assert(all.take(keys@.len() as int) =~= all);
    let ghost f = first.deep_view();
    let ghost o = rest.deep_view();
    let mut j: usize = 0;
    while j < rest.len()
        invariant
            j <= rest@.len(),
            o == rest.deep_view(),
            first.deep_view() == f + o.take(j as int),
        decreases rest.len() - j,
    {
        let ghost before = first.deep_view();
        first.push(rest[j].clone());
        assert(o.take(j + 1) =~= o.take(j as int).push(o[j as int]));
        assert(first.deep_view() =~= before.push(o[j as int]));
        j += 1;
    }
    assert(o.take(o.len() as int) =~= o);
    first
}

/// A key as PowerShell's registry provider names it: every `HKLM` (or
/// `HKCU`) written as a drive, `HKLM:` (or `HKCU:`), when the key starts
/// with it; any other key unchanged.
pub open spec fn ps_registry_path(key: Seq<char>) -> Seq<char> {
    if starts_with(key, "HKLM"@) {
        replaced_all(key, "HKLM"@, "HKLM:"@)
    } else if starts_with(key, "HKCU"@) {
        replaced_all(key, "HKCU"@, "HKCU:"@)
    } else {
        key
    }
}

/// The registry provider path of a key (see [`ps_registry_path`]).
pub fn registry_provider_path(key: &str) -> (r: String)
    ensures
        r@ == ps_registry_path(key@),
{
    let k = to_chars(key);
    proof {
        reveal_strlit("HKLM");
        reveal_strlit("HKCU");
    }
    if starts_with_str(&k, "HKLM") {
        let r = replace_all(&k, &to_chars("HKLM"), &to_chars("HKLM:"));
        from_chars(&r)
    } else if starts_with_str(&k, "HKCU") {
        let r = replace_all(&k, &to_chars("HKCU"), &to_chars("HKCU:"));
        from_chars(&r)
    } else {
        owned(key)
    }
}

/// The script that deletes a key with everything under it and prints
/// `SUCCESS`, or `ERROR:` and the reason.
pub open spec fn delete_key_script(key: Seq<char>) -> Seq<char> {
    "\n        try {\n            Remove-Item -Path '"@ + ps_quoted(ps_registry_path(key))
        + "' -Recurse -Force -ErrorAction Stop\n            Write-Output 'SUCCESS'\n        } catch {\n            Write-Output \"ERROR: $($_.Exception.Message)\"\n        }\n        "@
}

/// Builds the script of [`delete_key_script`].
pub fn build_delete_key_script(key: &str) -> (r: String)
    ensures
        r@ == delete_key_script(key@),
{
    let p = registry_provider_path(key);
    let q = ps_quote(p.as_str());
    let mut s: Vec<char> = Vec::new();
    push_str(&mut s, "\n        try {\n            Remove-Item -Path '");
    push_str(&mut s, q.as_str());
    push_str(&mut s, "' -Recurse -Force -ErrorAction Stop\n            Write-Output 'SUCCESS'\n        } catch {\n            Write-Output \"ERROR: $($_.Exception.Message)\"\n        }\n        ");
    from_chars(&s)
}

/// How deleting a key ended: `reg delete` succeeding is enough; otherwise the
/// PowerShell attempt decides: `SUCCESS` on its own line, else its trimmed
/// error output (or standard output when that is empty); a PowerShell that
/// could not run leaves every method failed.
pub open spec fn delete_key_outcome(reg: Result<ProcessOutput, String>, ps: Result<ProcessOutput, String>) -> Result<(), Seq<char>> {
    if reg matches Ok(o) && o.exit_code == 0 {
        Ok(())
    } else {
        match ps {
            Ok(o) => if trim(o.stdout@) == "SUCCESS"@ {
                Ok(())
            } else if trim(o.stderr@).len() == 0 {
                Err("PowerShell 删除失败: "@ + trim(o.stdout@))
            } else {
                Err("PowerShell 删除失败: "@ + trim(o.stderr@))
            },
            Err(_) => Err("所有删除方法都失败了"@),
        }
    }
}

/// `reg delete` succeeded, so PowerShell need not be tried.
pub fn reg_delete_succeeded(reg: &Result<ProcessOutput, String>) -> (r: bool)
    ensures
        r == (reg matches Ok(o) && o.exit_code == 0),
{
    match reg {
        Ok(o) => o.exit_code == 0,
        Err(_) => false,
    }
}

/// How deleting a key ended (see [`delete_key_outcome`]).
pub fn delete_key_result(reg: &Result<ProcessOutput, String>, ps: &Result<ProcessOutput, String>) -> (r: Result<(), String>)
    ensures
        match delete_key_outcome(*reg, *ps) {
            Ok(()) => r is Ok,
            Err(m) => r matches Err(e) && e@ == m,
        },
{
    if reg_delete_succeeded(reg) {
        return Ok(());
    }
    match ps {
        Ok(o) => {
            let out = trim_chars(&to_chars(o.stdout.as_str()));
            proof {
                reveal_strlit("SUCCESS");
            }
            if crate::text::eq_str(&out, "SUCCESS") {
                return Ok(());
            }
            let err = trim_chars(&to_chars(o.stderr.as_str()));
            let mut m: Vec<char> = Vec::new();
            push_str(&mut m, "PowerShell 删除失败: ");
            if err.len() == 0 {
                push_all(&mut m, &out);
            } else {
                push_all(&mut m, &err);
            }
            Err(from_chars(&m))
        },
        Err(_) => Err(owned("所有删除方法都失败了")),
    }
}

/// One step of a database clean-up, in the order they run.
#[derive(Debug, Clone, Copy, PartialEq, Eq, Structural)]
pub enum CleanupStep {
    /// End the instance's processes.
    KillProcesses,
    /// Stop and delete the instance's service.
    RemoveServices,
    /// End whatever processes are left, and wait for them to go.
    KillLeftovers,
    /// Delete the instance's registry keys.
    CleanRegistry,
    /// Delete the instance's directories.
    RemoveDirectories,
    /// Delete its Start-menu shortcuts.
    CleanStartMenu,
    /// Drop its entries from `PATH`.
    CleanPath,
}

/// The steps of a clean-up with `o`: processes, services, leftover processes,
/// the registry when any registry option asks for it, directories (always),
/// Start-menu shortcuts, `PATH`.
pub open spec fn cleanup_steps(o: CleanOptions, registry_wanted: bool) -> Seq<CleanupStep> {
    (if o.kill_processes { seq![CleanupStep::KillProcesses] } else { seq![] })
        + (if o.remove_services { seq![CleanupStep::RemoveServices] } else { seq![] })
        + (if o.kill_processes { seq![CleanupStep::KillLeftovers] } else { seq![] })
        + (if registry_wanted { seq![CleanupStep::CleanRegistry] } else { seq![] })
        + seq![CleanupStep::RemoveDirectories]
        + (if o.clean_start_menu { seq![CleanupStep::CleanStartMenu] } else { seq![] })
        + (if o.clean_path { seq![CleanupStep::CleanPath] } else { seq![] })
}

/// A MySQL clean-up touches the registry for services, `MySQL AB`, uninstall
/// entries, ODBC drivers or the user's key.
pub open spec fn mysql_registry_wanted(o: CleanOptions) -> bool {
    o.clean_registry_uninstall || o.clean_registry_mysql_ab || o.clean_registry_services || o.clean_odbc
        || o.clean_user_registry
}

/// A PostgreSQL clean-up touches the registry for services, uninstall entries
/// or the user's key (and the option shared with MySQL's `MySQL AB` key).
pub open spec fn postgresql_registry_wanted(o: CleanOptions) -> bool {
    o.clean_registry_uninstall || o.clean_registry_mysql_ab || o.clean_registry_services || o.clean_user_registry
}

fn steps_for(o: &CleanOptions, registry_wanted: bool) -> (r: Vec<CleanupStep>)
    ensures
        r@ == cleanup_steps(*o, registry_wanted),
{
    let mut r: Vec<CleanupStep> = Vec::new();
    if o.kill_processes {
        r.push(CleanupStep::KillProcesses);
    }
    if o.remove_services {
        r.push(CleanupStep::RemoveServices);
    }
    if o.kill_processes {
        r.push(CleanupStep::KillLeftovers);
    }
    if registry_wanted {
        r.push(CleanupStep::CleanRegistry);
    }
    r.push(CleanupStep::RemoveDirectories);
    if o.clean_start_menu {
        r.push(CleanupStep::CleanStartMenu);
    }
    if o.clean_path {
        r.push(CleanupStep::CleanPath);
    }
    assert(r@ =~= cleanup_steps(*o, registry_wanted));
    r
}

/// The steps of a MySQL clean-up (see [`cleanup_steps`] and [`mysql_registry_wanted`]).
pub fn mysql_cleanup_steps(o: &CleanOptions) -> (r: Vec<CleanupStep>)
    ensures
        r@ == cleanup_steps(*o, mysql_registry_wanted(*o)),
{
    let wanted = o.clean_registry_uninstall || o.clean_registry_mysql_ab || o.clean_registry_services || o.clean_odbc
        || o.clean_user_registry;
    steps_for(o, wanted)
}

/// The steps of a PostgreSQL clean-up (see [`cleanup_steps`] and
/// [`postgresql_registry_wanted`]).
pub fn postgresql_cleanup_steps(o: &CleanOptions) -> (r: Vec<CleanupStep>)
    ensures
        r@ == cleanup_steps(*o, postgresql_registry_wanted(*o)),
{
    let wanted = o.clean_registry_uninstall || o.clean_registry_mysql_ab || o.clean_registry_services
        || o.clean_user_registry;
    steps_for(o, wanted)
}

/// The trimmed lines of a listing, blank ones dropped.
pub open spec fn listed_lines(out: Seq<char>) -> Seq<Seq<char>> {
    Seq::new(lines(out).len(), |i: int| trim(lines(out)[i])).filter(|l: Seq<char>| l.len() > 0)
}

/// What a PowerShell listing printed, one entry per non-blank line, trimmed;
/// nothing when the script failed or could not run.
pub fn listing_lines(result: &Result<ProcessOutput, String>) -> (r: Vec<String>)
    ensures
        r.deep_view() == match *result {
            Ok(o) => if o.exit_code == 0 {
                listed_lines(o.stdout@)
            } else {
                seq![]
            },
            Err(_) => seq![],
        },
{
    let mut out: Vec<String> = Vec::new();
    let o = match result {
        Ok(o) => o,
        Err(_) => {
            assert(out.deep_view() =~= Seq::<Seq<char>>::empty());
            return out;
        },
    };
    if o.exit_code != 0 {
        assert(out.deep_view() =~= Seq::<Seq<char>>::empty());
        return out;
    }
    let ls = lines_of(&to_chars(o.stdout.as_str()));
    let ghost tl = Seq::new(lines(o.stdout@).len(), |i: int| trim(lines(o.stdout@)[i]));
    let mut i: usize = 0;
    assert(tl.take(0) =~= Seq::<Seq<char>>::empty());
    assert(out.deep_view() =~= Seq::<Seq<char>>::empty());
    while i < ls.len()
        invariant
            i <= ls@.len(),
            vviews(ls@) == lines(o.stdout@),
            tl == Seq::new(lines(o.stdout@).len(), |i: int| trim(lines(o.stdout@)[i])),
            out.deep_view() == tl.take(i as int).filter(|l: Seq<char>| l.len() > 0),
        decreases ls.len() - i,
    {
        let t = trim_chars(&ls[i]);
        assert(vviews(ls@)[i as int] == ls@[i as int]@);
        assert(t@ == tl[i as int]);
        proof {
            tl.take(i as int).lemma_filter_push(tl[i as int], |l: Seq<char>| l.len() > 0);
        }
        assert(tl.take(i + 1) =~= tl.take(i as int).push(tl[i as int]));
        if t.len() > 0 {
            let ghost before = out.deep_view();
            out.push(from_chars(&t));
            assert(out.deep_view() =~= before.push(tl[i as int]));
        }
        assert(out.deep_view() == tl.take(i + 1).filter(|l: Seq<char>| l.len() > 0));
        i += 1;
    }
    assert(tl.take(ls@.len() as int) =~= tl);
    out
}

/// `s` with every leading copy of `p` removed (`str::trim_start_matches` with a
/// non-empty text).
pub open spec fn strip_leading(s: Seq<char>, p: Seq<char>) -> Seq<char>
    decreases s.len(),
{
    if p.len() > 0 && starts_with(s, p) {
        strip_leading(s.skip(p.len() as int), p)
    } else {
        s
    }
}

fn strip_leading_chars(s: &Vec<char>, p: &str) -> (r: Vec<char>)
    ensures
        r@ == strip_leading(s@, p@),
{
    let pv = to_chars(p);
    let mut cur = s.clone();
    if pv.len() == 0 {
        return cur;
    }
    while starts_with_str(&cur, p)
        invariant
            pv@ == p@,
            pv.len() > 0,
            strip_leading(cur@, p@) == strip_leading(s@, p@),
        decreases cur.len(),
    {
        cur = slice(&cur, pv.len(), cur.len());
    }
    cur
}

/// The items a subkey deletion reports: each line that, trimmed, starts with
/// `DELETED:` gives `删除注册表子项: ` and the line with its leading `DELETED:`
/// markers removed, trimmed.
pub open spec fn subkey_items(ls: Seq<Seq<char>>) -> Seq<Seq<char>>
    decreases ls.len(),
{
    if ls.len() == 0 {
        seq![]
    } else {
        let prev = subkey_items(ls.drop_last());
        let l = ls.last();
        if starts_with(trim(l), "DELETED:"@) {
            prev.push("删除注册表子项: "@ + trim(strip_leading(l, "DELETED:"@)))
        } else {
            prev
        }
    }
}

/// What the subkey deletion script printed, as cleaned items (see [`subkey_items`]).
pub fn deleted_subkey_items(stdout: &str) -> (r: Vec<String>)
    ensures
        r.deep_view() == subkey_items(lines(stdout@)),
{
    let v = to_chars(stdout);
    let ls = lines_of(&v);
    let ghost all = vviews(ls@);
    let mut out: Vec<String> = Vec::new();
    let mut i: usize = 0;
    assert(all.take(0) =~= Seq::<Seq<char>>::empty());
    while i < ls.len()
        invariant
            i <= ls.len(),
            all == vviews(ls@),
            all == lines(stdout@),
            out.deep_view() == subkey_items(all.take(i as int)),
        decreases ls.len() - i,
    {
        assert(all.take(i + 1).drop_last() =~= all.take(i as int));
        assert(all.take(i + 1).last() == ls@[i as int]@);
        let t = trim_chars(&ls[i]);
        if starts_with_str(&t, "DELETED:") {
            let rest = strip_leading_chars(&ls[i], "DELETED:");
            let rt = trim_chars(&rest);
            let mut m: Vec<char> = Vec::new();
            push_str(&mut m, "删除注册表子项: ");
            push_all(&mut m, &rt);
            let ghost before = out.deep_view();
            out.push(from_chars(&m));
            assert(out.deep_view() =~= before.push(m@));
        }
        i += 1;
    }
    assert(all.take(ls.len() as int) =~= all);
    out
}

/// How the `PATH` clean-up script ended: on success, the scopes it changed
/// (`UPDATED:<scopes>`) as a cleaned item, or nothing when none changed; a
/// failure as an error item.
pub open spec fn path_cleanup_outcome(result: Result<ProcessOutput, String>) -> Option<Result<Seq<char>, Seq<char>>> {
    match result {
        Ok(o) => if o.exit_code == 0 {
            if starts_with(trim(o.stdout@), "UPDATED:"@) {
                Some(Ok("已清理实例相关 PATH: "@ + strip_leading(trim(o.stdout@), "UPDATED:"@)))
            } else {
                None
            }
        } else {
            Some(Err("清理 PATH 失败: "@ + trim(o.stderr@)))
        },
        Err(e) => Some(Err("清理 PATH 异常: "@ + e@)),
    }
}

/// Reads the end of the `PATH` clean-up (see [`path_cleanup_outcome`]).
pub fn path_cleanup_report(result: &Result<ProcessOutput, String>) -> (r: Option<Result<String, String>>)
    ensures
        match (r, path_cleanup_outcome(*result)) {
            (None, None) => true,
            (Some(Ok(a)), Some(Ok(b))) => a@ == b,
            (Some(Err(a)), Some(Err(b))) => a@ == b,
            _ => false,
        },
{
    match result {
        Ok(o) => {
            if o.exit_code == 0 {
                let t = trim_chars(&to_chars(o.stdout.as_str()));
                if starts_with_str(&t, "UPDATED:") {
                    let rest = strip_leading_chars(&t, "UPDATED:");
                    let mut m: Vec<char> = Vec::new();
                    push_str(&mut m, "已清理实例相关 PATH: ");
                    push_all(&mut m, &rest);
                    Some(Ok(from_chars(&m)))
                } else {
                    None
                }
            } else {
                let e = trim_chars(&to_chars(o.stderr.as_str()));
                let mut m: Vec<char> = Vec::new();
                push_str(&mut m, "清理 PATH 失败: ");
                push_all(&mut m, &e);
                Some(Err(from_chars(&m)))
            }
        },
        Err(e) => {
            let mut m: Vec<char> = Vec::new();
            push_str(&mut m, "清理 PATH 异常: ");
            push_str(&mut m, e.as_str());
            Some(Err(from_chars(&m)))
        },
    }
}

/// Strictly increasing in text order: sorted, and nothing twice.
pub open spec fn strictly_sorted(xs: Seq<Seq<char>>) -> bool {
    forall|i: int, j: int| 0 <= i < j < xs.len() ==> text_order(xs[i], xs[j]) < 0
}

proof fn lemma_text_order_zero(a: Seq<char>, b: Seq<char>)
    requires
        text_order(a, b) == 0,
    ensures
        a == b,
    decreases a.len(),
{
    if a.len() > 0 {
        lemma_text_order_zero(a.drop_first(), b.drop_first());
        assert(a =~= seq![a[0]] + a.drop_first());
        assert(b =~= seq![b[0]] + b.drop_first());
    } else {
        assert(b.len() == 0);
        assert(a =~= b);
    }
}

proof fn lemma_push_to_set(s: Seq<Seq<char>>, x: Seq<char>)
    ensures
        s.push(x).to_set() == s.to_set().insert(x),
{
    let t = s.push(x);
    assert forall|y: Seq<char>| t.to_set().contains(y) <==> s.to_set().insert(x).contains(y) by {
        if t.to_set().contains(y) {
            let k = choose|k: int| 0 <= k < t.len() && t[k] == y;
            if k < s.len() {
                assert(s[k] == y);
            }
        }
        if s.to_set().contains(y) {
            let k = choose|k: int| 0 <= k < s.len() && s[k] == y;
            assert(t[k] == y);
        }
        if y == x {
            assert(t[s.len() as int] == y);
        }
    }
    assert(t.to_set() =~= s.to_set().insert(x));
}

/// The texts sorted and each kept once (`sort` followed by `dedup`).
pub fn sort_unique(items: Vec<String>) -> (r: Vec<String>)
    ensures
        strictly_sorted(r.deep_view()),
        r.deep_view().to_set() == items.deep_view().to_set(),
{
    let ghost all = items.deep_view();
    let mut out: Vec<String> = Vec::new();
    let mut n: usize = 0;
    assert(all.take(0).to_set() =~= Set::<Seq<char>>::empty());
    assert(out.deep_view().to_set() =~= Set::<Seq<char>>::empty());
    while n < items.len()
        invariant
            n <= items.len(),
            all == items.deep_view(),
            strictly_sorted(out.deep_view()),
            out.deep_view().to_set() == all.take(n as int).to_set(),
        decreases items.len() - n,
    {
        let x = to_chars(items[n].as_str());
        let ghost xs = x@;
        assert(xs == all[n as int]);
        let ghost before = out.deep_view();
        let mut pos: usize = 0;
        let mut same = false;
        let mut greater = false;
        while pos < out.len() && !same && !greater
            invariant
                pos <= out@.len(),
                before == out.deep_view(),
                x@ == xs,
                forall|k: int| 0 <= k < pos ==> text_order(before[k], xs) < 0,
                same ==> pos < out@.len() && before[pos as int] == xs,
                greater ==> pos < out@.len() && text_order(before[pos as int], xs) > 0,
            decreases out.len() - pos + (if same || greater { 0int } else { 1 }),
        {
            let c = compare_chars(&to_chars(out[pos].as_str()), &x);
            assert(before[pos as int] == out@[pos as int]@);
            if c < 0 {
                pos += 1;
            } else if c == 0 {
                proof {
                    lemma_text_order_zero(before[pos as int], xs);
                }
                same = true;
            } else {
                greater = true;
            }
        }
        let ghost next = all.take(n + 1);
        assert(next =~= all.take(n as int).push(xs));
        if same {
            assert(before.to_set().contains(xs)) by {
                assert(before[pos as int] == xs);
            }
            proof {
                lemma_push_to_set(all.take(n as int), xs);
            }
            assert(next.to_set() =~= before.to_set());
        } else {
            proof {
                if pos < before.len() {
                    assert(text_order(before[pos as int], xs) > 0);
                }
            }
            out.insert(pos, items[n].clone());
            let ghost after = out.deep_view();
            assert(after =~= before.insert(pos as int, xs));
            assert forall|k: int| pos < k < after.len() implies text_order(xs, after[k]) < 0 by {
                assert(after[k] == before[k - 1]);
                lemma_text_order_antisym(before[pos as int], xs);
                lemma_text_order_trans(xs, before[pos as int], before[k - 1]);
            }
            assert forall|i: int, j: int| 0 <= i < j < after.len() implies text_order(after[i], after[j]) < 0 by {
                if i < pos && j < pos {
                } else if i < pos && j == pos {
                } else if i < pos && j > pos {
                    assert(after[j] == before[j - 1]);
                    lemma_text_order_trans(after[i], xs, after[j]);
                } else if i == pos {
                } else {
                    assert(after[i] == before[i - 1] && after[j] == before[j - 1]);
                }
            }
            proof {
                lemma_push_to_set(all.take(n as int), xs);
            }
            assert(after.to_set() =~= before.to_set().insert(xs)) by {
                assert forall|y: Seq<char>| after.to_set().contains(y) <==> before.to_set().contains(y) || y == xs by {
                    if after.to_set().contains(y) {
                        let k = choose|k: int| 0 <= k < after.len() && after[k] == y;
                        if k < pos {
                            assert(before[k] == y);
                        } else if k > pos {
                            assert(before[k - 1] == y);
                        }
                    }
                    if before.to_set().contains(y) {
                        let k = choose|k: int| 0 <= k < before.len() && before[k] == y;
                        if k < pos {
                            assert(after[k] == y);
                        } else {
                            assert(after[k + 1] == y);
                        }
                    }
                    if y == xs {
                        assert(after[pos as int] == y);
                    }
                }
            }
        }
        n += 1;
    }
    assert(all.take(items.len() as int) =~= all);
    out
}

} // verus!
