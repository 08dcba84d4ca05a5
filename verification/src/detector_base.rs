//! Detection framework shared by the tool modules: merging and de-duplicating
//! detected instances, and choosing the instance an operation applies to.
use vstd::prelude::*;
use crate::text::{push_str, from_chars, str_eq, string_of, to_chars};
use crate::winpath::{join_path, win_join};
use crate::error::owned;
use crate::types::{JavaVersion, MySQLInstance, NodeVersion, PostgresqlInstance, PythonVersion};

verus! {

/// Version shown when an instance's version could not be read.
pub const VERSION_UNKNOWN: &'static str = "未知版本";
/// Value shown when an architecture (or a short version) is unknown.
pub const ARCH_UNKNOWN: &'static str = "未知";
/// Status of a running service.
pub const STATUS_RUNNING: &'static str = "启动";
/// Status of a stopped service.
pub const STATUS_STOPPED: &'static str = "停止";
/// Status of a service that does not exist.
pub const STATUS_NOT_INSTALLED: &'static str = "未安装";
/// Status of an installation found without a service.
pub const STATUS_NO_SERVICE: &'static str = "未安装服务";

/// Index of the first set flag at or after `k`.
pub open spec fn first_set(flags: Seq<bool>, k: nat) -> Option<nat>
    decreases flags.len() - k,
{
    if k >= flags.len() {
        None
    } else if flags[k as int] {
        Some(k)
    } else {
        first_set(flags, k + 1)
    }
}

/// The executable of `bin_path` to run: `bin_path` joined with the first of
/// `names`, in priority order, whose file exists (`exists[i]` tells whether
/// `bin_path` joined with `names[i]` exists); `None` when none does.
pub fn select_executable(bin_path: &str, names: &Vec<String>, exists: &Vec<bool>) -> (r: Option<String>)
    requires
        exists.len() == names.len(),
    ensures
        match first_set(exists@, 0) {
            Some(k) => r is Some && r->0@ == win_join(bin_path@, names@[k as int]@),
            None => r is None,
        },
{
    let mut i: usize = 0;
    while i < names.len()
        invariant
            i <= names.len(),
            exists.len() == names.len(),
            first_set(exists@, 0) == first_set(exists@, i as nat),
        decreases names.len() - i,
    {
        if exists[i] {
            let base = to_chars(bin_path);
            let name = to_chars(names[i].as_str());
            let joined = join_path(&base, &name);
            return Some(from_chars(&joined));
        }
        i += 1;
    }
    None
}

/// The fields of a runtime instance: executable, version, path, manager, status,
/// and the vendor for the kinds that record one (`None` for the others).
pub type RuntimeView = (Seq<char>, Seq<char>, Seq<char>, Seq<char>, Seq<char>, Option<Seq<char>>);

/// An executable-based runtime (Python, Node.js, Java).
pub trait RuntimeInstance: Sized {
    spec fn rt_view(&self) -> RuntimeView;

    fn get_executable(&self) -> (r: &str)
        ensures
            r@ == self.rt_view().0,
    ;

    fn get_version(&self) -> (r: &str)
        ensures
            r@ == self.rt_view().1,
    ;

    fn get_path(&self) -> (r: &str)
        ensures
            r@ == self.rt_view().2,
    ;

    /// Where the runtime came from: `system`, `nvm`, `fnm`, `volta`, `JAVA_HOME`, ...
    fn get_manager(&self) -> (r: &str)
        ensures
            r@ == self.rt_view().3,
    ;

    fn get_status(&self) -> (r: &str)
        ensures
            r@ == self.rt_view().4,
    ;

    fn set_status(&mut self, s: String)
        ensures
            final(self).rt_view() == (old(self).rt_view().0, old(self).rt_view().1,
                old(self).rt_view().2, old(self).rt_view().3, s@, old(self).rt_view().5),
    ;
}

/// The executables kept by `dedupe_by_executable` from the views `xs`:
/// the first instance of each non-empty executable path, in order.
pub open spec fn kept_by_executable(xs: Seq<RuntimeView>) -> Seq<RuntimeView>
    decreases xs.len(),
{
    if xs.len() == 0 {
        seq![]
    } else {
        let prev = kept_by_executable(xs.drop_last());
        let x = xs.last();
        if x.0.len() > 0 && !(exists|i: int| 0 <= i < prev.len() && (#[trigger] prev[i]).0 == x.0) {
            prev.push(x)
        } else {
            prev
        }
    }
}

/// The views of a sequence of runtime instances.
pub open spec fn rt_views<T: RuntimeInstance>(xs: Seq<T>) -> Seq<RuntimeView> {
    Seq::new(xs.len(), |i: int| xs[i].rt_view())
}

/// Keeps the first instance of each executable path; instances without one are dropped.
pub fn dedupe_by_executable<T: RuntimeInstance>(instances: Vec<T>) -> (r: Vec<T>)
    ensures
        rt_views(r@) == kept_by_executable(rt_views(instances@)),
{
    let ghost xs = rt_views(instances@);
    let mut out: Vec<T> = Vec::new();
    let mut rest = instances;
    let mut n: usize = 0;
    let total = rest.len();
    let mut queue: Vec<T> = Vec::new();
    // Move the instances into `queue` in reverse, so that popping yields them in order.
    while rest.len() > 0
        invariant
            rest.len() + queue.len() == total,
            forall|i: int| 0 <= i < rest.len() ==> rest@[i] == instances@[i],
            forall|i: int| 0 <= i < queue.len() ==> #[trigger] queue@[i] == instances@[total - 1 - i],
            total == instances@.len(),
        decreases rest.len(),
    {
        let x = rest.pop().unwrap();
        queue.push(x);
    }
    assert(xs.take(0) =~= Seq::<RuntimeView>::empty());
    while n < total
        invariant
            n <= total,
            queue.len() == total - n,
            total == instances@.len(),
            xs == rt_views(instances@),
            forall|i: int| 0 <= i < queue.len() ==> #[trigger] queue@[i] == instances@[total - 1 - i],
            rt_views(out@) == kept_by_executable(xs.take(n as int)),
        decreases total - n,
    {
        let x = queue.pop().unwrap();
        assert(x == instances@[n as int]);
        assert(xs.take(n + 1).drop_last() =~= xs.take(n as int));
        assert(xs.take(n + 1).last() == x.rt_view());
        let ghost prev = kept_by_executable(xs.take(n as int));
        let exe = x.get_executable();
        let mut seen = false;
        let mut j: usize = 0;
        while j < out.len()
            invariant
                j <= out.len(),
                rt_views(out@) == prev,
                exe@ == x.rt_view().0,
                seen == (exists|k: int| 0 <= k < j && (#[trigger] prev[k]).0 == exe@),
            decreases out.len() - j,
        {
            assert(prev[j as int] == out@[j as int].rt_view());
            if str_eq(out[j].get_executable(), exe) {
                seen = true;
            }
            assert(seen == (exists|k: int| 0 <= k < j + 1 && (#[trigger] prev[k]).0 == exe@)) by {
                if prev[j as int].0 == exe@ {
                    assert(0 <= j < j + 1);
                }
            }
            j += 1;
        }
        assert(j == prev.len());
        if !exe.is_empty() && !seen {
            let ghost before = out@;
            out.push(x);
            assert(rt_views(out@) =~= rt_views(before).push(x.rt_view()));
        }
        assert(rt_views(out@) == kept_by_executable(xs.take(n + 1)));
        n += 1;
    }
    assert(xs.take(total as int) =~= xs);
    out
}

/// The fields of a database instance: path, version, architecture, status,
/// service name, port, residual flag, and the data directory for the kinds
/// that record one (`None` for the others).
pub type DbView = (Seq<char>, Seq<char>, Seq<char>, Seq<char>, Option<Seq<char>>, Option<u16>, bool, Option<Seq<char>>);

/// A service-backed database instance (MySQL, PostgreSQL).
pub trait DbInstance: Sized {
    spec fn db_view(&self) -> DbView;

    fn get_path(&self) -> (r: &str)
        ensures
            r@ == self.db_view().0,
    ;

    fn set_path(&mut self, path: String)
        ensures
            final(self).db_view() == (path@, old(self).db_view().1, old(self).db_view().2,
                old(self).db_view().3, old(self).db_view().4, old(self).db_view().5,
                old(self).db_view().6, old(self).db_view().7),
    ;

    fn get_version(&self) -> (r: &str)
        ensures
            r@ == self.db_view().1,
    ;

    fn set_version(&mut self, v: String)
        ensures
            final(self).db_view() == (old(self).db_view().0, v@, old(self).db_view().2,
                old(self).db_view().3, old(self).db_view().4, old(self).db_view().5,
                old(self).db_view().6, old(self).db_view().7),
    ;

    fn get_architecture(&self) -> (r: &str)
        ensures
            r@ == self.db_view().2,
    ;

    fn set_architecture(&mut self, a: String)
        ensures
            final(self).db_view() == (old(self).db_view().0, old(self).db_view().1, a@,
                old(self).db_view().3, old(self).db_view().4, old(self).db_view().5,
                old(self).db_view().6, old(self).db_view().7),
    ;

    fn get_status(&self) -> (r: &str)
        ensures
            r@ == self.db_view().3,
    ;

    fn set_status(&mut self, s: String)
        ensures
            final(self).db_view() == (old(self).db_view().0, old(self).db_view().1,
                old(self).db_view().2, s@, old(self).db_view().4, old(self).db_view().5,
                old(self).db_view().6, old(self).db_view().7),
    ;

    fn get_service_name(&self) -> (r: Option<&str>)
        ensures
            r.deep_view() == self.db_view().4,
    ;

    fn set_service_name(&mut self, n: Option<String>)
        ensures
            final(self).db_view() == (old(self).db_view().0, old(self).db_view().1,
                old(self).db_view().2, old(self).db_view().3, n.deep_view(),
                old(self).db_view().5, old(self).db_view().6, old(self).db_view().7),
    ;

    fn get_port(&self) -> (r: Option<u16>)
        ensures
            r == self.db_view().5,
    ;

    fn set_port(&mut self, p: Option<u16>)
        ensures
            final(self).db_view() == (old(self).db_view().0, old(self).db_view().1,
                old(self).db_view().2, old(self).db_view().3, old(self).db_view().4, p,
                old(self).db_view().6, old(self).db_view().7),
    ;

    fn get_is_residual(&self) -> (r: bool)
        ensures
            r == self.db_view().6,
    ;

    fn set_is_residual(&mut self, r: bool)
        ensures
            final(self).db_view() == (old(self).db_view().0, old(self).db_view().1,
                old(self).db_view().2, old(self).db_view().3, old(self).db_view().4,
                old(self).db_view().5, r, old(self).db_view().7),
    ;
}

/// `existing` completed with the fields of `incoming` that it lacks: an empty path,
/// an empty or unknown version or architecture, a missing port or service name, and a
/// not-installed status are taken over when `incoming` knows better; the residual
/// flag and the data directory stay those of `existing`.
pub open spec fn merged(e: DbView, i: DbView) -> DbView {
    (
        if e.0.len() == 0 && i.0.len() > 0 { i.0 } else { e.0 },
        if (e.1.len() == 0 || e.1 == VERSION_UNKNOWN@ || e.1 == ARCH_UNKNOWN@) && i.1.len() > 0
            && i.1 != VERSION_UNKNOWN@ {
            i.1
        } else {
            e.1
        },
        if (e.2.len() == 0 || e.2 == ARCH_UNKNOWN@) && i.2.len() > 0 && i.2 != ARCH_UNKNOWN@ {
            i.2
        } else {
            e.2
        },
        if (e.3 == STATUS_NOT_INSTALLED@ || e.3 == STATUS_NO_SERVICE@) && i.3
            != STATUS_NOT_INSTALLED@ {
            i.3
        } else {
            e.3
        },
        if e.4 is None { i.4 } else { e.4 },
        if e.5 is None { i.5 } else { e.5 },
        e.6,
        e.7,
    )
}

/// Completes `existing` with what `incoming` knows and `existing` does not.
pub fn merge_instance<T: DbInstance>(existing: &mut T, incoming: T)
    ensures
        final(existing).db_view() == merged(old(existing).db_view(), incoming.db_view()),
{
    let ghost e = existing.db_view();
    let ghost i = incoming.db_view();
    if existing.get_path().is_empty() && !incoming.get_path().is_empty() {
        existing.set_path(string_of(incoming.get_path()));
    }
    let ev = existing.get_version();
    let iv = incoming.get_version();
    if (ev.is_empty() || str_eq(ev, VERSION_UNKNOWN) || str_eq(ev, ARCH_UNKNOWN)) && !iv.is_empty()
        && !str_eq(iv, VERSION_UNKNOWN) {
        existing.set_version(string_of(iv));
    }
    let ea = existing.get_architecture();
    let ia = incoming.get_architecture();
    if (ea.is_empty() || str_eq(ea, ARCH_UNKNOWN)) && !ia.is_empty() && !str_eq(ia, ARCH_UNKNOWN) {
        existing.set_architecture(string_of(ia));
    }
    if existing.get_port().is_none() {
        existing.set_port(incoming.get_port());
    }
    if existing.get_service_name().is_none() {
        let s = match incoming.get_service_name() {
            Some(n) => Some(string_of(n)),
            None => None,
        };
        existing.set_service_name(s);
    }
    let es = existing.get_status();
    let is = incoming.get_status();
    if (str_eq(es, STATUS_NOT_INSTALLED) || str_eq(es, STATUS_NO_SERVICE)) && !str_eq(
        is,
        STATUS_NOT_INSTALLED,
    ) {
        existing.set_status(string_of(is));
    }
}

/// An entry that says nothing: not installed, no path, no service.
pub open spec fn is_empty_entry(x: DbView) -> bool {
    x.3 == STATUS_NOT_INSTALLED@ && x.0.len() == 0 && x.4 is None
}

/// `x` describes the same instance as `e`: same non-empty path or same service name.
pub open spec fn same_instance(e: DbView, x: DbView) -> bool {
    (x.0.len() > 0 && e.0 == x.0) || (x.4 is Some && e.4 == x.4)
}

/// Index of the first entry of `acc` that `x` describes, searching from `k`.
pub open spec fn first_same(acc: Seq<DbView>, x: DbView, k: nat) -> Option<nat>
    decreases acc.len() - k,
{
    if k >= acc.len() {
        None
    } else if same_instance(acc[k as int], x) {
        Some(k)
    } else {
        first_same(acc, x, k + 1)
    }
}

/// One step of de-duplication: empty entries are dropped, an entry for a known
/// instance is merged into the first such, any other entry is appended.
pub open spec fn dedupe_step(acc: Seq<DbView>, x: DbView) -> Seq<DbView> {
    if is_empty_entry(x) {
        acc
    } else {
        match first_same(acc, x, 0) {
            Some(k) => acc.update(k as int, merged(acc[k as int], x)),
            None => acc.push(x),
        }
    }
}

/// De-duplication of a whole sequence, from the first entry to the last.
pub open spec fn deduped(xs: Seq<DbView>) -> Seq<DbView>
    decreases xs.len(),
{
    if xs.len() == 0 {
        seq![]
    } else {
        dedupe_step(deduped(xs.drop_last()), xs.last())
    }
}

/// The views of a sequence of database instances.
pub open spec fn db_views<T: DbInstance>(xs: Seq<T>) -> Seq<DbView> {
    Seq::new(xs.len(), |i: int| xs[i].db_view())
}

proof fn lemma_first_same(acc: Seq<DbView>, x: DbView, k: nat)
    ensures
        match first_same(acc, x, k) {
            Some(j) => k <= j < acc.len() && same_instance(acc[j as int], x)
                && forall|m: int| k <= m < j ==> !same_instance(acc[m], x),
            None => forall|m: int| k <= m < acc.len() ==> !same_instance(acc[m], x),
        },
    decreases acc.len() - k,
{
    if k < acc.len() && !same_instance(acc[k as int], x) {
        lemma_first_same(acc, x, k + 1);
    }
}

/// Merges entries that describe the same instance (same path or same service name);
/// entries that are not installed and have neither path nor service are dropped.
pub fn dedupe_instances<T: DbInstance>(instances: Vec<T>) -> (r: Vec<T>)
    ensures
        db_views(r@) == deduped(db_views(instances@)),
{
    let ghost xs = db_views(instances@);
    let total = instances.len();
    let mut rest = instances;
    let mut queue: Vec<T> = Vec::new();
    while rest.len() > 0
        invariant
            rest.len() + queue.len() == total,
            total == instances@.len(),
            forall|i: int| 0 <= i < rest.len() ==> rest@[i] == instances@[i],
            forall|i: int| 0 <= i < queue.len() ==> #[trigger] queue@[i] == instances@[total - 1 - i],
        decreases rest.len(),
    {
        let x = rest.pop().unwrap();
        queue.push(x);
    }
    let mut result: Vec<T> = Vec::new();
    let mut n: usize = 0;
    assert(xs.take(0) =~= Seq::<DbView>::empty());
    while n < total
        invariant
            n <= total,
            queue.len() == total - n,
            total == instances@.len(),
            xs == db_views(instances@),
            forall|i: int| 0 <= i < queue.len() ==> #[trigger] queue@[i] == instances@[total - 1 - i],
            db_views(result@) == deduped(xs.take(n as int)),
        decreases total - n,
    {
        let inst = queue.pop().unwrap();
        assert(inst == instances@[n as int]);
        assert(xs.take(n + 1).drop_last() =~= xs.take(n as int));
        assert(xs.take(n + 1).last() == inst.db_view());
        let ghost acc = db_views(result@);
        let ghost x = inst.db_view();
        if str_eq(inst.get_status(), STATUS_NOT_INSTALLED) && inst.get_path().is_empty()
            && inst.get_service_name().is_none() {
            assert(is_empty_entry(x));
            assert(deduped(xs.take(n + 1)) == acc);
            n += 1;
            continue;
        }
        assert(!is_empty_entry(x));
        proof {
            lemma_first_same(acc, x, 0);
        }
        let mut found: Option<usize> = None;
        let mut j: usize = 0;
        while j < result.len()
            invariant
                j <= result.len(),
                acc == db_views(result@),
                x == inst.db_view(),
                found is None ==> forall|m: int| 0 <= m < j ==> !same_instance(acc[m], x),
                found matches Some(k) ==> k < j && first_same(acc, x, 0) == Some(k as nat),
            decreases result.len() - j,
        {
            proof {
                lemma_first_same(acc, x, 0);
            }
            if found.is_none() {
                let e = &result[j];
                assert(acc[j as int] == e.db_view());
                let ip = inst.get_path();
                let by_path = !ip.is_empty() && str_eq(e.get_path(), ip);
                let by_service = match (inst.get_service_name(), e.get_service_name()) {
                    (Some(a), Some(b)) => str_eq(a, b),
                    _ => false,
                };
                assert((by_path || by_service) == same_instance(acc[j as int], x));
                if by_path || by_service {
                    found = Some(j);
                }
            }
            j += 1;
        }
        match found {
            Some(k) => {
                let mut e = result.remove(k);
                merge_instance(&mut e, inst);
                result.insert(k, e);
                assert(db_views(result@) =~= acc.update(k as int, merged(acc[k as int], x)));
            },
            None => {
                result.push(inst);
                assert(db_views(result@) =~= acc.push(x));
            },
        }
        n += 1;
    }
    assert(xs.take(total as int) =~= xs);
    result
}

/// The message given when no instance can be chosen.
pub open spec fn no_valid_instance_message(tool_name: Seq<char>) -> Seq<char> {
    "未找到有效的 "@ + tool_name + " 实例（需要有安装路径和服务名）"@
}

/// An instance with both a path and a service name.
pub open spec fn usable(x: DbView) -> bool {
    x.0.len() > 0 && x.4 is Some
}

/// Chooses the instance an operation applies to: the selected one if there is one,
/// else the first instance with both a path and a service name.
pub fn select_valid_instance<'a, T: DbInstance>(
    selected: Option<&'a T>,
    instances: &'a [T],
    tool_name: &str,
) -> (r: Result<&'a T, String>)
    ensures
        selected matches Some(s) ==> r == Ok::<&T, String>(s),
        selected is None ==> match r {
            Ok(t) => exists|k: int|
                0 <= k < instances@.len() && instances@[k] == *t && usable(t.db_view())
                    && forall|m: int| 0 <= m < k ==> !usable(#[trigger] instances@[m].db_view()),
            Err(msg) => msg@ == no_valid_instance_message(tool_name@) && forall|m: int|
                0 <= m < instances@.len() ==> !usable(#[trigger] instances@[m].db_view()),
        },
{
    if let Some(inst) = selected {
        return Ok(inst);
    }
    let mut k: usize = 0;
    while k < instances.len()
        invariant
            selected is None,
            k <= instances@.len(),
            forall|m: int| 0 <= m < k ==> !usable(#[trigger] instances@[m].db_view()),
        decreases instances.len() - k,
    {
        let t = &instances[k];
        if !t.get_path().is_empty() && t.get_service_name().is_some() {
            return Ok(t);
        }
        k += 1;
    }
    let mut m: Vec<char> = Vec::new();
    push_str(&mut m, "未找到有效的 ");
    push_str(&mut m, tool_name);
    push_str(&mut m, " 实例（需要有安装路径和服务名）");
    Err(from_chars(&m))
}

/// Chooses the instance a password change applies to: the selected one if
/// there is one, else the first instance with a path; with neither, the
/// message `missing`.
pub fn instance_with_path<'a, T: DbInstance>(
    selected: Option<&'a T>,
    instances: &'a [T],
    missing: &str,
) -> (r: Result<&'a T, String>)
    ensures
        selected matches Some(s) ==> r == Ok::<&T, String>(s),
        selected is None ==> match r {
            Ok(t) => exists|k: int|
                0 <= k < instances@.len() && instances@[k] == *t && t.db_view().0.len() > 0
                    && forall|m: int| 0 <= m < k ==> (#[trigger] instances@[m].db_view()).0.len() == 0,
            Err(msg) => msg@ == missing@ && forall|m: int|
                0 <= m < instances@.len() ==> (#[trigger] instances@[m].db_view()).0.len() == 0,
        },
{
    if let Some(inst) = selected {
        return Ok(inst);
    }
    let mut k: usize = 0;
    while k < instances.len()
        invariant
            selected is None,
            k <= instances@.len(),
            forall|m: int| 0 <= m < k ==> (#[trigger] instances@[m].db_view()).0.len() == 0,
        decreases instances.len() - k,
    {
        let t = &instances[k];
        if !t.get_path().is_empty() {
            return Ok(t);
        }
        k += 1;
    }
    Err(owned(missing))
}

/// An instance still exists when its non-empty directory exists or it has a
/// service that exists.
pub open spec fn live(x: DbView, path_exists: bool, service_exists: bool) -> bool {
    (x.0.len() > 0 && path_exists) || (x.4 is Some && service_exists)
}

/// The instance `x` with its residual flag set as [`live`] decides.
pub open spec fn checked(x: DbView, path_exists: bool, service_exists: bool) -> DbView {
    (x.0, x.1, x.2, x.3, x.4, x.5, !live(x, path_exists, service_exists), x.7)
}

/// Whether an instance still exists (see [`live`]); `path_exists` is what the
/// file system says of its path, `service_exists` what the service manager
/// says of its service name.
pub fn is_instance_valid<T: DbInstance>(instance: &T, path_exists: bool, service_exists: bool) -> (r: bool)
    ensures
        r == live(instance.db_view(), path_exists, service_exists),
{
    (!instance.get_path().is_empty() && path_exists) || (instance.get_service_name().is_some() && service_exists)
}

/// Marks every instance residual unless it still exists; `path_exists[i]` and
/// `service_exists[i]` answer for `instances[i]`.
pub fn validate_instances<T: DbInstance>(instances: Vec<T>, path_exists: &Vec<bool>, service_exists: &Vec<bool>) -> (r: Vec<T>)
    requires
        path_exists@.len() == instances@.len(),
        service_exists@.len() == instances@.len(),
    ensures
        r@.len() == instances@.len(),
        forall|i: int| 0 <= i < r@.len() ==> (#[trigger] r@[i]).db_view() == checked(
            instances@[i].db_view(),
            path_exists@[i],
            service_exists@[i],
        ),
{
    let total = instances.len();
    let mut rest = instances;
    let mut queue: Vec<T> = Vec::new();
    while rest.len() > 0
        invariant
            rest.len() + queue.len() == total,
            total == instances@.len(),
            forall|i: int| 0 <= i < rest.len() ==> rest@[i] == instances@[i],
            forall|i: int| 0 <= i < queue.len() ==> #[trigger] queue@[i] == instances@[total - 1 - i],
        decreases rest.len(),
    {
        let x = rest.pop().unwrap();
        queue.push(x);
    }
    let mut out: Vec<T> = Vec::new();
    let mut n: usize = 0;
    while n < total
        invariant
            n <= total,
            out@.len() == n,
            queue.len() == total - n,
            total == instances@.len(),
            path_exists@.len() == total,
            service_exists@.len() == total,
            forall|i: int| 0 <= i < queue.len() ==> #[trigger] queue@[i] == instances@[total - 1 - i],
            forall|i: int| 0 <= i < n ==> (#[trigger] out@[i]).db_view() == checked(
                instances@[i].db_view(),
                path_exists@[i],
                service_exists@[i],
            ),
        decreases total - n,
    {
        let mut inst = queue.pop().unwrap();
        assert(inst == instances@[n as int]);
        let valid = is_instance_valid(&inst, path_exists[n], service_exists[n]);
        inst.set_is_residual(!valid);
        out.push(inst);
        n += 1;
    }
    out
}

// ---------------------------------------------------------------------------
// Laws of merging and de-duplication
// ---------------------------------------------------------------------------

/// Merging never loses what the existing instance already knows: a non-empty path,
/// a present service name or port, and the residual flag are kept.
pub proof fn law_merge_keeps_known_fields(e: DbView, i: DbView)
    ensures
        e.0.len() > 0 ==> merged(e, i).0 == e.0,
        e.4 is Some ==> merged(e, i).4 == e.4,
        e.5 is Some ==> merged(e, i).5 == e.5,
        merged(e, i).6 == e.6,
{
}

/// Merging an instance with itself changes nothing.
pub proof fn law_merge_self(e: DbView)
    ensures
        merged(e, e) == e,
{
}

proof fn lemma_merged_not_empty(e: DbView, i: DbView)
    requires
        !is_empty_entry(e),
    ensures
        !is_empty_entry(merged(e, i)),
{
}

/// De-duplication never grows the list, and never keeps an entry that says nothing.
pub proof fn law_dedupe_shrinks_and_drops_empty(xs: Seq<DbView>)
    ensures
        deduped(xs).len() <= xs.len(),
        forall|k: int| 0 <= k < deduped(xs).len() ==> !is_empty_entry(#[trigger] deduped(xs)[k]),
    decreases xs.len(),
{
    if xs.len() > 0 {
        law_dedupe_shrinks_and_drops_empty(xs.drop_last());
        let acc = deduped(xs.drop_last());
        let x = xs.last();
        if !is_empty_entry(x) {
            lemma_first_same(acc, x, 0);
            match first_same(acc, x, 0) {
                Some(k) => {
                    lemma_merged_not_empty(acc[k as int], x);
                    assert forall|m: int| 0 <= m < deduped(xs).len() implies !is_empty_entry(
                        #[trigger] deduped(xs)[m],
                    ) by {
                        if m != k {
                            assert(deduped(xs)[m] == acc[m]);
                        }
                    }
                },
                None => {
                    assert forall|m: int| 0 <= m < deduped(xs).len() implies !is_empty_entry(
                        #[trigger] deduped(xs)[m],
                    ) by {
                        if m < acc.len() {
                            assert(deduped(xs)[m] == acc[m]);
                        }
                    }
                },
            }
        }
    }
}

/// `dedupe_by_executable` keeps each executable once: the kept executables are
/// non-empty and pairwise different.
pub proof fn law_dedupe_by_executable_distinct(xs: Seq<RuntimeView>)
    ensures
        forall|i: int| 0 <= i < kept_by_executable(xs).len() ==> (#[trigger] kept_by_executable(xs)[i]).0.len() > 0,
        forall|i: int, j: int|
            0 <= i < j < kept_by_executable(xs).len() ==> (#[trigger] kept_by_executable(xs)[i]).0
                != (#[trigger] kept_by_executable(xs)[j]).0,
    decreases xs.len(),
{
    if xs.len() > 0 {
        law_dedupe_by_executable_distinct(xs.drop_last());
        let prev = kept_by_executable(xs.drop_last());
        let cur = kept_by_executable(xs);
        if cur.len() > prev.len() {
            assert(cur == prev.push(xs.last()));
            assert forall|i: int, j: int| 0 <= i < j < cur.len() implies (#[trigger] cur[i]).0
                != (#[trigger] cur[j]).0 by {
                if j == prev.len() {
                    assert(cur[i] == prev[i]);
                    if prev[i].0 == xs.last().0 {
                        assert(exists|k: int| 0 <= k < prev.len() && (#[trigger] prev[k]).0 == xs.last().0);
                    }
                } else {
                    assert(cur[i] == prev[i] && cur[j] == prev[j]);
                }
            }
            assert forall|i: int| 0 <= i < cur.len() implies (#[trigger] cur[i]).0.len() > 0 by {
                if i < prev.len() {
                    assert(cur[i] == prev[i]);
                }
            }
        }
    }
}

/// Every non-empty executable of the input is kept.
pub proof fn law_dedupe_by_executable_covers(xs: Seq<RuntimeView>)
    ensures
        forall|i: int| 0 <= i < xs.len() && (#[trigger] xs[i]).0.len() > 0 ==> exists|j: int|
            0 <= j < kept_by_executable(xs).len() && (#[trigger] kept_by_executable(xs)[j]).0 == xs[i].0,
    decreases xs.len(),
{
    if xs.len() > 0 {
        law_dedupe_by_executable_covers(xs.drop_last());
        let prev = kept_by_executable(xs.drop_last());
        let cur = kept_by_executable(xs);
        assert forall|i: int| 0 <= i < xs.len() && (#[trigger] xs[i]).0.len() > 0 implies exists|j: int|
            0 <= j < cur.len() && (#[trigger] cur[j]).0 == xs[i].0 by {
            if i < xs.len() - 1 {
                assert(xs[i] == xs.drop_last()[i]);
                let j = choose|j: int| 0 <= j < prev.len() && (#[trigger] prev[j]).0 == xs.drop_last()[i].0;
                assert(cur[j] == prev[j]);
            } else {
                if exists|k: int| 0 <= k < prev.len() && (#[trigger] prev[k]).0 == xs.last().0 {
                    let k = choose|k: int| 0 <= k < prev.len() && (#[trigger] prev[k]).0 == xs.last().0;
                    assert(cur[k] == prev[k]);
                } else {
                    assert(cur[prev.len() as int] == xs.last());
                }
            }
        }
    }
}

// ---------------------------------------------------------------------------
// Field access for the concrete instance types
// ---------------------------------------------------------------------------

impl DbInstance for MySQLInstance {
    open spec fn db_view(&self) -> DbView {
        (self.path@, self.version@, self.architecture@, self.status@, self.service_name.deep_view(),
            self.port, self.is_residual, None)
    }

    fn get_path(&self) -> (r: &str) {
        self.path.as_str()
    }

    fn set_path(&mut self, path: String) {
        self.path = path;
    }

    fn get_version(&self) -> (r: &str) {
        self.version.as_str()
    }

    fn set_version(&mut self, v: String) {
        self.version = v;
    }

    fn get_architecture(&self) -> (r: &str) {
        self.architecture.as_str()
    }

    fn set_architecture(&mut self, a: String) {
        self.architecture = a;
    }

    fn get_status(&self) -> (r: &str) {
        self.status.as_str()
    }

    fn set_status(&mut self, s: String) {
        self.status = s;
    }

    fn get_service_name(&self) -> (r: Option<&str>) {
        match &self.service_name {
            Some(s) => Some(s.as_str()),
            None => None,
        }
    }

    fn set_service_name(&mut self, n: Option<String>) {
        self.service_name = n;
    }

    fn get_port(&self) -> (r: Option<u16>) {
        self.port
    }

    fn set_port(&mut self, p: Option<u16>) {
        self.port = p;
    }

    fn get_is_residual(&self) -> (r: bool) {
        self.is_residual
    }

    fn set_is_residual(&mut self, r: bool) {
        self.is_residual = r;
    }
}

impl DbInstance for PostgresqlInstance {
    open spec fn db_view(&self) -> DbView {
        (self.path@, self.version@, self.architecture@, self.status@, self.service_name.deep_view(),
            self.port, self.is_residual, self.data_dir.deep_view())
    }

    fn get_path(&self) -> (r: &str) {
        self.path.as_str()
    }

    fn set_path(&mut self, path: String) {
        self.path = path;
    }

    fn get_version(&self) -> (r: &str) {
        self.version.as_str()
    }

    fn set_version(&mut self, v: String) {
        self.version = v;
    }

    fn get_architecture(&self) -> (r: &str) {
        self.architecture.as_str()
    }

    fn set_architecture(&mut self, a: String) {
        self.architecture = a;
    }

    fn get_status(&self) -> (r: &str) {
        self.status.as_str()
    }

    fn set_status(&mut self, s: String) {
        self.status = s;
    }

    fn get_service_name(&self) -> (r: Option<&str>) {
        match &self.service_name {
            Some(s) => Some(s.as_str()),
            None => None,
        }
    }

    fn set_service_name(&mut self, n: Option<String>) {
        self.service_name = n;
    }

    fn get_port(&self) -> (r: Option<u16>) {
        self.port
    }

    fn set_port(&mut self, p: Option<u16>) {
        self.port = p;
    }

    fn get_is_residual(&self) -> (r: bool) {
        self.is_residual
    }

    fn set_is_residual(&mut self, r: bool) {
        self.is_residual = r;
    }
}

impl RuntimeInstance for JavaVersion {
    open spec fn rt_view(&self) -> RuntimeView {
        (self.executable@, self.version@, self.path@, self.manager@, self.status@, Some(self.vendor@))
    }

    fn get_executable(&self) -> (r: &str) {
        self.executable.as_str()
    }

    fn get_version(&self) -> (r: &str) {
        self.version.as_str()
    }

    fn get_path(&self) -> (r: &str) {
        self.path.as_str()
    }

    fn get_manager(&self) -> (r: &str) {
        self.manager.as_str()
    }

    fn get_status(&self) -> (r: &str) {
        self.status.as_str()
    }

    fn set_status(&mut self, s: String) {
        self.status = s;
    }
}

impl RuntimeInstance for NodeVersion {
    open spec fn rt_view(&self) -> RuntimeView {
        (self.executable@, self.version@, self.path@, self.manager@, self.status@, None)
    }

    fn get_executable(&self) -> (r: &str) {
        self.executable.as_str()
    }

    fn get_version(&self) -> (r: &str) {
        self.version.as_str()
    }

    fn get_path(&self) -> (r: &str) {
        self.path.as_str()
    }

    fn get_manager(&self) -> (r: &str) {
        self.manager.as_str()
    }

    fn get_status(&self) -> (r: &str) {
        self.status.as_str()
    }

    fn set_status(&mut self, s: String) {
        self.status = s;
    }
}

impl RuntimeInstance for PythonVersion {
    open spec fn rt_view(&self) -> RuntimeView {
        (self.executable@, self.version@, self.path@, self.manager@, self.status@, None)
    }

    fn get_executable(&self) -> (r: &str) {
        self.executable.as_str()
    }

    fn get_version(&self) -> (r: &str) {
        self.version.as_str()
    }

    fn get_path(&self) -> (r: &str) {
        self.path.as_str()
    }

    fn get_manager(&self) -> (r: &str) {
        self.manager.as_str()
    }

    fn get_status(&self) -> (r: &str) {
        self.status.as_str()
    }

    fn set_status(&mut self, s: String) {
        self.status = s;
    }
}

} // verus!
