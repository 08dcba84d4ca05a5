//! Download control: the pause / resume / cancel flags of each task, the task
//! registry, and the decisions of the download loop between two attempts.
use vstd::prelude::*;
use crate::text::{push_str, push_all, from_chars, to_chars, str_eq, decimal, decimal_chars};
use crate::error::owned;

verus! {

/// The flags a running download polls.
#[derive(Debug, Clone, Copy, PartialEq, Eq)]
pub struct DownloadControl {
    pub paused: bool,
    pub cancelled: bool,
}

impl DownloadControl {
    /// Whether the task is paused (spec view).
    pub open spec fn paused_flag(&self) -> bool {
        self.paused
    }

    /// Whether the task is cancelled (spec view).
    pub open spec fn cancelled_flag(&self) -> bool {
        self.cancelled
    }

    /// A task that is neither paused nor cancelled.
    pub fn new() -> (r: Self)
        ensures
            !r.paused_flag(),
            !r.cancelled_flag(),
    {
        DownloadControl { paused: false, cancelled: false }
    }

    pub fn is_paused(&self) -> (r: bool)
        ensures
            r == self.paused_flag(),
    {
        self.paused
    }

    pub fn is_cancelled(&self) -> (r: bool)
        ensures
            r == self.cancelled_flag(),
    {
        self.cancelled
    }

    /// Pauses; cancellation is left as it is.
    pub fn pause(&mut self)
        ensures
            final(self).paused_flag(),
            final(self).cancelled_flag() == old(self).cancelled_flag(),
    {
        self.paused = true;
    }

    /// Resumes; cancellation is left as it is.
    pub fn resume(&mut self)
        ensures
            !final(self).paused_flag(),
            final(self).cancelled_flag() == old(self).cancelled_flag(),
    {
        self.paused = false;
    }

    /// Cancels; the pause flag is left as it is.  Nothing clears cancellation.
    pub fn cancel(&mut self)
        ensures
            final(self).cancelled_flag(),
            final(self).paused_flag() == old(self).paused_flag(),
    {
        self.cancelled = true;
    }
}

/// The registered download tasks, each under its id.
#[derive(Debug)]
pub struct TaskRegistry {
    tasks: Vec<(String, DownloadControl)>,
}

impl TaskRegistry {
    /// No id appears twice.
    pub closed spec fn wf(&self) -> bool {
        forall|i: int, j: int|
            0 <= i < j < self.tasks@.len() ==> (#[trigger] self.tasks@[i]).0@ != (#[trigger] self.tasks@[j]).0@
    }

    /// The tasks, from id to flags.
    pub closed spec fn view_map(&self) -> Map<Seq<char>, DownloadControl> {
        Map::new(
            |k: Seq<char>| exists|i: int| 0 <= i < self.tasks@.len() && (#[trigger] self.tasks@[i]).0@ == k,
            |k: Seq<char>| self.tasks@[choose|i: int| 0 <= i < self.tasks@.len() && (#[trigger] self.tasks@[i]).0@ == k].1,
        )
    }

    /// An empty registry.
    pub fn new() -> (r: Self)
        ensures
            r.wf(),
            r.view_map() == Map::<Seq<char>, DownloadControl>::empty(),
    {
        let r = TaskRegistry { tasks: Vec::new() };
        assert(r.view_map() =~= Map::<Seq<char>, DownloadControl>::empty());
        r
    }

    fn index_of(&self, id: &str) -> (r: Option<usize>)
        requires
            self.wf(),
        ensures
            match r {
                Some(i) => i < self.tasks@.len() && self.tasks@[i as int].0@ == id@,
                None => forall|i: int| 0 <= i < self.tasks@.len() ==> (#[trigger] self.tasks@[i]).0@ != id@,
            },
    {
        let mut i: usize = 0;
        while i < self.tasks.len()
            invariant
                i <= self.tasks@.len(),
                forall|k: int| 0 <= k < i ==> (#[trigger] self.tasks@[k]).0@ != id@,
            decreases self.tasks.len() - i,
        {
            if str_eq(self.tasks[i].0.as_str(), id) {
                return Some(i);
            }
            i += 1;
        }
        None
    }

    proof fn lemma_lookup(&self, i: int)
        requires
            self.wf(),
            0 <= i < self.tasks@.len(),
        ensures
            self.view_map().contains_key(self.tasks@[i].0@),
            self.view_map()[self.tasks@[i].0@] == self.tasks@[i].1,
    {
        let k = self.tasks@[i].0@;
        assert(self.view_map().dom().contains(k));
        let j = choose|j: int| 0 <= j < self.tasks@.len() && (#[trigger] self.tasks@[j]).0@ == k;
        assert(j == i) by {
            if j < i {
                assert(self.tasks@[j].0@ != self.tasks@[i].0@);
            } else if j > i {
                assert(self.tasks@[i].0@ != self.tasks@[j].0@);
            }
        }
    }

    /// The flags of a task, if it is registered.
    pub fn control(&self, id: &str) -> (r: Option<DownloadControl>)
        requires
            self.wf(),
        ensures
            match r {
                Some(c) => self.view_map().contains_key(id@) && self.view_map()[id@] == c,
                None => !self.view_map().contains_key(id@),
            },
    {
        match self.index_of(id) {
            Some(i) => {
                proof {
                    self.lemma_lookup(i as int);
                }
                Some(self.tasks[i].1)
            },
            None => None,
        }
    }

    fn set_at(&mut self, i: usize, c: DownloadControl)
        requires
            old(self).wf(),
            i < old(self).tasks@.len(),
        ensures
            final(self).wf(),
            final(self).view_map() == old(self).view_map().insert(old(self).tasks@[i as int].0@, c),
    {
        let ghost before = self.tasks@;
        let ghost k = before[i as int].0@;
        let name = self.tasks[i].0.clone();
        self.tasks.set(i, (name, c));
        assert forall|a: int, b: int| 0 <= a < b < self.tasks@.len() implies (#[trigger] self.tasks@[a]).0@
            != (#[trigger] self.tasks@[b]).0@ by {
            assert(before[a].0@ != before[b].0@);
        }
        proof {
            let m = self.view_map();
            let e = old(self).view_map().insert(k, c);
            assert forall|x: Seq<char>| m.dom().contains(x) <==> e.dom().contains(x) by {
                if m.dom().contains(x) {
                    let j = choose|j: int| 0 <= j < self.tasks@.len() && (#[trigger] self.tasks@[j]).0@ == x;
                    if j != i {
                        assert(before[j].0@ == x);
                    }
                }
                if old(self).view_map().dom().contains(x) {
                    let j = choose|j: int| 0 <= j < before.len() && (#[trigger] before[j]).0@ == x;
                    assert(self.tasks@[j].0@ == x);
                }
            }
            assert forall|x: Seq<char>| m.dom().contains(x) implies m[x] == e[x] by {
                let j = choose|j: int| 0 <= j < self.tasks@.len() && (#[trigger] self.tasks@[j]).0@ == x;
                self.lemma_lookup(j);
                if j != i {
                    old(self).lemma_lookup(j);
                }
            }
            assert(m =~= e);
        }
    }

    fn insert_new(&mut self, id: &str, c: DownloadControl)
        requires
            old(self).wf(),
            !old(self).view_map().contains_key(id@),
        ensures
            final(self).wf(),
            final(self).view_map() == old(self).view_map().insert(id@, c),
    {
        let ghost before = self.tasks@;
        assert forall|j: int| 0 <= j < before.len() implies (#[trigger] before[j]).0@ != id@ by {
            if before[j].0@ == id@ {
                assert(old(self).view_map().dom().contains(id@));
            }
        }
        self.tasks.push((owned(id), c));
        assert forall|a: int, b: int| 0 <= a < b < self.tasks@.len() implies (#[trigger] self.tasks@[a]).0@
            != (#[trigger] self.tasks@[b]).0@ by {
            if b < before.len() {
                assert(before[a].0@ != before[b].0@);
            }
        }
        proof {
            let m = self.view_map();
            let e = old(self).view_map().insert(id@, c);
            assert forall|x: Seq<char>| m.dom().contains(x) <==> e.dom().contains(x) by {
                if m.dom().contains(x) {
                    let j = choose|j: int| 0 <= j < self.tasks@.len() && (#[trigger] self.tasks@[j]).0@ == x;
                    if j < before.len() {
                        assert(before[j].0@ == x);
                    }
                }
                if old(self).view_map().dom().contains(x) {
                    let j = choose|j: int| 0 <= j < before.len() && (#[trigger] before[j]).0@ == x;
                    assert(self.tasks@[j].0@ == x);
                }
                if x == id@ {
                    assert(self.tasks@[before.len() as int].0@ == x);
                }
            }
            assert forall|x: Seq<char>| m.dom().contains(x) implies m[x] == e[x] by {
                let j = choose|j: int| 0 <= j < self.tasks@.len() && (#[trigger] self.tasks@[j]).0@ == x;
                self.lemma_lookup(j);
                if j < before.len() {
                    old(self).lemma_lookup(j);
                }
            }
            assert(m =~= e);
        }
    }

    fn remove_at(&mut self, i: usize)
        requires
            old(self).wf(),
            i < old(self).tasks@.len(),
        ensures
            final(self).wf(),
            final(self).view_map() == old(self).view_map().remove(old(self).tasks@[i as int].0@),
    {
        let ghost before = self.tasks@;
        let ghost k = before[i as int].0@;
        self.tasks.remove(i);
        assert forall|a: int, b: int| 0 <= a < b < self.tasks@.len() implies (#[trigger] self.tasks@[a]).0@
            != (#[trigger] self.tasks@[b]).0@ by {
            let a0 = if a < i { a } else { a + 1 };
            let b0 = if b < i { b } else { b + 1 };
            assert(self.tasks@[a] == before[a0]);
            assert(self.tasks@[b] == before[b0]);
            assert(before[a0].0@ != before[b0].0@);
        }
        proof {
            let m = self.view_map();
            let e = old(self).view_map().remove(k);
            assert forall|x: Seq<char>| m.dom().contains(x) <==> e.dom().contains(x) by {
                if m.dom().contains(x) {
                    let j = choose|j: int| 0 <= j < self.tasks@.len() && (#[trigger] self.tasks@[j]).0@ == x;
                    let j0 = if j < i { j } else { j + 1 };
                    assert(self.tasks@[j] == before[j0]);
                    assert(before[j0].0@ == x);
                    if x == k {
                        assert(before[j0].0@ != before[i as int].0@ || j0 == i);
                    }
                }
                if e.dom().contains(x) {
                    let j = choose|j: int| 0 <= j < before.len() && (#[trigger] before[j]).0@ == x;
                    assert(j != i);
                    let j1 = if j < i { j } else { j - 1 };
                    assert(self.tasks@[j1] == before[j]);
                    assert(self.tasks@[j1].0@ == x);
                }
            }
            assert forall|x: Seq<char>| m.dom().contains(x) implies m[x] == e[x] by {
                let j = choose|j: int| 0 <= j < self.tasks@.len() && (#[trigger] self.tasks@[j]).0@ == x;
                self.lemma_lookup(j);
                let j0 = if j < i { j } else { j + 1 };
                assert(self.tasks@[j] == before[j0]);
                old(self).lemma_lookup(j0);
            }
            assert(m =~= e);
        }
    }
}

/// The message for an unknown task.
pub open spec fn missing_task_message(id: Seq<char>) -> Seq<char> {
    "下载任务不存在: "@ + id
}

fn missing_task(id: &str) -> (r: String)
    ensures
        r@ == missing_task_message(id@),
{
    let mut m: Vec<char> = Vec::new();
    push_str(&mut m, "下载任务不存在: ");
    push_str(&mut m, id);
    from_chars(&m)
}

/// Registers a task, neither paused nor cancelled, replacing one with the same
/// id; answers the flags it was registered with.  The registry keeps the
/// flags: a running download reads them back with [`TaskRegistry::control`].
pub fn register_task(registry: &mut TaskRegistry, task_id: &str) -> (r: Result<DownloadControl, String>)
    requires
        old(registry).wf(),
    ensures
        r == Ok::<DownloadControl, String>(DownloadControl { paused: false, cancelled: false }),
        final(registry).wf(),
        final(registry).view_map() == old(registry).view_map().insert(task_id@, DownloadControl { paused: false, cancelled: false }),
{
    let c = DownloadControl::new();
    match registry.index_of(task_id) {
        Some(i) => registry.set_at(i, c),
        None => {
            proof {
                if registry.view_map().contains_key(task_id@) {
                    let j = choose|j: int| 0 <= j < registry.tasks@.len() && (#[trigger] registry.tasks@[j]).0@ == task_id@;
                    assert(registry.tasks@[j].0@ != task_id@);
                }
            }
            registry.insert_new(task_id, c)
        },
    }
    Ok(c)
}

/// Forgets a task; forgetting an unknown one is no error.
pub fn remove_task(registry: &mut TaskRegistry, task_id: &str) -> (r: Result<(), String>)
    requires
        old(registry).wf(),
    ensures
        r is Ok,
        final(registry).wf(),
        final(registry).view_map() == old(registry).view_map().remove(task_id@),
{
    match registry.index_of(task_id) {
        Some(i) => registry.remove_at(i),
        None => {
            proof {
                if registry.view_map().contains_key(task_id@) {
                    let j = choose|j: int| 0 <= j < registry.tasks@.len() && (#[trigger] registry.tasks@[j]).0@ == task_id@;
                    assert(registry.tasks@[j].0@ != task_id@);
                }
                assert(registry.view_map().remove(task_id@) =~= registry.view_map());
            }
        },
    }
    Ok(())
}

/// The registry after changing the flags of a known task, or the error for an unknown one.
pub open spec fn updated(
    before: Map<Seq<char>, DownloadControl>,
    after: Map<Seq<char>, DownloadControl>,
    id: Seq<char>,
    r: Result<(), String>,
    f: spec_fn(DownloadControl) -> DownloadControl,
) -> bool {
    if before.contains_key(id) {
        r is Ok && after == before.insert(id, f(before[id]))
    } else {
        (r matches Err(e) && e@ == missing_task_message(id)) && after == before
    }
}

fn change_task(registry: &mut TaskRegistry, task_id: &str, how: u8) -> (r: Result<(), String>)
    requires
        old(registry).wf(),
        how < 3,
    ensures
        final(registry).wf(),
        updated(
            old(registry).view_map(),
            final(registry).view_map(),
            task_id@,
            r,
            |c: DownloadControl|
                if how == 0 {
                    DownloadControl { paused: true, cancelled: c.cancelled }
                } else if how == 1 {
                    DownloadControl { paused: false, cancelled: c.cancelled }
                } else {
                    DownloadControl { paused: c.paused, cancelled: true }
                },
        ),
{
    match registry.index_of(task_id) {
        Some(i) => {
            proof {
                registry.lemma_lookup(i as int);
            }
            let mut c = registry.tasks[i].1;
            if how == 0 {
                c.pause();
            } else if how == 1 {
                c.resume();
            } else {
                c.cancel();
            }
            registry.set_at(i, c);
            Ok(())
        },
        None => {
            proof {
                if registry.view_map().contains_key(task_id@) {
                    let j = choose|j: int| 0 <= j < registry.tasks@.len() && (#[trigger] registry.tasks@[j]).0@ == task_id@;
                    assert(registry.tasks@[j].0@ != task_id@);
                }
            }
            Err(missing_task(task_id))
        },
    }
}

/// Pauses a registered task; an unknown id is an error and changes nothing.
pub fn pause_task(registry: &mut TaskRegistry, task_id: &str) -> (r: Result<(), String>)
    requires
        old(registry).wf(),
    ensures
        final(registry).wf(),
        updated(
            old(registry).view_map(),
            final(registry).view_map(),
            task_id@,
            r,
            |c: DownloadControl| DownloadControl { paused: true, cancelled: c.cancelled },
        ),
{
    let r = change_task(registry, task_id, 0);
    assert((|c: DownloadControl|
        if 0u8 == 0 {
            DownloadControl { paused: true, cancelled: c.cancelled }
        } else if 0u8 == 1 {
            DownloadControl { paused: false, cancelled: c.cancelled }
        } else {
            DownloadControl { paused: c.paused, cancelled: true }
        }) =~= (|c: DownloadControl| DownloadControl { paused: true, cancelled: c.cancelled }));
    r
}

/// Resumes a registered task; an unknown id is an error and changes nothing.
pub fn resume_task(registry: &mut TaskRegistry, task_id: &str) -> (r: Result<(), String>)
    requires
        old(registry).wf(),
    ensures
        final(registry).wf(),
        updated(
            old(registry).view_map(),
            final(registry).view_map(),
            task_id@,
            r,
            |c: DownloadControl| DownloadControl { paused: false, cancelled: c.cancelled },
        ),
{
    let r = change_task(registry, task_id, 1);
    assert((|c: DownloadControl|
        if 1u8 == 0 {
            DownloadControl { paused: true, cancelled: c.cancelled }
        } else if 1u8 == 1 {
            DownloadControl { paused: false, cancelled: c.cancelled }
        } else {
            DownloadControl { paused: c.paused, cancelled: true }
        }) =~= (|c: DownloadControl| DownloadControl { paused: false, cancelled: c.cancelled }));
    r
}

/// Cancels a registered task; an unknown id is an error and changes nothing.
pub fn cancel_task(registry: &mut TaskRegistry, task_id: &str) -> (r: Result<(), String>)
    requires
        old(registry).wf(),
    ensures
        final(registry).wf(),
        updated(
            old(registry).view_map(),
            final(registry).view_map(),
            task_id@,
            r,
            |c: DownloadControl| DownloadControl { paused: c.paused, cancelled: true },
        ),
{
    let r = change_task(registry, task_id, 2);
    assert((|c: DownloadControl|
        if 2u8 == 0 {
            DownloadControl { paused: true, cancelled: c.cancelled }
        } else if 2u8 == 1 {
            DownloadControl { paused: false, cancelled: c.cancelled }
        } else {
            DownloadControl { paused: c.paused, cancelled: true }
        }) =~= (|c: DownloadControl| DownloadControl { paused: c.paused, cancelled: true }));
    r
}

/// Resuming a paused task that was not paused before gives back the registry
/// it started from: resume undoes pause.
pub proof fn law_resume_undoes_pause(
    m0: Map<Seq<char>, DownloadControl>,
    m1: Map<Seq<char>, DownloadControl>,
    m2: Map<Seq<char>, DownloadControl>,
    id: Seq<char>,
    r1: Result<(), String>,
    r2: Result<(), String>,
)
    requires
        updated(m0, m1, id, r1, |c: DownloadControl| DownloadControl { paused: true, cancelled: c.cancelled }),
        updated(m1, m2, id, r2, |c: DownloadControl| DownloadControl { paused: false, cancelled: c.cancelled }),
        m0.contains_key(id) ==> !m0[id].paused,
    ensures
        m2 == m0,
        r1 is Ok <==> m0.contains_key(id),
        r2 is Ok <==> m0.contains_key(id),
{
    if m0.contains_key(id) {
        assert(m2 =~= m0);
    }
}

/// A cancelled task stays cancelled whatever is paused or resumed afterwards.
pub proof fn law_cancel_is_final(
    m0: Map<Seq<char>, DownloadControl>,
    m1: Map<Seq<char>, DownloadControl>,
    id: Seq<char>,
    r: Result<(), String>,
    paused_after: bool,
)
    requires
        m0.contains_key(id),
        m0[id].cancelled,
        updated(m0, m1, id, r, |c: DownloadControl| DownloadControl { paused: paused_after, cancelled: c.cancelled }),
    ensures
        m1.contains_key(id),
        m1[id].cancelled,
{
}

/// What one attempt of the download ended with.
#[derive(Debug)]
pub enum DownloadOutcome {
    /// The stream ended: bytes written, and the size the server declared (0 when unknown).
    Completed { actual_size: u64, total_size: u64 },
    /// The task was paused after `downloaded` bytes.
    Paused { downloaded: u64, total_size: u64 },
    /// The task was cancelled.
    Cancelled,
    /// The attempt failed with a message, after `downloaded` bytes.
    Error(String, u64, u64),
}

/// What the download loop does next.
#[derive(Debug)]
pub enum LoopStep {
    /// The download is complete: bytes written and the size the server declared.
    Finished { actual_size: u64, total_size: u64 },
    /// Wait until the task is resumed or cancelled, then call [`DownloadLoop::after_pause`].
    AwaitResume,
    /// Start the next attempt from [`DownloadLoop::downloaded`] now.
    Continue,
    /// Wait two seconds, then start the next attempt from [`DownloadLoop::downloaded`].
    RetryAfterDelay,
    /// Stop: delete the partial file and report the cancellation.
    Cancelled,
    /// Stop: delete the partial file and report the failure with this message.
    Failed(String),
}

/// The download loop's state between attempts.
#[derive(Debug, Clone, Copy)]
pub struct DownloadLoop {
    /// Bytes already on disk: where the next attempt resumes.
    pub downloaded: u64,
    /// The size the server declared, 0 while unknown.
    pub total_size: u64,
    /// Failed attempts since the last success or resume.
    pub error_count: u32,
    /// Failed attempts after which the download gives up.
    pub max_retries: u32,
}

/// The message of a download that gave up.
pub open spec fn gave_up_message(max_retries: u32, e: Seq<char>) -> Seq<char> {
    "下载失败（已重试 "@ + decimal(max_retries as nat) + " 次）: "@ + e
}

impl DownloadLoop {
    /// The loop can still take a failure.
    pub open spec fn live(&self) -> bool {
        self.error_count == 0 || self.error_count < self.max_retries
    }

    /// A fresh loop: nothing downloaded, size unknown, no failure yet.
    pub fn start(max_retries: u32) -> (r: Self)
        ensures
            r.downloaded == 0,
            r.total_size == 0,
            r.error_count == 0,
            r.max_retries == max_retries,
            r.live(),
    {
        DownloadLoop { downloaded: 0, total_size: 0, error_count: 0, max_retries }
    }

    /// Decides after an attempt.  A completed stream finishes (keeping the
    /// previously known size when the last response declared none); a pause
    /// records the offset and waits; a cancellation stops; a failure records the
    /// offset, then stops if the task was cancelled meanwhile, gives up after
    /// `max_retries` failures, and otherwise retries after a delay.  A declared
    /// size of 0 never replaces a known one.
    pub fn on_outcome(&mut self, outcome: DownloadOutcome, cancelled_now: bool) -> (r: LoopStep)
        requires
            old(self).live(),
        ensures
            final(self).max_retries == old(self).max_retries,
            old(self).total_size > 0 ==> final(self).total_size > 0,
            match outcome {
                DownloadOutcome::Completed { actual_size, total_size } => r == (LoopStep::Finished {
                    actual_size,
                    total_size: if total_size > 0 { total_size } else { old(self).total_size },
                }) && *final(self) == *old(self),
                DownloadOutcome::Paused { downloaded, total_size } => r is AwaitResume
                    && final(self).downloaded == downloaded && final(self).total_size == (if total_size > 0 {
                    total_size
                } else {
                    old(self).total_size
                }) && final(self).error_count == old(self).error_count,
                DownloadOutcome::Cancelled => r is Cancelled && *final(self) == *old(self),
                DownloadOutcome::Error(e, downloaded, total_size) => final(self).downloaded == downloaded
                    && final(self).total_size == (if total_size > 0 {
                    total_size
                } else {
                    old(self).total_size
                }) && final(self).error_count == old(self).error_count + 1 && if cancelled_now {
                    r is Cancelled
                } else if final(self).error_count >= old(self).max_retries {
                    r matches LoopStep::Failed(m) && m@ == gave_up_message(old(self).max_retries, e@)
                } else {
                    r is RetryAfterDelay
                },
            },
            r is RetryAfterDelay ==> final(self).live() && final(self).error_count < final(self).max_retries,
            r is AwaitResume ==> final(self).live(),
    {
        match outcome {
            DownloadOutcome::Completed { actual_size, total_size } => {
                let t = if total_size > 0 { total_size } else { self.total_size };
                LoopStep::Finished { actual_size, total_size: t }
            },
            DownloadOutcome::Paused { downloaded, total_size } => {
                self.downloaded = downloaded;
                if total_size > 0 {
                    self.total_size = total_size;
                }
                LoopStep::AwaitResume
            },
            DownloadOutcome::Cancelled => LoopStep::Cancelled,
            DownloadOutcome::Error(e, downloaded, total_size) => {
                self.downloaded = downloaded;
                if total_size > 0 {
                    self.total_size = total_size;
                }
                self.error_count = self.error_count + 1;
                if cancelled_now {
                    LoopStep::Cancelled
                } else if self.error_count >= self.max_retries {
                    let mut m: Vec<char> = Vec::new();
                    push_str(&mut m, "下载失败（已重试 ");
                    let d = decimal_chars(self.max_retries as u64);
                    push_all(&mut m, &d);
                    push_str(&mut m, " 次）: ");
                    push_str(&mut m, e.as_str());
                    LoopStep::Failed(from_chars(&m))
                } else {
                    LoopStep::RetryAfterDelay
                }
            },
        }
    }

    /// Decides once a paused task is resumed or cancelled: a cancelled task
    /// stops; a resumed one continues from its offset with its failures forgotten.
    pub fn after_pause(&mut self, cancelled: bool) -> (r: LoopStep)
        ensures
            cancelled ==> r is Cancelled && *final(self) == *old(self),
            !cancelled ==> r is Continue && final(self).error_count == 0 && final(self).downloaded
                == old(self).downloaded && final(self).total_size == old(self).total_size
                && final(self).max_retries == old(self).max_retries,
            final(self).live() || cancelled,
    {
        if cancelled {
            LoopStep::Cancelled
        } else {
            self.error_count = 0;
            LoopStep::Continue
        }
    }
}

/// The `Range` header value that resumes a download at `offset`, or none for a fresh start.
pub fn range_header(offset: u64) -> (r: Option<String>)
    ensures
        offset == 0 ==> r is None,
        offset > 0 ==> (r matches Some(h) && h@ == "bytes="@ + decimal(offset as nat) + "-"@),
{
    if offset > 0 {
        let mut m: Vec<char> = Vec::new();
        push_str(&mut m, "bytes=");
        let d = decimal_chars(offset);
        push_all(&mut m, &d);
        push_str(&mut m, "-");
        Some(from_chars(&m))
    } else {
        None
    }
}

/// The total size of the file after a response: a partial (206) response
/// declares the remaining length, so the offset is added; a response that
/// declares nothing keeps the previously known size.
pub fn response_total(is_partial: bool, content_length: Option<u64>, start_offset: u64, known_total: u64) -> (r: u64)
    requires
        is_partial && content_length is Some ==> content_length->0 + start_offset <= u64::MAX,
    ensures
        r == match content_length {
            Some(c) => if is_partial { (c + start_offset) as u64 } else { c },
            None => known_total,
        },
{
    match content_length {
        Some(c) => if is_partial { c + start_offset } else { c },
        None => known_total,
    }
}

/// Where the byte count starts: the offset for a partial response, 0 when the
/// server sent the whole file again.
pub fn initial_downloaded(is_partial: bool, start_offset: u64) -> (r: u64)
    ensures
        r == if is_partial { start_offset } else { 0 },
{
    if is_partial { start_offset } else { 0 }
}

/// A progress event is due: at least 64 KiB since the last one and at least
/// 200 ms elapsed.
pub fn should_emit_progress(downloaded: u64, last_emitted: u64, elapsed_ms: u64) -> (r: bool)
    requires
        last_emitted <= downloaded,
    ensures
        r == (downloaded - last_emitted >= 65536 && elapsed_ms >= 200),
{
    downloaded - last_emitted >= 64 * 1024 && elapsed_ms >= 200
}

/// The total reported with a completed download: the declared size, or the
/// bytes written when none was declared.
pub fn completed_total(actual_size: u64, total: u64) -> (r: u64)
    ensures
        r == if total > 0 { total } else { actual_size },
{
    if total > 0 { total } else { actual_size }
}

/// The message of a download that stopped short of the declared size.
pub open spec fn incomplete_message(actual: u64, declared: u64) -> Seq<char> {
    "文件大小不完整（实际 "@ + decimal(actual as nat) + " / 预期 "@ + decimal(declared as nat)
        + " 字节），可能下载中断"@
}

/// The error for a download whose size differs from the declared one (when a
/// size was declared), or none.
pub fn incomplete_download_error(actual: u64, declared: u64) -> (r: Option<String>)
    ensures
        (declared > 0 && actual != declared) ==> (r matches Some(m) && m@ == incomplete_message(actual, declared)),
        !(declared > 0 && actual != declared) ==> r is None,
{
    if declared > 0 && actual != declared {
        let mut m: Vec<char> = Vec::new();
        push_str(&mut m, "文件大小不完整（实际 ");
        let a = decimal_chars(actual);
        push_all(&mut m, &a);
        push_str(&mut m, " / 预期 ");
        let d = decimal_chars(declared);
        push_all(&mut m, &d);
        push_str(&mut m, " 字节），可能下载中断");
        Some(from_chars(&m))
    } else {
        None
    }
}

} // verus!
