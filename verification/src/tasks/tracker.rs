//! Task lifecycle tracker: the canonical state of every task that flows
//! through this node.
//!
//! ```text
//!   record_outbound / record_inbound
//!         |
//!         v
//!      Queued ------> Running --+--> Completed
//!                               +--> Failed
//! ```
//!
//! Records are keyed by `task_id`; no two records share one. Recording
//! an id that is already known changes nothing, marking an unknown id
//! changes nothing, and a late `mark_running` never moves a task out of
//! `Completed` or `Failed`.

use vstd::multiset::Multiset;
use vstd::prelude::*;

use crate::clock::now_ms;
use crate::text::{opt_view, owned, same_text};

verus! {

/// Lifecycle state of a tracked task.
#[derive(Clone, Copy, Debug, PartialEq, Eq, Structural)]
pub enum TaskStatus {
    /// Created locally, not yet sent (or just received, not yet executed).
    Queued,
    /// In flight: outbound, the request is on the wire; inbound, execution started.
    Running,
    /// The worker returned a result.
    Completed,
    /// Connection failed, the peer hung up, or the executor reported an error.
    Failed,
}

/// Direction of a task relative to this node.
#[derive(Clone, Copy, Debug, PartialEq, Eq, Structural)]
pub enum TaskDirection {
    /// We sent it to a peer (`peer_id` is the worker).
    Outbound,
    /// A peer sent it to us (`peer_id` is the owner).
    Inbound,
}

/// The lifecycle record of one task.
#[derive(Debug)]
pub struct TaskRecord {
    pub task_id: String,
    /// Task type tag, e.g. `"Sum"`.
    pub task_type: String,
    pub direction: TaskDirection,
    pub status: TaskStatus,
    /// Outbound: the worker we dispatched to. Inbound: the owner who sent it.
    pub peer_id: Option<String>,
    pub created_at_ms: u64,
    pub started_at_ms: Option<u64>,
    pub completed_at_ms: Option<u64>,
    /// Numeric result, once completed.
    pub result: Option<i64>,
    /// Failure reason, once failed.
    pub error: Option<String>,
}

/// The mathematical content of a [`TaskRecord`].
pub struct TaskRecordView {
    pub task_id: Seq<char>,
    pub task_type: Seq<char>,
    pub direction: TaskDirection,
    pub status: TaskStatus,
    pub peer_id: Option<Seq<char>>,
    pub created_at_ms: u64,
    pub started_at_ms: Option<u64>,
    pub completed_at_ms: Option<u64>,
    pub result: Option<i64>,
    pub error: Option<Seq<char>>,
}

impl View for TaskRecord {
    type V = TaskRecordView;

    open spec fn view(&self) -> TaskRecordView {
        TaskRecordView {
            task_id: self.task_id@,
            task_type: self.task_type@,
            direction: self.direction,
            status: self.status,
            peer_id: opt_view(self.peer_id),
            created_at_ms: self.created_at_ms,
            started_at_ms: self.started_at_ms,
            completed_at_ms: self.completed_at_ms,
            result: self.result,
            error: opt_view(self.error),
        }
    }
}

fn copy_opt_text(o: &Option<String>) -> (r: Option<String>)
    ensures
        opt_view(r) == opt_view(*o),
{
    match o {
        Some(s) => Some(s.clone()),
        None => None,
    }
}

impl Clone for TaskRecord {
    fn clone(&self) -> (r: Self)
        ensures
            r@ == self@,
    {
        TaskRecord {
            task_id: self.task_id.clone(),
            task_type: self.task_type.clone(),
            direction: self.direction,
            status: self.status,
            peer_id: copy_opt_text(&self.peer_id),
            created_at_ms: self.created_at_ms,
            started_at_ms: self.started_at_ms,
            completed_at_ms: self.completed_at_ms,
            result: self.result,
            error: copy_opt_text(&self.error),
        }
    }
}

/// Per-status counts of tracked tasks.
#[derive(Clone, Copy, Debug, Default, PartialEq, Eq, Structural)]
pub struct StatusCounts {
    pub queued: usize,
    pub running: usize,
    pub completed: usize,
    pub failed: usize,
}

// ---------------------------------------------------------------------
// The model: a sequence of record views in the order they were created.
// ---------------------------------------------------------------------

/// No two records share a task id.
pub open spec fn ids_distinct(s: Seq<TaskRecordView>) -> bool {
    forall|i: int, j: int|
        0 <= i < s.len() && 0 <= j < s.len() && i != j ==> s[i].task_id != s[j].task_id
}

/// Some record carries `id`.
pub open spec fn has_task(s: Seq<TaskRecordView>, id: Seq<char>) -> bool {
    exists|i: int| 0 <= i < s.len() && s[i].task_id == id
}

/// The record carrying `id`, if any.
pub open spec fn lookup(s: Seq<TaskRecordView>, id: Seq<char>) -> Option<TaskRecordView> {
    if has_task(s, id) {
        Some(s[choose|i: int| 0 <= i < s.len() && s[i].task_id == id])
    } else {
        None
    }
}

/// A freshly recorded task.
pub open spec fn new_record(
    id: Seq<char>,
    task_type: Seq<char>,
    direction: TaskDirection,
    peer_id: Option<Seq<char>>,
    now: u64,
) -> TaskRecordView {
    TaskRecordView {
        task_id: id,
        task_type,
        direction,
        status: TaskStatus::Queued,
        peer_id,
        created_at_ms: now,
        started_at_ms: None,
        completed_at_ms: None,
        result: None,
        error: None,
    }
}

/// The records after recording a task: unchanged when `id` is known,
/// otherwise a new `Queued` record is appended.
pub open spec fn recorded(
    s: Seq<TaskRecordView>,
    id: Seq<char>,
    task_type: Seq<char>,
    direction: TaskDirection,
    peer_id: Option<Seq<char>>,
    now: u64,
) -> Seq<TaskRecordView> {
    if has_task(s, id) {
        s
    } else {
        s.push(new_record(id, task_type, direction, peer_id, now))
    }
}

/// A record moved to `Running`, only from `Queued`.
pub open spec fn start(r: TaskRecordView, now: u64) -> TaskRecordView {
    if r.status == TaskStatus::Queued {
        TaskRecordView { status: TaskStatus::Running, started_at_ms: Some(now), ..r }
    } else {
        r
    }
}

/// A record moved to `Completed` with `result`, its error cleared.
pub open spec fn complete(r: TaskRecordView, result: i64, now: u64) -> TaskRecordView {
    TaskRecordView {
        status: TaskStatus::Completed,
        completed_at_ms: Some(now),
        result: Some(result),
        error: None,
        ..r
    }
}

/// A record moved to `Failed` with `error`.
pub open spec fn fail(r: TaskRecordView, error: Seq<char>, now: u64) -> TaskRecordView {
    TaskRecordView {
        status: TaskStatus::Failed,
        completed_at_ms: Some(now),
        error: Some(error),
        ..r
    }
}

/// The records after `mark_running(id)` at time `now`.
pub open spec fn started(s: Seq<TaskRecordView>, id: Seq<char>, now: u64) -> Seq<TaskRecordView> {
    s.map_values(|r: TaskRecordView| if r.task_id == id { start(r, now) } else { r })
}

/// The records after `mark_completed(id, result)` at time `now`.
pub open spec fn completed(
    s: Seq<TaskRecordView>,
    id: Seq<char>,
    result: i64,
    now: u64,
) -> Seq<TaskRecordView> {
    s.map_values(|r: TaskRecordView| if r.task_id == id { complete(r, result, now) } else { r })
}

/// The records after `mark_failed(id, error)` at time `now`.
pub open spec fn failed(
    s: Seq<TaskRecordView>,
    id: Seq<char>,
    error: Seq<char>,
    now: u64,
) -> Seq<TaskRecordView> {
    s.map_values(|r: TaskRecordView| if r.task_id == id { fail(r, error, now) } else { r })
}

/// Number of records in status `st`.
pub open spec fn count_status(s: Seq<TaskRecordView>, st: TaskStatus) -> nat
    decreases s.len(),
{
    if s.len() == 0 {
        0
    } else {
        count_status(s.drop_last(), st) + if s.last().status == st {
            1nat
        } else {
            0nat
        }
    }
}

/// Records ordered from the most recently created to the oldest.
pub open spec fn newest_first(s: Seq<TaskRecordView>) -> bool {
    forall|i: int, j: int| 0 <= i < j < s.len() ==> s[i].created_at_ms >= s[j].created_at_ms
}

/// A record whose fields agree with its status: a `Queued` record has
/// no start, end, result or error; a `Running` one has a start and no
/// end, result or error; a `Completed` one has an end and a result and no
/// error; a `Failed` one has an end and an error.
pub open spec fn record_well_formed(r: TaskRecordView) -> bool {
    match r.status {
        TaskStatus::Queued => {
            &&& r.started_at_ms is None
            &&& r.completed_at_ms is None
            &&& r.result is None
            &&& r.error is None
        },
        TaskStatus::Running => {
            &&& r.started_at_ms is Some
            &&& r.completed_at_ms is None
            &&& r.result is None
            &&& r.error is None
        },
        TaskStatus::Completed => {
            &&& r.completed_at_ms is Some
            &&& r.result is Some
            &&& r.error is None
        },
        TaskStatus::Failed => {
            &&& r.completed_at_ms is Some
            &&& r.error is Some
        },
    }
}

/// Every record is well formed.
pub open spec fn all_well_formed(s: Seq<TaskRecordView>) -> bool {
    forall|i: int| 0 <= i < s.len() ==> record_well_formed(#[trigger] s[i])
}

/// The views of a vector of records.
pub open spec fn views(v: Seq<TaskRecord>) -> Seq<TaskRecordView> {
    v.map_values(|r: TaskRecord| r@)
}

/// In-memory table of task records, keyed by task id.
pub struct TaskTracker {
    records: Vec<TaskRecord>,
}

impl View for TaskTracker {
    type V = Seq<TaskRecordView>;

    /// The records, in the order they were first recorded.
    closed spec fn view(&self) -> Seq<TaskRecordView> {
        views(self.records@)
    }
}

impl Default for TaskTracker {
    fn default() -> (t: Self)
        ensures
            t@ == Seq::<TaskRecordView>::empty(),
    {
        TaskTracker::new()
    }
}

impl TaskTracker {
    #[verifier::type_invariant]
    closed spec fn keyed_by_id(self) -> bool {
        &&& ids_distinct(views(self.records@))
        &&& all_well_formed(views(self.records@))
    }

    /// An empty tracker.
    pub fn new() -> (t: Self)
        ensures
            t@ == Seq::<TaskRecordView>::empty(),
            ids_distinct(t@),
            all_well_formed(t@),
    {
        let t = TaskTracker { records: Vec::new() };
        assert(t@ =~= Seq::<TaskRecordView>::empty());
        t
    }

    fn position(&self, task_id: &str) -> (r: Option<usize>)
        ensures
            match r {
                Some(i) => i < self@.len() && self@[i as int].task_id == task_id@,
                None => !has_task(self@, task_id@),
            },
    {
        let n = self.records.len();
        let mut i: usize = 0;
        while i < n
            invariant
                n == self.records@.len(),
                i <= n,
                forall|j: int| 0 <= j < i ==> self@[j].task_id != task_id@,
            decreases n - i,
        {
            if same_text(&self.records[i].task_id, task_id) {
                return Some(i);
            }
            i = i + 1;
        }
        None
    }

    fn replace_record(&mut self, i: usize, rec: TaskRecord)
        requires
            i < old(self)@.len(),
            rec@.task_id == old(self)@[i as int].task_id,
            record_well_formed(rec@),
        ensures
            final(self)@ == old(self)@.update(i as int, rec@),
    {
        proof {
            use_type_invariant(&*self);
        }
        let ghost old_views = self@;
        let mut recs: Vec<TaskRecord> = Vec::new();
        std::mem::swap(&mut recs, &mut self.records);
        recs.set(i, rec);
        proof {
            assert(views(recs@) =~= old_views.update(i as int, rec@));
        }
        self.records = recs;
    }

    /// Record a task at time `now`, unless its id is already tracked.
    fn record_at(
        &mut self,
        task_id: &str,
        task_type: &str,
        direction: TaskDirection,
        peer_id: Option<String>,
        now: u64,
    )
        ensures
            final(self)@ == recorded(
                old(self)@,
                task_id@,
                task_type@,
                direction,
                opt_view(peer_id),
                now,
            ),
    {
        proof {
            use_type_invariant(&*self);
        }
        match self.position(task_id) {
            Some(_) => {},
            None => {
                let rec = TaskRecord {
                    task_id: owned(task_id),
                    task_type: owned(task_type),
                    direction,
                    status: TaskStatus::Queued,
                    peer_id,
                    created_at_ms: now,
                    started_at_ms: None,
                    completed_at_ms: None,
                    result: None,
                    error: None,
                };
                let ghost old_views = self@;
                let mut recs: Vec<TaskRecord> = Vec::new();
                std::mem::swap(&mut recs, &mut self.records);
                recs.push(rec);
                proof {
                    assert(views(recs@) =~= old_views.push(rec@));
                }
                self.records = recs;
            },
        }
    }

    /// Record a freshly created outbound task in `Queued` at time `now`.
    pub fn record_outbound_at(
        &mut self,
        task_id: &str,
        task_type: &str,
        peer_id: Option<String>,
        now: u64,
    )
        ensures
            ids_distinct(final(self)@),
            all_well_formed(final(self)@),
            final(self)@ == recorded(
                old(self)@,
                task_id@,
                task_type@,
                TaskDirection::Outbound,
                opt_view(peer_id),
                now,
            ),
    {
        self.record_at(task_id, task_type, TaskDirection::Outbound, peer_id, now);
        proof {
            use_type_invariant(&*self);
        }
    }

    /// Record an inbound task just received from a peer, at time `now`.
    pub fn record_inbound_at(
        &mut self,
        task_id: &str,
        task_type: &str,
        peer_id: Option<String>,
        now: u64,
    )
        ensures
            ids_distinct(final(self)@),
            all_well_formed(final(self)@),
            final(self)@ == recorded(
                old(self)@,
                task_id@,
                task_type@,
                TaskDirection::Inbound,
                opt_view(peer_id),
                now,
            ),
    {
        self.record_at(task_id, task_type, TaskDirection::Inbound, peer_id, now);
        proof {
            use_type_invariant(&*self);
        }
    }

    /// Record a freshly created outbound task in `Queued`, stamped with
    /// the current wall-clock time.
    pub fn record_outbound(&mut self, task_id: &str, task_type: &str, peer_id: Option<String>)
        ensures
            ids_distinct(final(self)@),
            all_well_formed(final(self)@),
            exists|now: u64|
                final(self)@ == recorded(
                    old(self)@,
                    task_id@,
                    task_type@,
                    TaskDirection::Outbound,
                    opt_view(peer_id),
                    now,
                ),
    {
        let now = now_ms();
        self.record_outbound_at(task_id, task_type, peer_id, now);
        proof {
            use_type_invariant(&*self);
        }
    }

    /// Record an inbound task just received from a peer, stamped with the
    /// current wall-clock time.
    pub fn record_inbound(&mut self, task_id: &str, task_type: &str, peer_id: Option<String>)
        ensures
            ids_distinct(final(self)@),
            all_well_formed(final(self)@),
            exists|now: u64|
                final(self)@ == recorded(
                    old(self)@,
                    task_id@,
                    task_type@,
                    TaskDirection::Inbound,
                    opt_view(peer_id),
                    now,
                ),
    {
        let now = now_ms();
        self.record_inbound_at(task_id, task_type, peer_id, now);
        proof {
            use_type_invariant(&*self);
        }
    }

    /// Move a `Queued` task to `Running` at time `now`.
    pub fn mark_running_at(&mut self, task_id: &str, now: u64)
        ensures
            ids_distinct(final(self)@),
            all_well_formed(final(self)@),
            final(self)@ == started(old(self)@, task_id@, now),
    {
        proof {
            use_type_invariant(&*self);
        }
        let ghost s0 = self@;
        match self.position(task_id) {
            Some(i) => {
                if self.records[i].status == TaskStatus::Queued {
                    let mut rec = self.records[i].clone();
                    rec.status = TaskStatus::Running;
                    rec.started_at_ms = Some(now);
                    self.replace_record(i, rec);
                    assert(self@ =~= started(s0, task_id@, now));
                } else {
                    assert(s0 =~= started(s0, task_id@, now));
                }
            },
            None => {
                assert(s0 =~= started(s0, task_id@, now));
            },
        }
        proof {
            use_type_invariant(&*self);
        }
    }

    /// Move a task to `Completed` with `result` at time `now`.
    pub fn mark_completed_at(&mut self, task_id: &str, result: i64, now: u64)
        ensures
            ids_distinct(final(self)@),
            all_well_formed(final(self)@),
            final(self)@ == completed(old(self)@, task_id@, result, now),
    {
        proof {
            use_type_invariant(&*self);
        }
        let ghost s0 = self@;
        match self.position(task_id) {
            Some(i) => {
                let mut rec = self.records[i].clone();
                rec.status = TaskStatus::Completed;
                rec.completed_at_ms = Some(now);
                rec.result = Some(result);
                rec.error = None;
                self.replace_record(i, rec);
                assert(self@ =~= completed(s0, task_id@, result, now));
            },
            None => {
                assert(s0 =~= completed(s0, task_id@, result, now));
            },
        }
        proof {
            use_type_invariant(&*self);
        }
    }

    /// Move a task to `Failed` with the reason `error` at time `now`.
    pub fn mark_failed_at(&mut self, task_id: &str, error: &str, now: u64)
        ensures
            ids_distinct(final(self)@),
            all_well_formed(final(self)@),
            final(self)@ == failed(old(self)@, task_id@, error@, now),
    {
        proof {
            use_type_invariant(&*self);
        }
        let ghost s0 = self@;
        match self.position(task_id) {
            Some(i) => {
                let mut rec = self.records[i].clone();
                rec.status = TaskStatus::Failed;
                rec.completed_at_ms = Some(now);
                rec.error = Some(owned(error));
                self.replace_record(i, rec);
                assert(self@ =~= failed(s0, task_id@, error@, now));
            },
            None => {
                assert(s0 =~= failed(s0, task_id@, error@, now));
            },
        }
        proof {
            use_type_invariant(&*self);
        }
    }

    /// Move a `Queued` task to `Running`, stamping the current time.
    pub fn mark_running(&mut self, task_id: &str)
        ensures
            ids_distinct(final(self)@),
            all_well_formed(final(self)@),
            exists|now: u64| final(self)@ == started(old(self)@, task_id@, now),
    {
        let now = now_ms();
        self.mark_running_at(task_id, now);
        proof {
            use_type_invariant(&*self);
        }
    }

    /// Move a task to `Completed` with `result`, stamping the current time.
    pub fn mark_completed(&mut self, task_id: &str, result: i64)
        ensures
            ids_distinct(final(self)@),
            all_well_formed(final(self)@),
            exists|now: u64| final(self)@ == completed(old(self)@, task_id@, result, now),
    {
        let now = now_ms();
        self.mark_completed_at(task_id, result, now);
        proof {
            use_type_invariant(&*self);
        }
    }

    /// Move a task to `Failed` with `error`, stamping the current time.
    pub fn mark_failed(&mut self, task_id: &str, error: &str)
        ensures
            ids_distinct(final(self)@),
            all_well_formed(final(self)@),
            exists|now: u64| final(self)@ == failed(old(self)@, task_id@, error@, now),
    {
        let now = now_ms();
        self.mark_failed_at(task_id, error, now);
        proof {
            use_type_invariant(&*self);
        }
    }

    /// Every record, most recently created first; records created at the
    /// same millisecond keep the order in which they were recorded.
    pub fn list(&self) -> (out: Vec<TaskRecord>)
        ensures
            ids_distinct(self@),
            all_well_formed(self@),
            views(out@).to_multiset() == self@.to_multiset(),
            newest_first(views(out@)),
            all_well_formed(views(out@)),
    {
        proof {
            use_type_invariant(self);
        }
        let n = self.records.len();
        let mut out: Vec<TaskRecord> = Vec::new();
        let mut k: usize = 0;
        assert(views(out@) =~= self@.take(0));
        while k < n
            invariant
                n == self.records@.len(),
                k <= n,
                views(out@).to_multiset() == self@.take(k as int).to_multiset(),
                newest_first(views(out@)),
                all_well_formed(self@),
                all_well_formed(views(out@)),
            decreases n - k,
        {
            let rec = self.records[k].clone();
            let created = rec.created_at_ms;
            let m = out.len();
            let mut p: usize = 0;
            while p < m && out[p].created_at_ms >= created
                invariant
                    m == out@.len(),
                    p <= m,
                    forall|q: int| 0 <= q < p ==> out@[q]@.created_at_ms >= created,
                decreases m - p,
            {
                p = p + 1;
            }
            let ghost before = views(out@);
            out.insert(p, rec);
            proof {
                assert(views(out@) =~= before.insert(p as int, rec@));
                lemma_insert_to_multiset(before, p as int, rec@);
                assert(self@.take(k + 1) =~= self@.take(k as int).push(self@[k as int]));
                self@.take(k as int).to_multiset_ensures();
                assert forall|i: int, j: int|
                    0 <= i < j < views(out@).len() implies views(out@)[i].created_at_ms
                    >= views(out@)[j].created_at_ms by {
                    if j < p {
                    } else if j == p {
                    } else if i < p {
                        assert(before[j - 1].created_at_ms < created || p == m);
                    } else if i == p {
                        assert(before[p as int].created_at_ms < created);
                    } else {
                    }
                }
            }
            k = k + 1;
        }
        proof {
            assert(self@.take(n as int) =~= self@);
        }
        out
    }

    /// Number of tasks in each status.
    pub fn status_counts(&self) -> (c: StatusCounts)
        ensures
            ids_distinct(self@),
            all_well_formed(self@),
            c.queued == count_status(self@, TaskStatus::Queued),
            c.running == count_status(self@, TaskStatus::Running),
            c.completed == count_status(self@, TaskStatus::Completed),
            c.failed == count_status(self@, TaskStatus::Failed),
    {
        proof {
            use_type_invariant(self);
        }
        let n = self.records.len();
        let mut c = StatusCounts { queued: 0, running: 0, completed: 0, failed: 0 };
        let mut i: usize = 0;
        while i < n
            invariant
                n == self.records@.len(),
                i <= n,
                c.queued == count_status(self@.take(i as int), TaskStatus::Queued),
                c.running == count_status(self@.take(i as int), TaskStatus::Running),
                c.completed == count_status(self@.take(i as int), TaskStatus::Completed),
                c.failed == count_status(self@.take(i as int), TaskStatus::Failed),
            decreases n - i,
        {
            proof {
                assert(self@.take(i + 1).drop_last() =~= self@.take(i as int));
                law_counts_add_up(self@.take(i as int));
            }
            match self.records[i].status {
                TaskStatus::Queued => c.queued = c.queued + 1,
                TaskStatus::Running => c.running = c.running + 1,
                TaskStatus::Completed => c.completed = c.completed + 1,
                TaskStatus::Failed => c.failed = c.failed + 1,
            }
            i = i + 1;
        }
        proof {
            assert(self@.take(n as int) =~= self@);
        }
        c
    }

    /// Number of tracked tasks, in any status.
    pub fn len(&self) -> (n: usize)
        ensures
            ids_distinct(self@),
            all_well_formed(self@),
            n == self@.len(),
    {
        proof {
            use_type_invariant(self);
        }
        self.records.len()
    }

    /// True when no task has ever been recorded.
    pub fn is_empty(&self) -> (b: bool)
        ensures
            b == (self@.len() == 0),
    {
        self.records.len() == 0
    }
}

pub proof fn lemma_insert_to_multiset<A>(s: Seq<A>, p: int, x: A)
    requires
        0 <= p <= s.len(),
    ensures
        s.insert(p, x).to_multiset() == s.to_multiset().insert(x),
{
    let t = s.insert(p, x);
    assert(t.remove(p) =~= s);
    t.to_multiset_ensures();
    assert(t[p] == x);
    assert(t.contains(x));
    assert(t.to_multiset().count(x) > 0);
    assert(s.to_multiset() =~= t.to_multiset().remove(x));
    assert(t.to_multiset() =~= s.to_multiset().insert(x));
}

// ---------------------------------------------------------------------
// Laws of the tracker.
// ---------------------------------------------------------------------

/// Every tracked task is counted in exactly one status.
pub proof fn law_counts_add_up(s: Seq<TaskRecordView>)
    ensures
        count_status(s, TaskStatus::Queued) + count_status(s, TaskStatus::Running)
            + count_status(s, TaskStatus::Completed) + count_status(s, TaskStatus::Failed)
            == s.len(),
    decreases s.len(),
{
    if s.len() > 0 {
        law_counts_add_up(s.drop_last());
    }
}

proof fn lemma_lookup_at(s: Seq<TaskRecordView>, id: Seq<char>, i: int)
    requires
        ids_distinct(s),
        0 <= i < s.len(),
        s[i].task_id == id,
    ensures
        lookup(s, id) == Some(s[i]),
{
    let j = choose|j: int| 0 <= j < s.len() && s[j].task_id == id;
    assert(0 <= j < s.len() && s[j].task_id == id);
}

/// Reading a task back after recording it: a new id yields the fresh
/// `Queued` record, a known id yields its existing record unchanged.
pub proof fn law_lookup_after_record(
    s: Seq<TaskRecordView>,
    id: Seq<char>,
    task_type: Seq<char>,
    direction: TaskDirection,
    peer_id: Option<Seq<char>>,
    now: u64,
)
    requires
        ids_distinct(s),
    ensures
        ids_distinct(recorded(s, id, task_type, direction, peer_id, now)),
        lookup(recorded(s, id, task_type, direction, peer_id, now), id) == if has_task(s, id) {
            lookup(s, id)
        } else {
            Some(new_record(id, task_type, direction, peer_id, now))
        },
{
    let t = recorded(s, id, task_type, direction, peer_id, now);
    if !has_task(s, id) {
        lemma_lookup_at(t, id, s.len() as int);
    }
}

/// Recording is idempotent: recording a task id a second time, whatever
/// the type, peer or time, leaves the tracker as the first call left it.
pub proof fn law_record_is_idempotent(
    s: Seq<TaskRecordView>,
    id: Seq<char>,
    t1: Seq<char>,
    d1: TaskDirection,
    p1: Option<Seq<char>>,
    n1: u64,
    t2: Seq<char>,
    d2: TaskDirection,
    p2: Option<Seq<char>>,
    n2: u64,
)
    ensures
        recorded(recorded(s, id, t1, d1, p1, n1), id, t2, d2, p2, n2) == recorded(
            s,
            id,
            t1,
            d1,
            p1,
            n1,
        ),
{
    let r = recorded(s, id, t1, d1, p1, n1);
    if !has_task(s, id) {
        assert(r[s.len() as int].task_id == id);
    }
}

/// Marking a task that is not tracked changes nothing: no phantom
/// records appear and no other record moves.
pub proof fn law_marks_ignore_unknown_ids(
    s: Seq<TaskRecordView>,
    id: Seq<char>,
    result: i64,
    error: Seq<char>,
    now: u64,
)
    requires
        !has_task(s, id),
    ensures
        started(s, id, now) == s,
        completed(s, id, result, now) == s,
        failed(s, id, error, now) == s,
{
    assert(started(s, id, now) =~= s);
    assert(completed(s, id, result, now) =~= s);
    assert(failed(s, id, error, now) =~= s);
}

/// A late `mark_running` never undoes progress: a task that is already
/// `Running`, `Completed` or `Failed` is left exactly as it was.
pub proof fn law_running_never_regresses(s: Seq<TaskRecordView>, id: Seq<char>, now: u64)
    requires
        ids_distinct(s),
        has_task(s, id),
        lookup(s, id).unwrap().status != TaskStatus::Queued,
    ensures
        started(s, id, now) == s,
{
    let i = choose|i: int| 0 <= i < s.len() && s[i].task_id == id;
    assert forall|j: int| 0 <= j < s.len() && s[j].task_id == id implies j == i by {}
    assert(started(s, id, now) =~= s);
}

/// What each transition leaves in the record it targets, read back by id:
/// `mark_running` moves `Queued` to `Running` and stamps the start;
/// `mark_completed` attaches the result and clears any earlier error;
/// `mark_failed` captures the reason. Every other record is untouched.
pub proof fn law_transitions_read_back(
    s: Seq<TaskRecordView>,
    id: Seq<char>,
    result: i64,
    error: Seq<char>,
    now: u64,
)
    requires
        ids_distinct(s),
        has_task(s, id),
    ensures
        lookup(started(s, id, now), id) == Some(start(lookup(s, id).unwrap(), now)),
        lookup(completed(s, id, result, now), id) == Some(
            complete(lookup(s, id).unwrap(), result, now),
        ),
        lookup(failed(s, id, error, now), id) == Some(fail(lookup(s, id).unwrap(), error, now)),
        forall|other: Seq<char>|
            other != id ==> lookup(started(s, id, now), other) == lookup(s, other) && lookup(
                completed(s, id, result, now),
                other,
            ) == lookup(s, other) && lookup(failed(s, id, error, now), other) == lookup(s, other),
{
    let i = choose|i: int| 0 <= i < s.len() && s[i].task_id == id;
    lemma_lookup_at(s, id, i);
    let a = started(s, id, now);
    let b = completed(s, id, result, now);
    let c = failed(s, id, error, now);
    assert(ids_distinct(a));
    assert(ids_distinct(b));
    assert(ids_distinct(c));
    lemma_lookup_at(a, id, i);
    lemma_lookup_at(b, id, i);
    lemma_lookup_at(c, id, i);
    assert forall|other: Seq<char>| other != id implies lookup(a, other) == lookup(s, other)
        && lookup(b, other) == lookup(s, other) && lookup(c, other) == lookup(s, other) by {
        if has_task(s, other) {
            let j = choose|j: int| 0 <= j < s.len() && s[j].task_id == other;
            lemma_lookup_at(s, other, j);
            lemma_lookup_at(a, other, j);
            lemma_lookup_at(b, other, j);
            lemma_lookup_at(c, other, j);
        } else {
            assert(!has_task(a, other));
            assert(!has_task(b, other));
            assert(!has_task(c, other));
        }
    }
}

/// Every transition keeps every record well formed: recording a task,
/// and marking one running, completed or failed, never leaves a record
/// whose fields disagree with its status.
pub proof fn law_transitions_keep_records_well_formed(
    s: Seq<TaskRecordView>,
    id: Seq<char>,
    task_type: Seq<char>,
    direction: TaskDirection,
    peer_id: Option<Seq<char>>,
    result: i64,
    error: Seq<char>,
    now: u64,
)
    requires
        all_well_formed(s),
    ensures
        all_well_formed(recorded(s, id, task_type, direction, peer_id, now)),
        all_well_formed(started(s, id, now)),
        all_well_formed(completed(s, id, result, now)),
        all_well_formed(failed(s, id, error, now)),
{
    let r = recorded(s, id, task_type, direction, peer_id, now);
    assert forall|i: int| 0 <= i < r.len() implies record_well_formed(#[trigger] r[i]) by {
        if i < s.len() {
            assert(record_well_formed(s[i]));
        }
    }
    let a = started(s, id, now);
    assert forall|i: int| 0 <= i < a.len() implies record_well_formed(#[trigger] a[i]) by {
        assert(record_well_formed(s[i]));
    }
    let b = completed(s, id, result, now);
    assert forall|i: int| 0 <= i < b.len() implies record_well_formed(#[trigger] b[i]) by {
        assert(record_well_formed(s[i]));
    }
    let c = failed(s, id, error, now);
    assert forall|i: int| 0 <= i < c.len() implies record_well_formed(#[trigger] c[i]) by {
        assert(record_well_formed(s[i]));
    }
}

} // verus!
