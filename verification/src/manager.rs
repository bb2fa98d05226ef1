//! The worker manager: the central authority over all workers and runs.
//!
//! The manager owns the in-memory worker and run tables, enforces
//! per-worker concurrency admission, dispatches matching events, applies
//! the retry policy to failing runs, and exposes the query and command
//! surface used by the protocol layer.  Process work it cannot do itself
//! (spawning, killing) is returned as [`ProcAction`] values for the
//! surrounding binary to perform; their outcomes are fed back in through
//! `on_spawned`, `on_spawn_failed` and `on_process_exit`.
//!
//! Every operation preserves the manager invariant [`ManagerView::wf`]:
//! well-formed records, unique identifiers below the id counters, and for
//! every worker no more non-terminal runs than its concurrency limit.

use vstd::prelude::*;

use crate::errors::{DaemonError, ErrorKind};
use crate::model::{
    clone_opt_string, clone_string_vec, run_terminal, CreateWorker, CreateWorkerView, Event,
    EventView, Run, RunStatus, RunView, Worker, WorkerStatus, WorkerView,
};
use crate::numfmt::{dec_str, u64_to_string};
use crate::retry::{retry_delay_ms, spec_retry_delay_ms, DEFAULT_MAX_ATTEMPTS, MAX_RETRY_DELAY_MS};
use crate::runfsm::{
    force_stop_run, mark_done, mark_exit_failed, mark_orphaned, mark_running, mark_spawn_failed,
    pause_scheduled_run, promote_run, resume_paused_run, retry_successor, spec_force_stop,
    spec_mark_done, spec_mark_failed, spec_mark_orphaned, spec_mark_running, spec_pause,
    spec_promote, spec_resume, spec_retry_successor, exit_message,
};

verus! {

/// A process-level action the manager asks the surrounding binary to
/// perform: spawn the (pending) run's command, or kill a run's process.
#[derive(Clone, Copy, PartialEq, Eq, Structural, Debug)]
pub enum ProcAction {
    Spawn { run_id: u64 },
    Kill { run_id: u64, pid: u32 },
}

/// Mathematical view of the manager state.
#[verifier::ext_equal]
pub ghost struct ManagerView {
    pub workers: Seq<WorkerView>,
    pub runs: Seq<RunView>,
    pub next_worker_id: u64,
    pub next_run_id: u64,
    pub logs_root: Seq<char>,
}

/// True of a run that counts against its worker's concurrency limit.
pub open spec fn is_active(r: RunView, wid: u64) -> bool {
    r.worker_id == wid && !run_terminal(r.status)
}

/// Number of non-terminal runs of the given worker.
pub open spec fn count_active(runs: Seq<RunView>, wid: u64) -> int
    decreases runs.len(),
{
    if runs.len() == 0 {
        0
    } else {
        count_active(runs.drop_last(), wid) + if is_active(runs.last(), wid) {
            1int
        } else {
            0int
        }
    }
}

/// True of a run that is admitted or executing right now.
pub open spec fn is_running_or_pending(r: RunView, wid: u64) -> bool {
    r.worker_id == wid && (r.status is Running || r.status is Pending)
}

/// Number of runs of the given worker with status `running` or `pending`.
pub open spec fn count_running_or_pending(runs: Seq<RunView>, wid: u64) -> int
    decreases runs.len(),
{
    if runs.len() == 0 {
        0
    } else {
        count_running_or_pending(runs.drop_last(), wid) + if is_running_or_pending(
            runs.last(),
            wid,
        ) {
            1int
        } else {
            0int
        }
    }
}

pub proof fn lemma_count_active_push(runs: Seq<RunView>, wid: u64, r: RunView)
    ensures
        count_active(runs.push(r), wid) == count_active(runs, wid) + if is_active(r, wid) {
            1int
        } else {
            0int
        },
{
    assert(runs.push(r).drop_last() =~= runs);
    assert(runs.push(r).last() == r);
}

pub proof fn lemma_count_active_update(runs: Seq<RunView>, wid: u64, i: int, r: RunView)
    requires
        0 <= i < runs.len(),
    ensures
        count_active(runs.update(i, r), wid) == count_active(runs, wid) - (if is_active(
            runs[i],
            wid,
        ) {
            1int
        } else {
            0int
        }) + (if is_active(r, wid) {
            1int
        } else {
            0int
        }),
    decreases runs.len(),
{
    let u = runs.update(i, r);
    if i == runs.len() - 1 {
        assert(u.drop_last() =~= runs.drop_last());
        assert(u.last() == r);
    } else {
        lemma_count_active_update(runs.drop_last(), wid, i, r);
        assert(u.drop_last() =~= runs.drop_last().update(i, r));
        assert(u.last() == runs.last());
    }
}

/// Pointwise deactivation can only lower the active count.
pub proof fn lemma_count_active_le(a: Seq<RunView>, b: Seq<RunView>, wid: u64)
    requires
        a.len() == b.len(),
        forall|j: int| 0 <= j < b.len() && is_active(b[j], wid) ==> is_active(a[j], wid),
    ensures
        count_active(b, wid) <= count_active(a, wid),
    decreases a.len(),
{
    if a.len() > 0 {
        lemma_count_active_le(a.drop_last(), b.drop_last(), wid);
    }
}

/// A worker nothing refers to has no active runs.
pub proof fn lemma_count_active_zero(runs: Seq<RunView>, wid: u64)
    requires
        forall|j: int| 0 <= j < runs.len() ==> runs[j].worker_id != wid,
    ensures
        count_active(runs, wid) == 0,
    decreases runs.len(),
{
    if runs.len() > 0 {
        lemma_count_active_zero(runs.drop_last(), wid);
    }
}

/// A run that is running or pending is in particular non-terminal, so the
/// running-or-pending count is bounded by the active count.
pub proof fn lemma_count_running_or_pending_le_active(runs: Seq<RunView>, wid: u64)
    ensures
        count_running_or_pending(runs, wid) <= count_active(runs, wid),
    decreases runs.len(),
{
    if runs.len() > 0 {
        lemma_count_running_or_pending_le_active(runs.drop_last(), wid);
    }
}

impl ManagerView {
    /// The manager invariant.
    pub open spec fn wf(self) -> bool {
        &&& forall|i: int| 0 <= i < self.workers.len() ==> (#[trigger] self.workers[i]).wf()
        &&& forall|i: int| 0 <= i < self.runs.len() ==> (#[trigger] self.runs[i]).wf()
        &&& forall|i: int|
            0 <= i < self.workers.len() ==> (#[trigger] self.workers[i]).id < self.next_worker_id
        &&& forall|i: int|
            0 <= i < self.runs.len() ==> (#[trigger] self.runs[i]).id < self.next_run_id
        &&& forall|i: int|
            0 <= i < self.runs.len() ==> (#[trigger] self.runs[i]).worker_id < self.next_worker_id
        &&& forall|i: int, j: int|
            0 <= i < j < self.workers.len() ==> self.workers[i].id != self.workers[j].id
        &&& forall|i: int, j: int| 0 <= i < j < self.runs.len() ==> self.runs[i].id != self.runs[j].id
        &&& forall|i: int|
            0 <= i < self.workers.len() ==> count_active(self.runs, (#[trigger] self.workers[i]).id)
                <= self.workers[i].concurrency
    }

    /// Some worker carries the given id.
    pub open spec fn has_worker(self, id: u64) -> bool {
        exists|i: int| 0 <= i < self.workers.len() && (#[trigger] self.workers[i]).id == id
    }

    /// Some run carries the given id.
    pub open spec fn has_run(self, id: u64) -> bool {
        exists|i: int| 0 <= i < self.runs.len() && (#[trigger] self.runs[i]).id == id
    }
}

/// A worker record freshly created from a specification: status `running`,
/// immediately eligible to receive events.
pub open spec fn spec_new_worker(cw: CreateWorkerView, id: u64, now: u64) -> WorkerView {
    WorkerView {
        id,
        runner_name: cw.runner_name,
        command: cw.command,
        args: cw.args,
        event_type: cw.event_type,
        filters: cw.filters,
        concurrency: match cw.concurrency {
            Some(c) => c,
            None => 1,
        },
        instance_path: cw.instance_path,
        detached: cw.detached,
        status: WorkerStatus::Running,
        created_at: now,
        updated_at: now,
    }
}

/// A start-worker specification is rejected exactly when its command is
/// empty or its concurrency is explicitly zero.
pub open spec fn spec_create_invalid(cw: CreateWorkerView) -> bool {
    cw.command.len() == 0 || cw.concurrency == Some(0u32)
}

/// The central authority owning all workers and their runs.
pub struct WorkerManager {
    pub workers: Vec<Worker>,
    pub runs: Vec<Run>,
    pub next_worker_id: u64,
    pub next_run_id: u64,
    pub logs_root: String,
}

impl View for WorkerManager {
    type V = ManagerView;

    open spec fn view(&self) -> ManagerView {
        ManagerView {
            workers: self.workers.deep_view(),
            runs: self.runs.deep_view(),
            next_worker_id: self.next_worker_id,
            next_run_id: self.next_run_id,
            logs_root: self.logs_root@,
        }
    }
}

impl WorkerManager {
    /// An empty manager rooted at the given logs directory.
    pub fn new(logs_root: String) -> (m: WorkerManager)
        ensures
            m@.wf(),
            m@.workers.len() == 0,
            m@.runs.len() == 0,
            m@.next_worker_id == 1,
            m@.next_run_id == 1,
            m@.logs_root == logs_root@,
    {
        let m = WorkerManager {
            workers: Vec::new(),
            runs: Vec::new(),
            next_worker_id: 1,
            next_run_id: 1,
            logs_root,
        };
        proof {
            assert(m@.workers =~= Seq::<WorkerView>::empty());
            assert(m@.runs =~= Seq::<RunView>::empty());
        }
        m
    }

    /// Index of the worker with the given id, if any.
    fn find_worker_index(&self, id: u64) -> (r: Option<usize>)
        ensures
            match r {
                Some(i) => i < self@.workers.len() && self@.workers[i as int].id == id,
                None => !self@.has_worker(id),
            },
    {
        let mut i: usize = 0;
        while i < self.workers.len()
            invariant
                i <= self@.workers.len(),
                forall|j: int| 0 <= j < i ==> (#[trigger] self@.workers[j]).id != id,
            decreases self@.workers.len() - i,
        {
            if self.workers[i].id == id {
                return Some(i);
            }
            i = i + 1;
        }
        None
    }

    /// Index of the run with the given id, if any.
    fn find_run_index(&self, id: u64) -> (r: Option<usize>)
        ensures
            match r {
                Some(i) => i < self@.runs.len() && self@.runs[i as int].id == id,
                None => !self@.has_run(id),
            },
    {
        let mut i: usize = 0;
        while i < self.runs.len()
            invariant
                i <= self@.runs.len(),
                forall|j: int| 0 <= j < i ==> (#[trigger] self@.runs[j]).id != id,
            decreases self@.runs.len() - i,
        {
            if self.runs[i].id == id {
                return Some(i);
            }
            i = i + 1;
        }
        None
    }

    /// Number of non-terminal runs of the given worker.
    fn count_active_runs(&self, wid: u64) -> (c: usize)
        ensures
            c as int == count_active(self@.runs, wid),
    {
        let mut c: usize = 0;
        let mut i: usize = 0;
        proof {
            assert(self@.runs.take(0) =~= Seq::<RunView>::empty());
        }
        while i < self.runs.len()
            invariant
                i <= self@.runs.len(),
                c as int == count_active(self@.runs.take(i as int), wid),
                c <= i,
            decreases self@.runs.len() - i,
        {
            let r = &self.runs[i];
            if r.worker_id == wid && !r.status.is_terminal() {
                c = c + 1;
            }
            proof {
                assert(self@.runs.take(i + 1).drop_last() =~= self@.runs.take(i as int));
                assert(self@.runs.take(i + 1).last() == self@.runs[i as int]);
            }
            i = i + 1;
        }
        proof {
            assert(self@.runs.take(self@.runs.len() as int) =~= self@.runs);
        }
        c
    }

    /// Create a worker from a specification.
    ///
    /// Fails with a validation error exactly when the command is empty or
    /// the concurrency is explicitly zero; on success the new worker is
    /// appended, carries the next worker id, and is immediately eligible
    /// to receive events.
    pub fn start_worker(&mut self, cw: &CreateWorker, now: u64) -> (res: Result<
        Worker,
        DaemonError,
    >)
        requires
            old(self)@.wf(),
            old(self)@.next_worker_id < u64::MAX,
        ensures
            final(self)@.wf(),
            res is Err <==> spec_create_invalid(cw@),
            res is Err ==> final(self)@ == old(self)@,
            res matches Err(e) ==> e.kind == ErrorKind::Validation && e.message@ == (if cw@.command.len() == 0 {
                "Worker command must not be empty"@
            } else {
                "Worker concurrency must be at least 1"@
            }),
            res matches Ok(w) ==> {
                &&& w@ == spec_new_worker(cw@, old(self)@.next_worker_id, now)
                &&& final(self)@.workers == old(self)@.workers.push(w@)
                &&& final(self)@.runs == old(self)@.runs
                &&& final(self)@.next_worker_id == old(self)@.next_worker_id + 1
                &&& final(self)@.next_run_id == old(self)@.next_run_id
                &&& final(self)@.logs_root == old(self)@.logs_root
            },
    {
        if cw.command.as_str().is_empty() {
            return Err(DaemonError::new(
                ErrorKind::Validation,
                "Worker command must not be empty".to_owned(),
            ));
        }
        if let Some(c) = cw.concurrency {
            if c == 0 {
                return Err(DaemonError::new(
                    ErrorKind::Validation,
                    "Worker concurrency must be at least 1".to_owned(),
                ));
            }
        }
        let id = self.next_worker_id;
        let concurrency = match cw.concurrency {
            Some(c) => c,
            None => 1,
        };
        let w = Worker {
            id,
            runner_name: clone_opt_string(&cw.runner_name),
            command: cw.command.clone(),
            args: clone_string_vec(&cw.args),
            event_type: cw.event_type.clone(),
            filters: clone_opt_string(&cw.filters),
            concurrency,
            instance_path: clone_opt_string(&cw.instance_path),
            detached: cw.detached,
            status: WorkerStatus::Running,
            created_at: now,
            updated_at: now,
        };
        let wc = w.clone();
        proof {
            assert(w@ == spec_new_worker(cw@, id, now));
        }
        self.workers.push(w);
        self.next_worker_id = id + 1;
        proof {
            assert(self@.workers =~= old(self)@.workers.push(wc@));
            assert(self@.runs =~= old(self)@.runs);
            let m = self@;
            assert forall|i: int| 0 <= i < m.workers.len() implies count_active(
                m.runs,
                (#[trigger] m.workers[i]).id,
            ) <= m.workers[i].concurrency by {
                if i < m.workers.len() - 1 {
                    assert(m.workers[i] == old(self)@.workers[i]);
                } else {
                    assert(m.workers[i].id == id);
                    lemma_count_active_zero(m.runs, id);
                }
            }
        }
        Ok(wc)
    }

    /// Look up a worker by id; the returned record is a copy.
    pub fn get_worker(&self, id: u64) -> (r: Option<Worker>)
        ensures
            match r {
                Some(w) => exists|i: int|
                    0 <= i < self@.workers.len() && (#[trigger] self@.workers[i]).id == id
                        && w@ == self@.workers[i],
                None => !self@.has_worker(id),
            },
    {
        match self.find_worker_index(id) {
            Some(i) => Some(self.workers[i].clone()),
            None => None,
        }
    }

    /// Look up a run by id; the returned record is a copy.
    pub fn get_run(&self, id: u64) -> (r: Option<Run>)
        ensures
            match r {
                Some(run) => exists|i: int|
                    0 <= i < self@.runs.len() && (#[trigger] self@.runs[i]).id == id && run@
                        == self@.runs[i],
                None => !self@.has_run(id),
            },
    {
        match self.find_run_index(id) {
            Some(i) => Some(self.runs[i].clone()),
            None => None,
        }
    }
}

/// The workers a listing returns: all of them, or only those currently
/// `running` (excluding stopped and errored ones).
pub open spec fn spec_list_workers(ws: Seq<WorkerView>, all: bool) -> Seq<WorkerView>
    decreases ws.len(),
{
    if ws.len() == 0 {
        Seq::empty()
    } else {
        let rest = spec_list_workers(ws.drop_last(), all);
        if all || ws.last().status is Running {
            rest.push(ws.last())
        } else {
            rest
        }
    }
}

/// The runs a listing returns: filtered by worker, by status, and unless
/// `all` is set restricted to non-terminal runs.
pub open spec fn spec_list_runs(
    rs: Seq<RunView>,
    wid: Option<u64>,
    status: Option<RunStatus>,
    all: bool,
) -> Seq<RunView>
    decreases rs.len(),
{
    if rs.len() == 0 {
        Seq::empty()
    } else {
        let rest = spec_list_runs(rs.drop_last(), wid, status, all);
        if spec_run_listed(rs.last(), wid, status, all) {
            rest.push(rs.last())
        } else {
            rest
        }
    }
}

/// Whether one run is kept by the `list_runs` filter.
pub open spec fn spec_run_listed(
    r: RunView,
    wid: Option<u64>,
    status: Option<RunStatus>,
    all: bool,
) -> bool {
    &&& (wid matches Some(w) ==> r.worker_id == w)
    &&& (status matches Some(s) ==> r.status == s)
    &&& (all || !run_terminal(r.status))
}

impl WorkerManager {
    /// List workers: all of them, or only the running ones.
    pub fn list_workers(&self, all: bool) -> (r: Vec<Worker>)
        ensures
            r.deep_view() == spec_list_workers(self@.workers, all),
    {
        let mut out: Vec<Worker> = Vec::new();
        let mut i: usize = 0;
        proof {
            assert(self@.workers.take(0) =~= Seq::<WorkerView>::empty());
            assert(out.deep_view() =~= spec_list_workers(self@.workers.take(0), all));
        }
        while i < self.workers.len()
            invariant
                i <= self@.workers.len(),
                out.deep_view() == spec_list_workers(self@.workers.take(i as int), all),
            decreases self@.workers.len() - i,
        {
            let keep = all || matches!(self.workers[i].status, WorkerStatus::Running);
            if keep {
                out.push(self.workers[i].clone());
            }
            proof {
                assert(self@.workers.take(i + 1).drop_last() =~= self@.workers.take(i as int));
                assert(self@.workers.take(i + 1).last() == self@.workers[i as int]);
                assert(out.deep_view() =~= spec_list_workers(self@.workers.take(i + 1), all));
            }
            i = i + 1;
        }
        proof {
            assert(self@.workers.take(self@.workers.len() as int) =~= self@.workers);
        }
        out
    }

    /// List runs, optionally restricted to one worker and one status;
    /// unless `all` is set only non-terminal runs are returned.
    pub fn list_runs(&self, wid: Option<u64>, status: Option<RunStatus>, all: bool) -> (r: Vec<
        Run,
    >)
        ensures
            r.deep_view() == spec_list_runs(self@.runs, wid, status, all),
    {
        let mut out: Vec<Run> = Vec::new();
        let mut i: usize = 0;
        proof {
            assert(self@.runs.take(0) =~= Seq::<RunView>::empty());
            assert(out.deep_view() =~= spec_list_runs(self@.runs.take(0), wid, status, all));
        }
        while i < self.runs.len()
            invariant
                i <= self@.runs.len(),
                out.deep_view() == spec_list_runs(self@.runs.take(i as int), wid, status, all),
            decreases self@.runs.len() - i,
        {
            let r = &self.runs[i];
            let wid_ok = match wid {
                Some(w) => r.worker_id == w,
                None => true,
            };
            let status_ok = match status {
                Some(s) => r.status == s,
                None => true,
            };
            let keep = wid_ok && status_ok && (all || !r.status.is_terminal());
            if keep {
                out.push(self.runs[i].clone());
            }
            proof {
                assert(self@.runs.take(i + 1).drop_last() =~= self@.runs.take(i as int));
                assert(self@.runs.take(i + 1).last() == self@.runs[i as int]);
                assert(out.deep_view() =~= spec_list_runs(self@.runs.take(i + 1), wid, status, all));
            }
            i = i + 1;
        }
        proof {
            assert(self@.runs.take(self@.runs.len() as int) =~= self@.runs);
        }
        out
    }
}

} // verus!

verus! {

/// Re-establish the manager invariant after one run record is replaced by
/// a well-formed record with the same identity that does not newly count
/// against its worker's limit.
proof fn lemma_wf_after_run_update(m: ManagerView, m2: ManagerView, i: int, r: RunView)
    requires
        m.wf(),
        0 <= i < m.runs.len(),
        m2.workers == m.workers,
        m2.next_worker_id == m.next_worker_id,
        m2.next_run_id == m.next_run_id,
        m2.runs == m.runs.update(i, r),
        r.wf(),
        r.id == m.runs[i].id,
        r.worker_id == m.runs[i].worker_id,
        !run_terminal(r.status) ==> !run_terminal(m.runs[i].status),
    ensures
        m2.wf(),
{
    assert forall|k: int|
        0 <= k < m2.workers.len() implies count_active(
        m2.runs,
        (#[trigger] m2.workers[k]).id,
    ) <= m2.workers[k].concurrency by {
        lemma_count_active_update(m.runs, m2.workers[k].id, i, r);
    }
}

/// Outcome of stopping the run at index `i`: the updated run table and the
/// kill action owed, if its process was running.
pub open spec fn spec_stop_run_at(runs: Seq<RunView>, i: int, now: u64) -> (Seq<RunView>, Option<
    ProcAction,
>)
    recommends
        0 <= i < runs.len(),
{
    if run_terminal(runs[i].status) {
        (runs, None)
    } else {
        (
            runs.update(i, spec_force_stop(runs[i], now)),
            if runs[i].status is Running {
                Some(ProcAction::Kill { run_id: runs[i].id, pid: runs[i].pid->0 })
            } else {
                None
            },
        )
    }
}

impl WorkerManager {
    /// Stop a run.
    ///
    /// A running process is owed a kill; a pending or retry-scheduled run
    /// has its scheduled retry cancelled and becomes `stopped` directly;
    /// stopping an already terminal run is a no-op that still succeeds.
    /// Fails only when the run id is unknown.
    pub fn stop_run(&mut self, id: u64, now: u64) -> (res: Result<Option<ProcAction>, DaemonError>)
        requires
            old(self)@.wf(),
        ensures
            final(self)@.wf(),
            final(self)@.workers == old(self)@.workers,
            final(self)@.next_worker_id == old(self)@.next_worker_id,
            final(self)@.next_run_id == old(self)@.next_run_id,
            final(self)@.logs_root == old(self)@.logs_root,
            res is Err <==> !old(self)@.has_run(id),
            res is Err ==> final(self)@ == old(self)@,
            res matches Err(e) ==> e.kind == ErrorKind::NotFound,
            res matches Ok(act) ==> exists|i: int|
                0 <= i < old(self)@.runs.len() && (#[trigger] old(self)@.runs[i]).id == id && (
                final(self)@.runs,
                act,
                ) == spec_stop_run_at(old(self)@.runs, i, now),
    {
        let idx = match self.find_run_index(id) {
            Some(i) => i,
            None => {
                return Err(
                    DaemonError::new(ErrorKind::NotFound, "Run not found".to_owned()),
                );
            },
        };
        let ghost old_m = self@;
        if self.runs[idx].status.is_terminal() {
            proof {
                assert((self@.runs, None::<ProcAction>) == spec_stop_run_at(
                    old(self)@.runs,
                    idx as int,
                    now,
                ));
            }
            return Ok(None);
        }
        let was_running = matches!(self.runs[idx].status, RunStatus::Running);
        let pid = self.runs[idx].pid;
        let r = &mut self.runs[idx];
        force_stop_run(r, now);
        let act = if was_running {
            match pid {
                Some(p) => Some(ProcAction::Kill { run_id: id, pid: p }),
                None => None,
            }
        } else {
            None
        };
        proof {
            assert(self@.runs =~= old_m.runs.update(
                idx as int,
                spec_force_stop(old_m.runs[idx as int], now),
            ));
            lemma_wf_after_run_update(
                old_m,
                self@,
                idx as int,
                spec_force_stop(old_m.runs[idx as int], now),
            );
            assert((self@.runs, act) == spec_stop_run_at(old(self)@.runs, idx as int, now));
        }
        Ok(act)
    }

    /// Pause a run awaiting a scheduled retry: the retry time is kept but
    /// the sweep will skip the run until it is resumed.  Pausing anything
    /// other than a retry-scheduled run (in particular a currently
    /// executing one) is invalid.
    pub fn pause_run(&mut self, id: u64, now: u64) -> (res: Result<(), DaemonError>)
        requires
            old(self)@.wf(),
        ensures
            final(self)@.wf(),
            final(self)@.workers == old(self)@.workers,
            final(self)@.next_worker_id == old(self)@.next_worker_id,
            final(self)@.next_run_id == old(self)@.next_run_id,
            final(self)@.logs_root == old(self)@.logs_root,
            res is Ok <==> exists|i: int|
                0 <= i < old(self)@.runs.len() && (#[trigger] old(self)@.runs[i]).id == id
                    && old(self)@.runs[i].status is RetryScheduled,
            res is Ok ==> exists|i: int|
                0 <= i < old(self)@.runs.len() && (#[trigger] old(self)@.runs[i]).id == id
                    && final(self)@.runs == old(self)@.runs.update(
                    i,
                    spec_pause(old(self)@.runs[i], now),
                ),
            res is Err ==> final(self)@ == old(self)@,
            res matches Err(e) ==> e.kind == (if old(self)@.has_run(id) {
                ErrorKind::InvalidState
            } else {
                ErrorKind::NotFound
            }),
    {
        let idx = match self.find_run_index(id) {
            Some(i) => i,
            None => {
                return Err(
                    DaemonError::new(ErrorKind::NotFound, "Run not found".to_owned()),
                );
            },
        };
        let ghost old_m = self@;
        if !matches!(self.runs[idx].status, RunStatus::RetryScheduled) {
            return Err(
                DaemonError::new(
                    ErrorKind::InvalidState,
                    "Only a run awaiting a scheduled retry can be paused".to_owned(),
                ),
            );
        }
        let r = &mut self.runs[idx];
        pause_scheduled_run(r, now);
        proof {
            assert(self@.runs =~= old_m.runs.update(
                idx as int,
                spec_pause(old_m.runs[idx as int], now),
            ));
            lemma_wf_after_run_update(
                old_m,
                self@,
                idx as int,
                spec_pause(old_m.runs[idx as int], now),
            );
        }
        Ok(())
    }

    /// Re-arm a paused retry.  Resuming anything other than a paused run
    /// is invalid.
    pub fn resume_run(&mut self, id: u64, now: u64) -> (res: Result<(), DaemonError>)
        requires
            old(self)@.wf(),
        ensures
            final(self)@.wf(),
            final(self)@.workers == old(self)@.workers,
            final(self)@.next_worker_id == old(self)@.next_worker_id,
            final(self)@.next_run_id == old(self)@.next_run_id,
            final(self)@.logs_root == old(self)@.logs_root,
            res is Ok <==> exists|i: int|
                0 <= i < old(self)@.runs.len() && (#[trigger] old(self)@.runs[i]).id == id
                    && old(self)@.runs[i].status is Paused,
            res is Ok ==> exists|i: int|
                0 <= i < old(self)@.runs.len() && (#[trigger] old(self)@.runs[i]).id == id
                    && final(self)@.runs == old(self)@.runs.update(
                    i,
                    spec_resume(old(self)@.runs[i], now),
                ),
            res is Err ==> final(self)@ == old(self)@,
            res matches Err(e) ==> e.kind == (if old(self)@.has_run(id) {
                ErrorKind::InvalidState
            } else {
                ErrorKind::NotFound
            }),
    {
        let idx = match self.find_run_index(id) {
            Some(i) => i,
            None => {
                return Err(
                    DaemonError::new(ErrorKind::NotFound, "Run not found".to_owned()),
                );
            },
        };
        let ghost old_m = self@;
        if !matches!(self.runs[idx].status, RunStatus::Paused) {
            return Err(
                DaemonError::new(
                    ErrorKind::InvalidState,
                    "Only a paused run can be resumed".to_owned(),
                ),
            );
        }
        let r = &mut self.runs[idx];
        resume_paused_run(r, now);
        proof {
            assert(self@.runs =~= old_m.runs.update(
                idx as int,
                spec_resume(old_m.runs[idx as int], now),
            ));
            lemma_wf_after_run_update(
                old_m,
                self@,
                idx as int,
                spec_resume(old_m.runs[idx as int], now),
            );
        }
        Ok(())
    }

    /// Record that a pending run's process was spawned: the run becomes
    /// `running` with its pid and start time.  If the run is no longer
    /// pending (for instance stopped in the meantime), nothing changes and
    /// the caller must dispose of the process it spawned.
    pub fn on_spawned(&mut self, id: u64, pid: u32, now: u64) -> (res: Result<(), DaemonError>)
        requires
            old(self)@.wf(),
        ensures
            final(self)@.wf(),
            final(self)@.workers == old(self)@.workers,
            final(self)@.next_worker_id == old(self)@.next_worker_id,
            final(self)@.next_run_id == old(self)@.next_run_id,
            final(self)@.logs_root == old(self)@.logs_root,
            res is Ok <==> exists|i: int|
                0 <= i < old(self)@.runs.len() && (#[trigger] old(self)@.runs[i]).id == id
                    && old(self)@.runs[i].status is Pending,
            res is Ok ==> exists|i: int|
                0 <= i < old(self)@.runs.len() && (#[trigger] old(self)@.runs[i]).id == id
                    && final(self)@.runs == old(self)@.runs.update(
                    i,
                    spec_mark_running(old(self)@.runs[i], pid, now),
                ),
            res is Err ==> final(self)@ == old(self)@,
            res matches Err(e) ==> e.kind == (if old(self)@.has_run(id) {
                ErrorKind::InvalidState
            } else {
                ErrorKind::NotFound
            }),
    {
        let idx = match self.find_run_index(id) {
            Some(i) => i,
            None => {
                return Err(
                    DaemonError::new(ErrorKind::NotFound, "Run not found".to_owned()),
                );
            },
        };
        let ghost old_m = self@;
        if !matches!(self.runs[idx].status, RunStatus::Pending) {
            return Err(
                DaemonError::new(
                    ErrorKind::InvalidState,
                    "Run is no longer pending".to_owned(),
                ),
            );
        }
        let r = &mut self.runs[idx];
        mark_running(r, pid, now);
        proof {
            assert(self@.runs =~= old_m.runs.update(
                idx as int,
                spec_mark_running(old_m.runs[idx as int], pid, now),
            ));
            lemma_wf_after_run_update(
                old_m,
                self@,
                idx as int,
                spec_mark_running(old_m.runs[idx as int], pid, now),
            );
        }
        Ok(())
    }
}

} // verus!

verus! {

/// The run table after a failed attempt at index `i`: the run is terminally
/// in error, and while attempts remain a successor record is appended,
/// scheduled for retry after the backoff delay and carrying the failure
/// message of the attempt it follows.
pub open spec fn spec_fail_outcome(
    runs: Seq<RunView>,
    i: int,
    exit_code: Option<i32>,
    msg: Seq<char>,
    now: u64,
    next_run_id: u64,
) -> Seq<RunView>
    recommends
        0 <= i < runs.len(),
{
    let failed = spec_mark_failed(runs[i], exit_code, msg, now);
    let updated = runs.update(i, failed);
    if runs[i].attempt < runs[i].max_attempts {
        let retry_at = (now + spec_retry_delay_ms(runs[i].attempt as nat)) as u64;
        updated.push(spec_retry_successor(failed, next_run_id, retry_at, now))
    } else {
        updated
    }
}

impl WorkerManager {
    /// Apply the retry policy after the attempt at index `idx` failed.
    /// The record there must already be the terminal error record.
    fn schedule_retry_if_attempts_remain(&mut self, idx: usize, now: u64)
        requires
            old(self)@.wf(),
            idx < old(self)@.runs.len(),
            old(self)@.runs[idx as int].status is Error,
            old(self)@.runs[idx as int].exit_code is None ==> old(self)@.runs[idx as int].wf(),
            old(self)@.runs[idx as int].wf(),
            old(self)@.next_run_id < u64::MAX,
            now <= u64::MAX - MAX_RETRY_DELAY_MS,
            forall|k: int|
                0 <= k < old(self)@.workers.len() && (#[trigger] old(self)@.workers[k]).id == old(
                    self,
                )@.runs[idx as int].worker_id ==> count_active(old(self)@.runs, old(self)@.workers[k].id)
                    < old(self)@.workers[k].concurrency,
        ensures
            final(self)@.wf() == old(self)@.wf(),
            final(self)@.workers == old(self)@.workers,
            final(self)@.logs_root == old(self)@.logs_root,
            final(self)@.next_worker_id == old(self)@.next_worker_id,
            ({
                let r = old(self)@.runs[idx as int];
                if r.attempt < r.max_attempts {
                    let retry_at = (now + spec_retry_delay_ms(r.attempt as nat)) as u64;
                    &&& final(self)@.runs == old(self)@.runs.push(
                        spec_retry_successor(r, old(self)@.next_run_id, retry_at, now),
                    )
                    &&& final(self)@.next_run_id == old(self)@.next_run_id + 1
                } else {
                    &&& final(self)@.runs == old(self)@.runs
                    &&& final(self)@.next_run_id == old(self)@.next_run_id
                }
            }),
    {
        let ghost old_m = self@;
        let attempt = self.runs[idx].attempt;
        let max_attempts = self.runs[idx].max_attempts;
        if attempt < max_attempts {
            let delay = retry_delay_ms(attempt);
            let retry_at = now + delay;
            let sid = self.next_run_id;
            let succ = retry_successor(&self.runs[idx], sid, retry_at, now);
            self.runs.push(succ);
            self.next_run_id = sid + 1;
            proof {
                let sv = spec_retry_successor(
                    old_m.runs[idx as int],
                    old_m.next_run_id,
                    (now + spec_retry_delay_ms(old_m.runs[idx as int].attempt as nat)) as u64,
                    now,
                );
                assert(self@.runs =~= old_m.runs.push(sv));
                if old_m.wf() {
                    assert forall|k: int|
                        0 <= k < self@.workers.len() implies count_active(
                        self@.runs,
                        (#[trigger] self@.workers[k]).id,
                    ) <= self@.workers[k].concurrency by {
                        lemma_count_active_push(old_m.runs, self@.workers[k].id, sv);
                    }
                    assert(self@.wf());
                }
            }
        }
    }
}

} // verus!

verus! {

/// How an observed process exit is applied to the state: a late notice for
/// a run that is no longer `running` changes nothing; exit code zero makes
/// the run `done`; any other code makes it terminally `error` and, while
/// attempts remain, appends a retry-scheduled successor.
pub open spec fn spec_exit_applied(
    m: ManagerView,
    i: int,
    code: i32,
    now: u64,
    m2: ManagerView,
) -> bool {
    if !(m.runs[i].status is Running) {
        m2 == m
    } else if code == 0 {
        &&& m2.runs == m.runs.update(i, spec_mark_done(m.runs[i], now))
        &&& m2.next_run_id == m.next_run_id
    } else {
        &&& m2.runs == spec_fail_outcome(
            m.runs,
            i,
            Some(code),
            exit_message(code as int),
            now,
            m.next_run_id,
        )
        &&& m2.next_run_id == m.next_run_id + (if m.runs[i].attempt < m.runs[i].max_attempts {
            1int
        } else {
            0int
        })
    }
}

/// How a spawn failure is applied to the state: a notice for a run that is
/// no longer `pending` changes nothing; otherwise the run is terminally
/// `error` with the spawn failure message and no exit code and, while
/// attempts remain, a retry-scheduled successor is appended.
pub open spec fn spec_spawn_failed_applied(
    m: ManagerView,
    i: int,
    msg: Seq<char>,
    now: u64,
    m2: ManagerView,
) -> bool {
    if !(m.runs[i].status is Pending) {
        m2 == m
    } else {
        &&& m2.runs == spec_fail_outcome(m.runs, i, None, msg, now, m.next_run_id)
        &&& m2.next_run_id == m.next_run_id + (if m.runs[i].attempt < m.runs[i].max_attempts {
            1int
        } else {
            0int
        })
    }
}

impl WorkerManager {
    /// Record that a run's process exited with the given code.
    pub fn on_process_exit(&mut self, id: u64, code: i32, now: u64) -> (res: Result<
        (),
        DaemonError,
    >)
        requires
            old(self)@.wf(),
            old(self)@.next_run_id < u64::MAX,
            now <= u64::MAX - MAX_RETRY_DELAY_MS,
        ensures
            final(self)@.wf(),
            final(self)@.workers == old(self)@.workers,
            final(self)@.next_worker_id == old(self)@.next_worker_id,
            final(self)@.logs_root == old(self)@.logs_root,
            res is Err <==> !old(self)@.has_run(id),
            res is Err ==> final(self)@ == old(self)@,
            res matches Err(e) ==> e.kind == ErrorKind::NotFound,
            res is Ok ==> exists|i: int|
                0 <= i < old(self)@.runs.len() && (#[trigger] old(self)@.runs[i]).id == id
                    && spec_exit_applied(old(self)@, i, code, now, final(self)@),
    {
        let idx = match self.find_run_index(id) {
            Some(i) => i,
            None => {
                return Err(
                    DaemonError::new(ErrorKind::NotFound, "Run not found".to_owned()),
                );
            },
        };
        let ghost old_m = self@;
        if !matches!(self.runs[idx].status, RunStatus::Running) {
            return Ok(());
        }
        if code == 0 {
            let r = &mut self.runs[idx];
            mark_done(r, now);
            proof {
                assert(self@.runs =~= old_m.runs.update(
                    idx as int,
                    spec_mark_done(old_m.runs[idx as int], now),
                ));
                lemma_wf_after_run_update(
                    old_m,
                    self@,
                    idx as int,
                    spec_mark_done(old_m.runs[idx as int], now),
                );
            }
            return Ok(());
        }
        let r = &mut self.runs[idx];
        mark_exit_failed(r, code, now);
        proof {
            assert(self@.runs =~= old_m.runs.update(
                idx as int,
                spec_mark_failed(
                    old_m.runs[idx as int],
                    Some(code),
                    exit_message(code as int),
                    now,
                ),
            ));
            lemma_wf_after_run_update(
                old_m,
                self@,
                idx as int,
                spec_mark_failed(
                    old_m.runs[idx as int],
                    Some(code),
                    exit_message(code as int),
                    now,
                ),
            );
            assert forall|k: int|
                0 <= k < self@.workers.len() && (#[trigger] self@.workers[k]).id
                    == self@.runs[idx as int].worker_id implies count_active(
                self@.runs,
                self@.workers[k].id,
            ) < self@.workers[k].concurrency by {
                lemma_count_active_update(
                    old_m.runs,
                    self@.workers[k].id,
                    idx as int,
                    spec_mark_failed(
                        old_m.runs[idx as int],
                        Some(code),
                        exit_message(code as int),
                        now,
                    ),
                );
            }
        }
        let ghost mid_m = self@;
        self.schedule_retry_if_attempts_remain(idx, now);
        proof {
            if old_m.runs[idx as int].attempt < old_m.runs[idx as int].max_attempts {
                assert(self@.runs =~= spec_fail_outcome(
                    old_m.runs,
                    idx as int,
                    Some(code),
                    exit_message(code as int),
                    now,
                    old_m.next_run_id,
                ));
            }
        }
        Ok(())
    }

    /// Record that a pending run's process could not be spawned; the given
    /// message is the spawn failure detail recorded on the run.
    pub fn on_spawn_failed(&mut self, id: u64, message: String, now: u64) -> (res: Result<
        (),
        DaemonError,
    >)
        requires
            old(self)@.wf(),
            old(self)@.next_run_id < u64::MAX,
            now <= u64::MAX - MAX_RETRY_DELAY_MS,
        ensures
            final(self)@.wf(),
            final(self)@.workers == old(self)@.workers,
            final(self)@.next_worker_id == old(self)@.next_worker_id,
            final(self)@.logs_root == old(self)@.logs_root,
            res is Err <==> !old(self)@.has_run(id),
            res is Err ==> final(self)@ == old(self)@,
            res matches Err(e) ==> e.kind == ErrorKind::NotFound,
            res is Ok ==> exists|i: int|
                0 <= i < old(self)@.runs.len() && (#[trigger] old(self)@.runs[i]).id == id
                    && spec_spawn_failed_applied(old(self)@, i, message@, now, final(self)@),
    {
        let idx = match self.find_run_index(id) {
            Some(i) => i,
            None => {
                return Err(
                    DaemonError::new(ErrorKind::NotFound, "Run not found".to_owned()),
                );
            },
        };
        let ghost old_m = self@;
        if !matches!(self.runs[idx].status, RunStatus::Pending) {
            return Ok(());
        }
        let ghost msg_view = message@;
        let r = &mut self.runs[idx];
        mark_spawn_failed(r, message, now);
        proof {
            assert(self@.runs =~= old_m.runs.update(
                idx as int,
                spec_mark_failed(old_m.runs[idx as int], None, msg_view, now),
            ));
            lemma_wf_after_run_update(
                old_m,
                self@,
                idx as int,
                spec_mark_failed(old_m.runs[idx as int], None, msg_view, now),
            );
            assert forall|k: int|
                0 <= k < self@.workers.len() && (#[trigger] self@.workers[k]).id
                    == self@.runs[idx as int].worker_id implies count_active(
                self@.runs,
                self@.workers[k].id,
            ) < self@.workers[k].concurrency by {
                lemma_count_active_update(
                    old_m.runs,
                    self@.workers[k].id,
                    idx as int,
                    spec_mark_failed(old_m.runs[idx as int], None, msg_view, now),
                );
            }
        }
        self.schedule_retry_if_attempts_remain(idx, now);
        proof {
            if old_m.runs[idx as int].attempt < old_m.runs[idx as int].max_attempts {
                assert(self@.runs =~= spec_fail_outcome(
                    old_m.runs,
                    idx as int,
                    None,
                    msg_view,
                    now,
                    old_m.next_run_id,
                ));
            }
        }
        Ok(())
    }
}

} // verus!

verus! {

/// A retry that has come due: scheduled, with its retry time at or before
/// `now`.  Paused runs are not due; the sweep skips them.
pub open spec fn run_due(r: RunView, now: u64) -> bool {
    &&& r.status is RetryScheduled
    &&& r.next_retry_at matches Some(t) && t <= now
}

/// The run table after a sweep: every due retry promoted back to pending.
pub open spec fn spec_sweep_runs(runs: Seq<RunView>, now: u64) -> Seq<RunView> {
    Seq::new(
        runs.len(),
        |i: int|
            if run_due(runs[i], now) {
                spec_promote(runs[i], now)
            } else {
                runs[i]
            },
    )
}

/// The spawn actions a sweep owes: one per promoted run, in table order.
pub open spec fn spec_sweep_actions(runs: Seq<RunView>, now: u64) -> Seq<ProcAction>
    decreases runs.len(),
{
    if runs.len() == 0 {
        Seq::empty()
    } else {
        spec_sweep_actions(runs.drop_last(), now) + if run_due(runs.last(), now) {
            seq![ProcAction::Spawn { run_id: runs.last().id }]
        } else {
            Seq::empty()
        }
    }
}

impl WorkerManager {
    /// Promote every due retry back to `pending` and return the spawn
    /// actions owed for them.  Two sweeps never promote the same run
    /// twice: promotion moves it out of the scheduled status.
    pub fn sweep_retries(&mut self, now: u64) -> (acts: Vec<ProcAction>)
        requires
            old(self)@.wf(),
        ensures
            final(self)@.wf(),
            final(self)@.workers == old(self)@.workers,
            final(self)@.next_worker_id == old(self)@.next_worker_id,
            final(self)@.next_run_id == old(self)@.next_run_id,
            final(self)@.logs_root == old(self)@.logs_root,
            final(self)@.runs == spec_sweep_runs(old(self)@.runs, now),
            acts@ == spec_sweep_actions(old(self)@.runs, now),
    {
        let ghost old_m = self@;
        let mut acts: Vec<ProcAction> = Vec::new();
        let mut i: usize = 0;
        proof {
            assert(acts@ =~= spec_sweep_actions(old_m.runs.take(0), now));
        }
        while i < self.runs.len()
            invariant
                old_m.wf(),
                i <= old_m.runs.len(),
                self@.runs.len() == old_m.runs.len(),
                self@.workers == old_m.workers,
                self@.next_worker_id == old_m.next_worker_id,
                self@.next_run_id == old_m.next_run_id,
                self@.logs_root == old_m.logs_root,
                forall|j: int|
                    0 <= j < i ==> self@.runs[j] == (if run_due(old_m.runs[j], now) {
                        spec_promote(old_m.runs[j], now)
                    } else {
                        old_m.runs[j]
                    }),
                forall|j: int| i <= j < old_m.runs.len() ==> self@.runs[j] == old_m.runs[j],
                acts@ == spec_sweep_actions(old_m.runs.take(i as int), now),
            decreases self@.runs.len() - i,
        {
            let due = match (&self.runs[i].status, &self.runs[i].next_retry_at) {
                (RunStatus::RetryScheduled, Some(t)) => *t <= now,
                _ => false,
            };
            if due {
                let rid = self.runs[i].id;
                let r = &mut self.runs[i];
                promote_run(r, now);
                acts.push(ProcAction::Spawn { run_id: rid });
            }
            proof {
                assert(old_m.runs.take(i + 1).drop_last() =~= old_m.runs.take(i as int));
                assert(old_m.runs.take(i + 1).last() == old_m.runs[i as int]);
                assert(acts@ =~= spec_sweep_actions(old_m.runs.take(i + 1), now));
            }
            i = i + 1;
        }
        proof {
            assert(old_m.runs.take(old_m.runs.len() as int) =~= old_m.runs);
            assert(self@.runs =~= spec_sweep_runs(old_m.runs, now));
            assert forall|k: int|
                0 <= k < self@.workers.len() implies count_active(
                self@.runs,
                (#[trigger] self@.workers[k]).id,
            ) <= self@.workers[k].concurrency by {
                lemma_count_active_le(old_m.runs, self@.runs, self@.workers[k].id);
            }
            assert(self@.wf());
        }
        acts
    }
}

} // verus!

verus! {

/// A worker record transitioned to `stopped`.
pub open spec fn spec_stopped_worker(w: WorkerView, now: u64) -> WorkerView {
    WorkerView { status: WorkerStatus::Stopped, updated_at: now, ..w }
}

/// The run table after force-stopping every non-terminal run of a worker.
pub open spec fn spec_stop_worker_runs(runs: Seq<RunView>, wid: u64, now: u64) -> Seq<RunView> {
    Seq::new(
        runs.len(),
        |i: int|
            if is_active(runs[i], wid) {
                spec_force_stop(runs[i], now)
            } else {
                runs[i]
            },
    )
}

/// The kill actions owed for a worker's currently running processes, in
/// table order.
pub open spec fn spec_kill_actions(runs: Seq<RunView>, wid: u64) -> Seq<ProcAction>
    decreases runs.len(),
{
    if runs.len() == 0 {
        Seq::empty()
    } else {
        spec_kill_actions(runs.drop_last(), wid) + if runs.last().worker_id == wid
            && runs.last().status is Running {
            seq![ProcAction::Kill { run_id: runs.last().id, pid: runs.last().pid->0 }]
        } else {
            Seq::empty()
        }
    }
}

impl WorkerManager {
    /// Force-stop every non-terminal run of the given worker, returning
    /// the kill actions owed for processes that were running.
    fn stop_runs_of_worker(&mut self, wid: u64, now: u64) -> (acts: Vec<ProcAction>)
        requires
            old(self)@.wf(),
        ensures
            final(self)@.wf(),
            final(self)@.workers == old(self)@.workers,
            final(self)@.next_worker_id == old(self)@.next_worker_id,
            final(self)@.next_run_id == old(self)@.next_run_id,
            final(self)@.logs_root == old(self)@.logs_root,
            final(self)@.runs == spec_stop_worker_runs(old(self)@.runs, wid, now),
            acts@ == spec_kill_actions(old(self)@.runs, wid),
    {
        let ghost old_m = self@;
        let mut acts: Vec<ProcAction> = Vec::new();
        let mut i: usize = 0;
        proof {
            assert(acts@ =~= spec_kill_actions(old_m.runs.take(0), wid));
        }
        while i < self.runs.len()
            invariant
                old_m.wf(),
                i <= old_m.runs.len(),
                self@.runs.len() == old_m.runs.len(),
                self@.workers == old_m.workers,
                self@.next_worker_id == old_m.next_worker_id,
                self@.next_run_id == old_m.next_run_id,
                self@.logs_root == old_m.logs_root,
                forall|j: int|
                    0 <= j < i ==> self@.runs[j] == (if is_active(old_m.runs[j], wid) {
                        spec_force_stop(old_m.runs[j], now)
                    } else {
                        old_m.runs[j]
                    }),
                forall|j: int| i <= j < old_m.runs.len() ==> self@.runs[j] == old_m.runs[j],
                acts@ == spec_kill_actions(old_m.runs.take(i as int), wid),
            decreases self@.runs.len() - i,
        {
            let ghost pre = self@;
            proof {
                assert(self@.runs[i as int] == old_m.runs[i as int]);
                assert(old_m.runs[i as int].wf());
            }
            let hit = self.runs[i].worker_id == wid && !self.runs[i].status.is_terminal();
            if hit {
                if matches!(self.runs[i].status, RunStatus::Running) {
                    let rid = self.runs[i].id;
                    match self.runs[i].pid {
                        Some(p) => acts.push(ProcAction::Kill { run_id: rid, pid: p }),
                        None => (),
                    }
                }
                let r = &mut self.runs[i];
                force_stop_run(r, now);
                proof {
                    assert(self@.runs =~= pre.runs.update(
                        i as int,
                        spec_force_stop(old_m.runs[i as int], now),
                    ));
                }
            }
            proof {
                assert(old_m.runs.take(i + 1).drop_last() =~= old_m.runs.take(i as int));
                assert(old_m.runs.take(i + 1).last() == old_m.runs[i as int]);
                assert(acts@ =~= spec_kill_actions(old_m.runs.take(i + 1), wid));
                assert forall|j: int| 0 <= j <= i implies self@.runs[j] == (if is_active(
                    old_m.runs[j],
                    wid,
                ) {
                    spec_force_stop(old_m.runs[j], now)
                } else {
                    old_m.runs[j]
                }) by {
                    if j < i {
                        assert(self@.runs[j] == pre.runs[j]);
                    }
                }
            }
            i = i + 1;
        }
        proof {
            assert(old_m.runs.take(old_m.runs.len() as int) =~= old_m.runs);
            assert(self@.runs =~= spec_stop_worker_runs(old_m.runs, wid, now));
            assert forall|k: int|
                0 <= k < self@.workers.len() implies count_active(
                self@.runs,
                (#[trigger] self@.workers[k]).id,
            ) <= self@.workers[k].concurrency by {
                lemma_count_active_le(old_m.runs, self@.runs, self@.workers[k].id);
            }
            assert(self@.wf());
        }
        acts
    }

    /// Stop a worker.
    ///
    /// The worker becomes `stopped` and no new runs are admitted for it.
    /// With `stop_runs` every non-terminal run is force-stopped (the kill
    /// actions for running processes are returned); without it, in-flight
    /// runs finish naturally.  Fails only when the worker id is unknown.
    pub fn stop_worker(&mut self, id: u64, stop_runs: bool, now: u64) -> (res: Result<
        Vec<ProcAction>,
        DaemonError,
    >)
        requires
            old(self)@.wf(),
        ensures
            final(self)@.wf(),
            final(self)@.next_worker_id == old(self)@.next_worker_id,
            final(self)@.next_run_id == old(self)@.next_run_id,
            final(self)@.logs_root == old(self)@.logs_root,
            res is Err <==> !old(self)@.has_worker(id),
            res is Err ==> final(self)@ == old(self)@,
            res matches Err(e) ==> e.kind == ErrorKind::NotFound,
            res matches Ok(acts) ==> exists|wi: int|
                0 <= wi < old(self)@.workers.len() && (#[trigger] old(self)@.workers[wi]).id == id
                    && final(self)@.workers == old(self)@.workers.update(
                    wi,
                    spec_stopped_worker(old(self)@.workers[wi], now),
                ),
            res matches Ok(acts) ==> {
                &&& final(self)@.runs == (if stop_runs {
                    spec_stop_worker_runs(old(self)@.runs, id, now)
                } else {
                    old(self)@.runs
                })
                &&& acts@ == (if stop_runs {
                    spec_kill_actions(old(self)@.runs, id)
                } else {
                    Seq::<ProcAction>::empty()
                })
            },
    {
        let wi = match self.find_worker_index(id) {
            Some(i) => i,
            None => {
                return Err(
                    DaemonError::new(ErrorKind::NotFound, "Worker not found".to_owned()),
                );
            },
        };
        let ghost old_m = self@;
        let w = &mut self.workers[wi];
        w.status = WorkerStatus::Stopped;
        w.updated_at = now;
        proof {
            assert(self@.workers =~= old_m.workers.update(
                wi as int,
                spec_stopped_worker(old_m.workers[wi as int], now),
            ));
            assert forall|k: int|
                0 <= k < self@.workers.len() implies count_active(
                self@.runs,
                (#[trigger] self@.workers[k]).id,
            ) <= self@.workers[k].concurrency by {
                assert(self@.workers[k].id == old_m.workers[k].id);
                assert(self@.workers[k].concurrency == old_m.workers[k].concurrency);
            }
            assert(self@.wf());
        }
        if stop_runs {
            let acts = self.stop_runs_of_worker(id, now);
            Ok(acts)
        } else {
            let acts: Vec<ProcAction> = Vec::new();
            proof {
                assert(acts@ =~= Seq::<ProcAction>::empty());
            }
            Ok(acts)
        }
    }
}

} // verus!

verus! {

/// Whether a vector of pids contains the given pid.
fn contains_u32(v: &Vec<u32>, x: u32) -> (b: bool)
    ensures
        b == v@.contains(x),
{
    let mut i: usize = 0;
    while i < v.len()
        invariant
            i <= v@.len(),
            forall|j: int| 0 <= j < i ==> v@[j] != x,
        decreases v@.len() - i,
    {
        if v[i] == x {
            return true;
        }
        i = i + 1;
    }
    false
}

/// A worker whose supervision is re-established at startup: persisted as
/// `running` and not detached.
pub open spec fn should_restore(workers: Seq<WorkerView>, wid: u64) -> bool {
    exists|k: int|
        0 <= k < workers.len() && (#[trigger] workers[k]).id == wid && workers[k].status is Running
            && !workers[k].detached
}

/// A worker the daemon tears down at shutdown: any that is not detached.
pub open spec fn worker_attached(workers: Seq<WorkerView>, wid: u64) -> bool {
    exists|k: int|
        0 <= k < workers.len() && (#[trigger] workers[k]).id == wid && !workers[k].detached
}

/// A run found orphaned during startup recovery: persisted as `running`
/// under a restorable worker, with no live process behind its pid.
pub open spec fn orphaned(
    workers: Seq<WorkerView>,
    r: RunView,
    live: Seq<u32>,
    now: u64,
) -> bool {
    &&& r.status is Running
    &&& should_restore(workers, r.worker_id)
    &&& !live.contains(r.pid->0)
}

/// The run table after startup recovery: every orphaned run marked
/// terminally in error; everything else untouched.
pub open spec fn spec_restore_runs(
    workers: Seq<WorkerView>,
    runs: Seq<RunView>,
    live: Seq<u32>,
    now: u64,
) -> Seq<RunView> {
    Seq::new(
        runs.len(),
        |i: int|
            if orphaned(workers, runs[i], live, now) {
                spec_mark_orphaned(runs[i], now)
            } else {
                runs[i]
            },
    )
}

impl WorkerManager {
    /// Whether the worker with this id is persisted `running` and not
    /// detached (the workers whose supervision restart re-establishes).
    fn is_restorable_worker(&self, wid: u64) -> (b: bool)
        requires
            forall|i: int, j: int|
                0 <= i < j < self@.workers.len() ==> self@.workers[i].id != self@.workers[j].id,
        ensures
            b == should_restore(self@.workers, wid),
    {
        match self.find_worker_index(wid) {
            Some(k) => {
                let w = &self.workers[k];
                let b = matches!(w.status, WorkerStatus::Running) && !w.detached;
                proof {
                    if !b {
                        assert forall|k2: int|
                            0 <= k2 < self@.workers.len() && (#[trigger] self@.workers[k2]).id
                                == wid implies !(self@.workers[k2].status is Running
                            && !self@.workers[k2].detached) by {
                            if k2 != k as int {
                                assert(self@.workers[k2].id != self@.workers[k as int].id);
                            }
                        }
                    }
                }
                b
            },
            None => false,
        }
    }

    /// Whether the worker with this id exists and is not detached.
    fn is_attached_worker(&self, wid: u64) -> (b: bool)
        requires
            forall|i: int, j: int|
                0 <= i < j < self@.workers.len() ==> self@.workers[i].id != self@.workers[j].id,
        ensures
            b == worker_attached(self@.workers, wid),
    {
        match self.find_worker_index(wid) {
            Some(k) => {
                let b = !self.workers[k].detached;
                proof {
                    if !b {
                        assert forall|k2: int|
                            0 <= k2 < self@.workers.len() && (#[trigger] self@.workers[k2]).id
                                == wid implies self@.workers[k2].detached by {
                            if k2 != k as int {
                                assert(self@.workers[k2].id != self@.workers[k as int].id);
                            }
                        }
                    }
                }
                b
            },
            None => false,
        }
    }

    /// Startup reconciliation: for every persisted worker that is `running`
    /// and not detached, runs persisted as `running` whose pid has no live
    /// process behind it are marked `error`; the workers themselves are
    /// kept `running` and stay eligible for new events.  This is a
    /// reconciliation pass, not a re-exec.
    pub fn restore_workers(&mut self, live_pids: &Vec<u32>, now: u64)
        requires
            old(self)@.wf(),
        ensures
            final(self)@.wf(),
            final(self)@.workers == old(self)@.workers,
            final(self)@.next_worker_id == old(self)@.next_worker_id,
            final(self)@.next_run_id == old(self)@.next_run_id,
            final(self)@.logs_root == old(self)@.logs_root,
            final(self)@.runs == spec_restore_runs(
                old(self)@.workers,
                old(self)@.runs,
                live_pids@,
                now,
            ),
    {
        let ghost old_m = self@;
        let mut i: usize = 0;
        while i < self.runs.len()
            invariant
                old_m.wf(),
                i <= old_m.runs.len(),
                self@.runs.len() == old_m.runs.len(),
                self@.workers == old_m.workers,
                self@.next_worker_id == old_m.next_worker_id,
                self@.next_run_id == old_m.next_run_id,
                self@.logs_root == old_m.logs_root,
                forall|j: int|
                    0 <= j < i ==> self@.runs[j] == (if orphaned(
                        old_m.workers,
                        old_m.runs[j],
                        live_pids@,
                        now,
                    ) {
                        spec_mark_orphaned(old_m.runs[j], now)
                    } else {
                        old_m.runs[j]
                    }),
                forall|j: int| i <= j < old_m.runs.len() ==> self@.runs[j] == old_m.runs[j],
            decreases self@.runs.len() - i,
        {
            let ghost pre = self@;
            proof {
                assert(self@.runs[i as int] == old_m.runs[i as int]);
                assert(old_m.runs[i as int].wf());
            }
            let is_run_running = matches!(self.runs[i].status, RunStatus::Running);
            let orphan = if is_run_running {
                let wid = self.runs[i].worker_id;
                let restorable = self.is_restorable_worker(wid);
                if restorable {
                    let alive = match self.runs[i].pid {
                        Some(p) => contains_u32(live_pids, p),
                        None => false,
                    };
                    !alive
                } else {
                    false
                }
            } else {
                false
            };
            proof {
                assert(orphan == orphaned(old_m.workers, old_m.runs[i as int], live_pids@, now));
            }
            if orphan {
                let r = &mut self.runs[i];
                mark_orphaned(r, now);
                proof {
                    assert(self@.runs =~= pre.runs.update(
                        i as int,
                        spec_mark_orphaned(old_m.runs[i as int], now),
                    ));
                }
            }
            proof {
                assert forall|j: int| 0 <= j <= i implies self@.runs[j] == (if orphaned(
                    old_m.workers,
                    old_m.runs[j],
                    live_pids@,
                    now,
                ) {
                    spec_mark_orphaned(old_m.runs[j], now)
                } else {
                    old_m.runs[j]
                }) by {
                    if j < i {
                        assert(self@.runs[j] == pre.runs[j]);
                    }
                }
            }
            i = i + 1;
        }
        proof {
            assert(self@.runs =~= spec_restore_runs(old_m.workers, old_m.runs, live_pids@, now));
            assert forall|k: int|
                0 <= k < self@.workers.len() implies count_active(
                self@.runs,
                (#[trigger] self@.workers[k]).id,
            ) <= self@.workers[k].concurrency by {
                lemma_count_active_le(old_m.runs, self@.runs, self@.workers[k].id);
            }
            assert(self@.wf());
        }
    }
}

} // verus!

verus! {

/// The run table after graceful shutdown: every non-terminal run of a
/// non-detached worker force-stopped; detached workers' runs left alone.
pub open spec fn spec_shutdown_runs(
    workers: Seq<WorkerView>,
    runs: Seq<RunView>,
    now: u64,
) -> Seq<RunView> {
    Seq::new(
        runs.len(),
        |i: int|
            if !run_terminal(runs[i].status) && worker_attached(workers, runs[i].worker_id) {
                spec_force_stop(runs[i], now)
            } else {
                runs[i]
            },
    )
}

/// The worker table after graceful shutdown: every non-detached worker
/// stopped.
pub open spec fn spec_shutdown_workers(workers: Seq<WorkerView>, now: u64) -> Seq<WorkerView> {
    Seq::new(
        workers.len(),
        |i: int|
            if !workers[i].detached {
                spec_stopped_worker(workers[i], now)
            } else {
                workers[i]
            },
    )
}

/// The kill actions owed at shutdown: one per running process of a
/// non-detached worker, in table order.
pub open spec fn spec_shutdown_actions(
    workers: Seq<WorkerView>,
    runs: Seq<RunView>,
) -> Seq<ProcAction>
    decreases runs.len(),
{
    if runs.len() == 0 {
        Seq::empty()
    } else {
        spec_shutdown_actions(workers, runs.drop_last()) + if runs.last().status is Running
            && worker_attached(workers, runs.last().worker_id) {
            seq![ProcAction::Kill { run_id: runs.last().id, pid: runs.last().pid->0 }]
        } else {
            Seq::empty()
        }
    }
}

impl WorkerManager {
    /// Graceful shutdown: stop every worker that is not detached, stopping
    /// their runs; detached workers and their runs are left alone so they
    /// continue independently of the daemon process.  Returns the kill
    /// actions owed for running processes that are torn down.
    pub fn shutdown_all(&mut self, now: u64) -> (acts: Vec<ProcAction>)
        requires
            old(self)@.wf(),
        ensures
            final(self)@.wf(),
            final(self)@.next_worker_id == old(self)@.next_worker_id,
            final(self)@.next_run_id == old(self)@.next_run_id,
            final(self)@.logs_root == old(self)@.logs_root,
            final(self)@.runs == spec_shutdown_runs(old(self)@.workers, old(self)@.runs, now),
            final(self)@.workers == spec_shutdown_workers(old(self)@.workers, now),
            acts@ == spec_shutdown_actions(old(self)@.workers, old(self)@.runs),
    {
        let ghost old_m = self@;
        let mut acts: Vec<ProcAction> = Vec::new();
        let mut i: usize = 0;
        proof {
            assert(acts@ =~= spec_shutdown_actions(old_m.workers, old_m.runs.take(0)));
        }
        while i < self.runs.len()
            invariant
                old_m.wf(),
                i <= old_m.runs.len(),
                self@.runs.len() == old_m.runs.len(),
                self@.workers == old_m.workers,
                self@.next_worker_id == old_m.next_worker_id,
                self@.next_run_id == old_m.next_run_id,
                self@.logs_root == old_m.logs_root,
                forall|j: int|
                    0 <= j < i ==> self@.runs[j] == (if !run_terminal(old_m.runs[j].status)
                        && worker_attached(old_m.workers, old_m.runs[j].worker_id) {
                        spec_force_stop(old_m.runs[j], now)
                    } else {
                        old_m.runs[j]
                    }),
                forall|j: int| i <= j < old_m.runs.len() ==> self@.runs[j] == old_m.runs[j],
                acts@ == spec_shutdown_actions(old_m.workers, old_m.runs.take(i as int)),
            decreases self@.runs.len() - i,
        {
            let ghost pre = self@;
            proof {
                assert(self@.runs[i as int] == old_m.runs[i as int]);
                assert(old_m.runs[i as int].wf());
            }
            let nonterminal = !self.runs[i].status.is_terminal();
            let attached = self.is_attached_worker(self.runs[i].worker_id);
            let hit = nonterminal && attached;
            if hit {
                if matches!(self.runs[i].status, RunStatus::Running) {
                    let rid = self.runs[i].id;
                    match self.runs[i].pid {
                        Some(p) => acts.push(ProcAction::Kill { run_id: rid, pid: p }),
                        None => (),
                    }
                }
                let r = &mut self.runs[i];
                force_stop_run(r, now);
                proof {
                    assert(self@.runs =~= pre.runs.update(
                        i as int,
                        spec_force_stop(old_m.runs[i as int], now),
                    ));
                }
            }
            proof {
                assert(old_m.runs.take(i + 1).drop_last() =~= old_m.runs.take(i as int));
                assert(old_m.runs.take(i + 1).last() == old_m.runs[i as int]);
                assert(acts@ =~= spec_shutdown_actions(old_m.workers, old_m.runs.take(i + 1)));
                assert forall|j: int| 0 <= j <= i implies self@.runs[j] == (if !run_terminal(
                    old_m.runs[j].status,
                ) && worker_attached(old_m.workers, old_m.runs[j].worker_id) {
                    spec_force_stop(old_m.runs[j], now)
                } else {
                    old_m.runs[j]
                }) by {
                    if j < i {
                        assert(self@.runs[j] == pre.runs[j]);
                    }
                }
            }
            i = i + 1;
        }
        proof {
            assert(old_m.runs.take(old_m.runs.len() as int) =~= old_m.runs);
            assert(self@.runs =~= spec_shutdown_runs(old_m.workers, old_m.runs, now));
        }
        let ghost mid_m = self@;
        let mut k: usize = 0;
        while k < self.workers.len()
            invariant
                old_m.wf(),
                k <= old_m.workers.len(),
                self@.workers.len() == old_m.workers.len(),
                self@.runs == mid_m.runs,
                self@.next_worker_id == old_m.next_worker_id,
                self@.next_run_id == old_m.next_run_id,
                self@.logs_root == old_m.logs_root,
                forall|j: int|
                    0 <= j < k ==> self@.workers[j] == (if !old_m.workers[j].detached {
                        spec_stopped_worker(old_m.workers[j], now)
                    } else {
                        old_m.workers[j]
                    }),
                forall|j: int| k <= j < old_m.workers.len() ==> self@.workers[j] == old_m.workers[j],
            decreases self@.workers.len() - k,
        {
            let ghost pre = self@;
            if !self.workers[k].detached {
                let w = &mut self.workers[k];
                w.status = WorkerStatus::Stopped;
                w.updated_at = now;
                proof {
                    assert(self@.workers =~= pre.workers.update(
                        k as int,
                        spec_stopped_worker(old_m.workers[k as int], now),
                    ));
                }
            }
            proof {
                assert forall|j: int| 0 <= j <= k implies self@.workers[j] == (if !old_m.workers[j].detached {
                    spec_stopped_worker(old_m.workers[j], now)
                } else {
                    old_m.workers[j]
                }) by {
                    if j < k {
                        assert(self@.workers[j] == pre.workers[j]);
                    }
                }
            }
            k = k + 1;
        }
        proof {
            assert(self@.workers =~= spec_shutdown_workers(old_m.workers, now));
            assert forall|j: int|
                0 <= j < self@.workers.len() implies count_active(
                self@.runs,
                (#[trigger] self@.workers[j]).id,
            ) <= self@.workers[j].concurrency by {
                assert(self@.workers[j].id == old_m.workers[j].id);
                assert(self@.workers[j].concurrency == old_m.workers[j].concurrency);
                lemma_count_active_le(old_m.runs, self@.runs, self@.workers[j].id);
            }
            assert(self@.wf());
        }
        acts
    }
}

} // verus!

verus! {

/// Whether a worker receives an event: it is `running`, the event type
/// matches, and its filter — when present — names the event's entity.
pub open spec fn worker_matches(w: WorkerView, ev: EventView) -> bool {
    &&& w.status is Running
    &&& w.event_type == ev.event_type
    &&& (w.filters matches Some(f) ==> f == ev.entity_id)
}

/// The log file of a run: `<root>/worker-<wid>/run-<rid>.log`.
pub open spec fn spec_run_log_path(root: Seq<char>, wid: u64, rid: u64) -> Seq<char> {
    root + "/worker-"@ + dec_str(wid as nat) + "/run-"@ + dec_str(rid as nat) + ".log"@
}

/// A run freshly admitted for a worker in response to an event: pending,
/// first attempt, with the worker's command and arguments snapshotted.
pub open spec fn spec_new_run(
    w: WorkerView,
    ev: EventView,
    id: u64,
    log_path: Seq<char>,
    now: u64,
) -> RunView {
    RunView {
        id,
        worker_id: w.id,
        event_id: ev.id,
        event_type: ev.event_type,
        entity_id: ev.entity_id,
        command: w.command,
        args: w.args,
        status: RunStatus::Pending,
        exit_code: None,
        error_message: None,
        attempt: 1,
        max_attempts: DEFAULT_MAX_ATTEMPTS,
        next_retry_at: None,
        pid: None,
        log_path: Some(log_path),
        started_at: None,
        completed_at: None,
        created_at: now,
        updated_at: now,
    }
}

/// The state after admitting one run for worker `w`.
pub open spec fn spec_admit(m: ManagerView, w: WorkerView, ev: EventView, now: u64) -> ManagerView {
    ManagerView {
        runs: m.runs.push(
            spec_new_run(
                w,
                ev,
                m.next_run_id,
                spec_run_log_path(m.logs_root, w.id, m.next_run_id),
                now,
            ),
        ),
        next_run_id: (m.next_run_id + 1) as u64,
        ..m
    }
}

/// The state after offering the event to the first `k` workers, in table
/// order: each matching worker with spare concurrency capacity admits one
/// run; for the others the event is dropped (no backlog is kept).
pub open spec fn spec_dispatch_upto(m0: ManagerView, ev: EventView, now: u64, k: int) -> ManagerView
    decreases k,
{
    if k <= 0 {
        m0
    } else {
        let prev = spec_dispatch_upto(m0, ev, now, k - 1);
        let w = m0.workers[k - 1];
        if worker_matches(w, ev) && count_active(prev.runs, w.id) < w.concurrency {
            spec_admit(prev, w, ev, now)
        } else {
            prev
        }
    }
}

/// The spawn actions owed after offering the event to the first `k`
/// workers.
pub open spec fn spec_dispatch_acts_upto(
    m0: ManagerView,
    ev: EventView,
    now: u64,
    k: int,
) -> Seq<ProcAction>
    decreases k,
{
    if k <= 0 {
        Seq::empty()
    } else {
        let prev = spec_dispatch_upto(m0, ev, now, k - 1);
        let w = m0.workers[k - 1];
        spec_dispatch_acts_upto(m0, ev, now, k - 1) + if worker_matches(w, ev) && count_active(
            prev.runs,
            w.id,
        ) < w.concurrency {
            seq![ProcAction::Spawn { run_id: prev.next_run_id }]
        } else {
            Seq::empty()
        }
    }
}

impl WorkerManager {
    /// The log file path of a run under this manager's logs root.
    pub fn run_log_path_string(&self, wid: u64, rid: u64) -> (s: String)
        ensures
            s@ == spec_run_log_path(self@.logs_root, wid, rid),
    {
        let root: String = self.logs_root.clone();
        let s = root
            .concat("/worker-")
            .concat(u64_to_string(wid).as_str())
            .concat("/run-")
            .concat(u64_to_string(rid).as_str())
            .concat(".log");
        proof {
            assert(s@ =~= spec_run_log_path(self@.logs_root, wid, rid));
        }
        s
    }

    /// Offer an event to every worker: each `running` worker whose event
    /// type matches and whose filter accepts the event admits a new
    /// pending run — but only while the count of its non-terminal runs is
    /// below its concurrency limit; otherwise the event is dropped for
    /// that worker, never queued.  Returns a spawn action per admitted
    /// run.
    pub fn dispatch(&mut self, ev: &Event, now: u64) -> (acts: Vec<ProcAction>)
        requires
            old(self)@.wf(),
            old(self)@.next_run_id + old(self)@.workers.len() <= u64::MAX,
        ensures
            final(self)@.wf(),
            final(self)@ == spec_dispatch_upto(
                old(self)@,
                ev@,
                now,
                old(self)@.workers.len() as int,
            ),
            acts@ == spec_dispatch_acts_upto(
                old(self)@,
                ev@,
                now,
                old(self)@.workers.len() as int,
            ),
    {
        let ghost old_m = self@;
        let mut acts: Vec<ProcAction> = Vec::new();
        let mut k: usize = 0;
        proof {
            assert(acts@ =~= spec_dispatch_acts_upto(old_m, ev@, now, 0));
        }
        while k < self.workers.len()
            invariant
                old_m.wf(),
                old_m.next_run_id + old_m.workers.len() <= u64::MAX,
                k <= old_m.workers.len(),
                self@ == spec_dispatch_upto(old_m, ev@, now, k as int),
                acts@ == spec_dispatch_acts_upto(old_m, ev@, now, k as int),
                self@.wf(),
                self@.workers == old_m.workers,
                self@.next_worker_id == old_m.next_worker_id,
                self@.logs_root == old_m.logs_root,
                self@.next_run_id <= old_m.next_run_id + k,
            decreases self@.workers.len() - k,
        {
            let ghost prev = self@;
            let w = &self.workers[k];
            let type_matches = w.event_type.eq(&ev.event_type);
            let filter_ok = match &w.filters {
                Some(f) => f.eq(&ev.entity_id),
                None => true,
            };
            let is_match = matches!(w.status, WorkerStatus::Running) && type_matches && filter_ok;
            proof {
                assert(self@.workers[k as int] == old_m.workers[k as int]);
                assert(is_match == worker_matches(old_m.workers[k as int], ev@));
            }
            if is_match {
                let wid = self.workers[k].id;
                let concurrency = self.workers[k].concurrency;
                let cnt = self.count_active_runs(wid);
                if (cnt as u64) < concurrency as u64 {
                    let rid = self.next_run_id;
                    let lp = self.run_log_path_string(wid, rid);
                    let run = Run {
                        id: rid,
                        worker_id: wid,
                        event_id: ev.id,
                        event_type: ev.event_type.clone(),
                        entity_id: ev.entity_id.clone(),
                        command: self.workers[k].command.clone(),
                        args: clone_string_vec(&self.workers[k].args),
                        status: RunStatus::Pending,
                        exit_code: None,
                        error_message: None,
                        attempt: 1,
                        max_attempts: DEFAULT_MAX_ATTEMPTS,
                        next_retry_at: None,
                        pid: None,
                        log_path: Some(lp),
                        started_at: None,
                        completed_at: None,
                        created_at: now,
                        updated_at: now,
                    };
                    proof {
                        assert(run@ =~= spec_new_run(
                            old_m.workers[k as int],
                            ev@,
                            prev.next_run_id,
                            spec_run_log_path(prev.logs_root, wid, prev.next_run_id),
                            now,
                        ));
                    }
                    self.runs.push(run);
                    self.next_run_id = rid + 1;
                    acts.push(ProcAction::Spawn { run_id: rid });
                    proof {
                        let nr = spec_new_run(
                            old_m.workers[k as int],
                            ev@,
                            prev.next_run_id,
                            spec_run_log_path(prev.logs_root, wid, prev.next_run_id),
                            now,
                        );
                        assert(self@.runs =~= prev.runs.push(nr));
                        assert(self@ =~= spec_admit(prev, old_m.workers[k as int], ev@, now));
                        assert forall|j: int|
                            0 <= j < self@.workers.len() implies count_active(
                            self@.runs,
                            (#[trigger] self@.workers[j]).id,
                        ) <= self@.workers[j].concurrency by {
                            lemma_count_active_push(prev.runs, self@.workers[j].id, nr);
                            if j != k as int {
                                assert(self@.workers[j].id != self@.workers[k as int].id);
                            }
                        }
                        assert(self@.wf());
                    }
                }
            }
            proof {
                assert(self@ == spec_dispatch_upto(old_m, ev@, now, k + 1));
                assert(acts@ =~= spec_dispatch_acts_upto(old_m, ev@, now, k + 1));
            }
            k = k + 1;
        }
        acts
    }
}

} // verus!

verus! {

/// The log file of a worker: `<root>/worker-<wid>/worker.log`.
pub open spec fn spec_worker_log_path(root: Seq<char>, wid: u64) -> Seq<char> {
    root + "/worker-"@ + dec_str(wid as nat) + "/worker.log"@
}

impl WorkerManager {
    /// Resolve the filesystem location of a worker's log file, without
    /// reading content.
    pub fn get_worker_log_path(&self, wid: u64) -> (s: String)
        ensures
            s@ == spec_worker_log_path(self@.logs_root, wid),
    {
        let root: String = self.logs_root.clone();
        let s = root.concat("/worker-").concat(u64_to_string(wid).as_str()).concat("/worker.log");
        proof {
            assert(s@ =~= spec_worker_log_path(self@.logs_root, wid));
        }
        s
    }

    /// Resolve the filesystem location of a run's log file, without
    /// reading content.  Fails only when the run id is unknown; a run
    /// that never had a log file yields `None`.
    pub fn get_run_log_path(&self, run_id: u64) -> (res: Result<Option<String>, DaemonError>)
        ensures
            res is Err <==> !self@.has_run(run_id),
            res matches Err(e) ==> e.kind == ErrorKind::NotFound,
            res matches Ok(p) ==> exists|i: int|
                0 <= i < self@.runs.len() && (#[trigger] self@.runs[i]).id == run_id
                    && p.deep_view() == self@.runs[i].log_path,
    {
        match self.find_run_index(run_id) {
            Some(i) => Ok(clone_opt_string(&self.runs[i].log_path)),
            None => Err(DaemonError::new(ErrorKind::NotFound, "Run not found".to_owned())),
        }
    }
}

} // verus!

verus! {

/// Whether a worker is removed by pruning: it is no longer `running`
/// (stopped or errored) and none of its runs is still active.  Its run
/// history is kept.
pub open spec fn prunable(w: WorkerView, runs: Seq<RunView>) -> bool {
    !(w.status is Running) && count_active(runs, w.id) == 0
}

/// The worker table after pruning.
pub open spec fn spec_prune_workers(ws: Seq<WorkerView>, runs: Seq<RunView>) -> Seq<WorkerView>
    decreases ws.len(),
{
    if ws.len() == 0 {
        Seq::empty()
    } else {
        let rest = spec_prune_workers(ws.drop_last(), runs);
        if prunable(ws.last(), runs) {
            rest
        } else {
            rest.push(ws.last())
        }
    }
}

impl WorkerManager {
    /// Remove every stopped or errored worker that has no active runs.
    /// Run history is retained; a worker with any non-terminal run is
    /// kept.  Returns how many workers were removed.
    pub fn prune_workers(&mut self, now: u64) -> (removed: u64)
        requires
            old(self)@.wf(),
        ensures
            final(self)@.wf(),
            final(self)@.runs == old(self)@.runs,
            final(self)@.next_worker_id == old(self)@.next_worker_id,
            final(self)@.next_run_id == old(self)@.next_run_id,
            final(self)@.logs_root == old(self)@.logs_root,
            final(self)@.workers == spec_prune_workers(old(self)@.workers, old(self)@.runs),
            removed as int == old(self)@.workers.len() - final(self)@.workers.len(),
    {
        let ghost old_m = self@;
        let mut kept: Vec<Worker> = Vec::new();
        let mut i: usize = 0;
        proof {
            assert(kept.deep_view() =~= spec_prune_workers(old_m.workers.take(0), old_m.runs));
        }
        while i < self.workers.len()
            invariant
                old_m.wf(),
                i <= old_m.workers.len(),
                self@ == old_m,
                kept.deep_view() == spec_prune_workers(old_m.workers.take(i as int), old_m.runs),
                kept@.len() <= i,
                forall|k: int|
                    0 <= k < kept.deep_view().len() ==> exists|j: int|
                        0 <= j < i && (#[trigger] kept.deep_view()[k]) == old_m.workers[j],
                forall|a: int, b: int|
                    0 <= a < b < kept.deep_view().len() ==> kept.deep_view()[a].id
                        != kept.deep_view()[b].id,
            decreases old_m.workers.len() - i,
        {
            let w = &self.workers[i];
            let keep = matches!(w.status, WorkerStatus::Running) || self.count_active_runs(w.id)
                > 0;
            let ghost prev = kept.deep_view();
            if keep {
                let c = self.workers[i].clone();
                kept.push(c);
                proof {
                    assert(kept.deep_view() =~= prev.push(old_m.workers[i as int]));
                    assert forall|k: int|
                        0 <= k < kept.deep_view().len() implies exists|j: int|
                        0 <= j < i + 1 && (#[trigger] kept.deep_view()[k])
                            == old_m.workers[j] by {
                        if k < prev.len() {
                            assert(kept.deep_view()[k] == prev[k]);
                        } else {
                            assert(kept.deep_view()[k] == old_m.workers[i as int]);
                        }
                    }
                    assert forall|a: int, b: int|
                        0 <= a < b < kept.deep_view().len() implies kept.deep_view()[a].id
                        != kept.deep_view()[b].id by {
                        if b == kept.deep_view().len() - 1 {
                            let ja = choose|j: int|
                                0 <= j < i && prev[a] == old_m.workers[j];
                            assert(old_m.workers[ja].id != old_m.workers[i as int].id);
                        }
                    }
                }
            }
            proof {
                assert(old_m.workers.take(i + 1).drop_last() =~= old_m.workers.take(i as int));
                assert(old_m.workers.take(i + 1).last() == old_m.workers[i as int]);
                assert(kept.deep_view() =~= spec_prune_workers(
                    old_m.workers.take(i + 1),
                    old_m.runs,
                ));
            }
            i = i + 1;
        }
        proof {
            assert(old_m.workers.take(old_m.workers.len() as int) =~= old_m.workers);
        }
        let removed = (self.workers.len() - kept.len()) as u64;
        self.workers = kept;
        proof {
            assert forall|k: int|
                0 <= k < self@.workers.len() implies (#[trigger] self@.workers[k]).wf()
                && self@.workers[k].id < self@.next_worker_id && count_active(
                self@.runs,
                self@.workers[k].id,
            ) <= self@.workers[k].concurrency by {
                let j = choose|j: int|
                    0 <= j < old_m.workers.len() && self@.workers[k] == old_m.workers[j];
                assert(old_m.workers[j].wf());
                assert(count_active(old_m.runs, old_m.workers[j].id) <= old_m.workers[j].concurrency);
            }
            assert(self@.wf());
        }
        removed
    }
}

} // verus!
