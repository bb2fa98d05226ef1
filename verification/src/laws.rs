//! The laws of the worker manager, stated and proved once and for all.
//!
//! Each proof function here is a statement about every reachable manager
//! state (every state satisfying [`ManagerView::wf`], which every
//! operation of the manager is proved to preserve) or about the spec-level
//! transition functions that the manager's contracts are stated over.

use vstd::prelude::*;

use crate::manager::{
    count_active, count_running_or_pending, is_active, lemma_count_running_or_pending_le_active,
    should_restore, spec_exit_applied, spec_restore_runs, spec_shutdown_runs, spec_stop_run_at,
    spec_stop_worker_runs, spec_sweep_runs, ManagerView, ProcAction,
};
use crate::model::{run_terminal, RunStatus, RunView};
use crate::runfsm::{orphan_message, spec_force_stop};

verus! {

/// For all workers, at all times, the count of runs with status `running`
/// or `pending` never exceeds the worker's configured concurrency limit.
pub proof fn lemma_concurrency_limit_respected(m: ManagerView)
    requires
        m.wf(),
    ensures
        forall|k: int|
            0 <= k < m.workers.len() ==> count_running_or_pending(
                m.runs,
                (#[trigger] m.workers[k]).id,
            ) <= m.workers[k].concurrency,
{
    assert forall|k: int|
        0 <= k < m.workers.len() implies count_running_or_pending(
        m.runs,
        (#[trigger] m.workers[k]).id,
    ) <= m.workers[k].concurrency by {
        lemma_count_running_or_pending_le_active(m.runs, m.workers[k].id);
    }
}

/// For all runs, a pid is recorded if and only if the run is `running`.
pub proof fn lemma_pid_iff_running(m: ManagerView)
    requires
        m.wf(),
    ensures
        forall|i: int|
            0 <= i < m.runs.len() ==> ((#[trigger] m.runs[i]).pid is Some <==> m.runs[i].status
                is Running),
{
}

/// A run's attempt count never exceeds its maximum.
pub proof fn lemma_attempt_never_exceeds_max(m: ManagerView)
    requires
        m.wf(),
    ensures
        forall|i: int| 0 <= i < m.runs.len() ==> (#[trigger] m.runs[i]).attempt <= m.runs[i].max_attempts,
{
}

/// Once a run's attempt count has reached its maximum, a failing exit
/// makes it terminally `error`: no retry is scheduled for it and no
/// successor run is created.
pub proof fn lemma_no_retry_after_exhaustion(
    m: ManagerView,
    i: int,
    code: i32,
    now: u64,
    m2: ManagerView,
)
    requires
        m.wf(),
        0 <= i < m.runs.len(),
        m.runs[i].status is Running,
        m.runs[i].attempt == m.runs[i].max_attempts,
        code != 0,
        spec_exit_applied(m, i, code, now, m2),
    ensures
        m2.runs.len() == m.runs.len(),
        m2.runs[i].status is Error,
        m2.runs[i].next_retry_at is None,
{
}

/// Stopping a pending or retry-scheduled run cancels the scheduled retry:
/// afterwards the run is `stopped` with no retry time recorded, and no
/// process had to be killed for it.
pub proof fn lemma_stop_cancels_retry(runs: Seq<RunView>, i: int, now: u64)
    requires
        0 <= i < runs.len(),
        runs[i].status is Pending || runs[i].status is RetryScheduled || runs[i].status is Paused,
    ensures
        spec_stop_run_at(runs, i, now).0[i].status is Stopped,
        spec_stop_run_at(runs, i, now).0[i].next_retry_at is None,
        spec_stop_run_at(runs, i, now).1 is None,
{
}

/// A run that is `stopped` never transitions again: every table
/// transformation of the manager leaves a terminal run untouched, and an
/// exit or spawn notice for it changes nothing at all.
pub proof fn lemma_terminal_run_is_final(
    m: ManagerView,
    i: int,
    wid: u64,
    live: Seq<u32>,
    code: i32,
    now: u64,
    m2: ManagerView,
)
    requires
        0 <= i < m.runs.len(),
        run_terminal(m.runs[i].status),
    ensures
        spec_sweep_runs(m.runs, now)[i] == m.runs[i],
        spec_stop_worker_runs(m.runs, wid, now)[i] == m.runs[i],
        spec_restore_runs(m.workers, m.runs, live, now)[i] == m.runs[i],
        spec_shutdown_runs(m.workers, m.runs, now)[i] == m.runs[i],
        spec_stop_run_at(m.runs, i, now).0[i] == m.runs[i],
        spec_exit_applied(m, i, code, now, m2) ==> m2 == m,
{
}

/// Stopping an already-stopped run succeeds with no state change: a
/// second stop of the same run returns the table unchanged and owes no
/// kill.
pub proof fn lemma_stop_run_idempotent(runs: Seq<RunView>, i: int, now1: u64, now2: u64)
    requires
        0 <= i < runs.len(),
    ensures
        ({
            let first = spec_stop_run_at(runs, i, now1).0;
            &&& spec_stop_run_at(first, i, now2).0 == first
            &&& spec_stop_run_at(first, i, now2).1 is None
        }),
{
    let first = spec_stop_run_at(runs, i, now1).0;
    assert(run_terminal(first[i].status));
}

/// Restart recovery: a run persisted as `running` under a restorable
/// worker, whose pid has no live process behind it, is marked terminally
/// `error` with the orphan message by the recovery pass — which touches
/// no worker record, so its worker remains `running`.
pub proof fn lemma_restart_recovery(m: ManagerView, i: int, live: Seq<u32>, now: u64)
    requires
        m.wf(),
        0 <= i < m.runs.len(),
        m.runs[i].status is Running,
        should_restore(m.workers, m.runs[i].worker_id),
        !live.contains(m.runs[i].pid->0),
    ensures
        spec_restore_runs(m.workers, m.runs, live, now)[i].status is Error,
        spec_restore_runs(m.workers, m.runs, live, now)[i].pid is None,
        spec_restore_runs(m.workers, m.runs, live, now)[i].error_message == Some(orphan_message()),
{
}

} // verus!
