//! The lifecycle state machine of a single run.
//!
//! Transitions: pending → running → done on a zero exit; a failing attempt
//! becomes terminal `error`, and while attempts remain a successor run is
//! scheduled for retry (`retry_scheduled` → pending on promotion); any
//! non-terminal run can be force-stopped; a scheduled retry can be paused
//! and resumed.  Each executable transition is proved against a spec-level
//! transition function, which the manager's contracts and the library's
//! laws are stated over.

use vstd::prelude::*;

use crate::model::{run_terminal, Run, RunStatus, RunView};
use crate::numfmt::{i64_to_string, int_dec_str};

verus! {

/// Message recorded on a run whose process was killed by an explicit stop,
/// so that callers can tell forced stops from natural failures.
pub open spec fn stop_message() -> Seq<char> {
    "Run terminated by stop request"@
}

/// Message recorded on a run orphaned by a daemon restart.
pub open spec fn orphan_message() -> Seq<char> {
    "orphaned by daemon restart"@
}

/// Message synthesized for a process that exited with a non-zero code.
pub open spec fn exit_message(code: int) -> Seq<char> {
    "Process exited with code "@ + int_dec_str(code)
}

/// Message recorded when the operating system failed to launch a command.
pub open spec fn spawn_message(command: Seq<char>, detail: Seq<char>) -> Seq<char> {
    "Failed to spawn runner '"@ + command + "': "@ + detail
}

/// Build the non-zero-exit message.
pub fn exit_message_string(code: i32) -> (s: String)
    ensures
        s@ == exit_message(code as int),
{
    let prefix: String = "Process exited with code ".to_owned();
    let r = prefix.concat(i64_to_string(code as i64).as_str());
    proof {
        assert(r@ =~= exit_message(code as int));
    }
    r
}

/// Build the spawn-failure message for a command and an OS error detail.
pub fn spawn_message_string(command: &str, detail: &str) -> (s: String)
    ensures
        s@ == spawn_message(command@, detail@),
{
    let prefix: String = "Failed to spawn runner '".to_owned();
    let r = prefix.concat(command).concat("': ").concat(detail);
    proof {
        assert(r@ =~= spawn_message(command@, detail@));
    }
    r
}

/// A pending run whose process has been spawned: record the pid and the
/// start time.
pub open spec fn spec_mark_running(r: RunView, pid: u32, now: u64) -> RunView {
    RunView {
        status: RunStatus::Running,
        pid: Some(pid),
        next_retry_at: None,
        started_at: Some(now),
        updated_at: now,
        ..r
    }
}

pub fn mark_running(r: &mut Run, pid: u32, now: u64)
    requires
        old(r)@.wf(),
        old(r)@.status is Pending,
    ensures
        final(r)@ == spec_mark_running(old(r)@, pid, now),
        final(r)@.wf(),
{
    r.status = RunStatus::Running;
    r.pid = Some(pid);
    r.next_retry_at = None;
    r.started_at = Some(now);
    r.updated_at = now;
}

/// A running process exited with code zero: the run is done, regardless of
/// its attempt count.
pub open spec fn spec_mark_done(r: RunView, now: u64) -> RunView {
    RunView {
        status: RunStatus::Done,
        exit_code: Some(0),
        error_message: None,
        pid: None,
        next_retry_at: None,
        completed_at: Some(now),
        updated_at: now,
        ..r
    }
}

pub fn mark_done(r: &mut Run, now: u64)
    requires
        old(r)@.wf(),
        old(r)@.status is Running,
    ensures
        final(r)@ == spec_mark_done(old(r)@, now),
        final(r)@.wf(),
{
    r.status = RunStatus::Done;
    r.exit_code = Some(0);
    r.error_message = None;
    r.pid = None;
    r.next_retry_at = None;
    r.completed_at = Some(now);
    r.updated_at = now;
}

/// An attempt failed: the run is terminally in error, with the exit code
/// (when the process ran at all) and a message saying what happened.
pub open spec fn spec_mark_failed(
    r: RunView,
    exit_code: Option<i32>,
    message: Seq<char>,
    now: u64,
) -> RunView {
    RunView {
        status: RunStatus::Error,
        exit_code,
        error_message: Some(message),
        pid: None,
        next_retry_at: None,
        completed_at: Some(now),
        updated_at: now,
        ..r
    }
}

/// Mark a run failed after its process exited with the given non-zero code.
pub fn mark_exit_failed(r: &mut Run, code: i32, now: u64)
    requires
        old(r)@.wf(),
        old(r)@.status is Running,
        code != 0,
    ensures
        final(r)@ == spec_mark_failed(old(r)@, Some(code), exit_message(code as int), now),
        final(r)@.wf(),
{
    r.status = RunStatus::Error;
    r.exit_code = Some(code);
    r.error_message = Some(exit_message_string(code));
    r.pid = None;
    r.next_retry_at = None;
    r.completed_at = Some(now);
    r.updated_at = now;
}

/// Mark a run failed because its process could not be spawned.
pub fn mark_spawn_failed(r: &mut Run, message: String, now: u64)
    requires
        old(r)@.wf(),
        old(r)@.status is Pending,
    ensures
        final(r)@ == spec_mark_failed(old(r)@, None, message@, now),
        final(r)@.wf(),
{
    r.status = RunStatus::Error;
    r.exit_code = None;
    r.error_message = Some(message);
    r.pid = None;
    r.next_retry_at = None;
    r.completed_at = Some(now);
    r.updated_at = now;
}

/// The successor of a failed run: a fresh record for the next attempt,
/// awaiting its scheduled retry time.  The command, arguments and
/// triggering event are carried over unchanged.
pub open spec fn spec_retry_successor(r: RunView, id: u64, retry_at: u64, now: u64) -> RunView {
    RunView {
        id,
        attempt: (r.attempt + 1) as u32,
        status: RunStatus::RetryScheduled,
        exit_code: None,
        error_message: r.error_message,
        pid: None,
        next_retry_at: Some(retry_at),
        started_at: None,
        completed_at: None,
        created_at: now,
        updated_at: now,
        ..r
    }
}

/// Build the successor record for a failed run.
pub fn retry_successor(r: &Run, id: u64, retry_at: u64, now: u64) -> (s: Run)
    requires
        r@.wf(),
        r@.attempt < r@.max_attempts,
    ensures
        s@ == spec_retry_successor(r@, id, retry_at, now),
        s@.wf(),
{
    let mut s = r.clone();
    s.id = id;
    s.attempt = r.attempt + 1;
    s.status = RunStatus::RetryScheduled;
    s.exit_code = None;
    s.pid = None;
    s.next_retry_at = Some(retry_at);
    s.started_at = None;
    s.completed_at = None;
    s.created_at = now;
    s.updated_at = now;
    s
}

/// A due retry promoted back to pending, ready for a fresh spawn.
pub open spec fn spec_promote(r: RunView, now: u64) -> RunView {
    RunView { status: RunStatus::Pending, next_retry_at: None, updated_at: now, ..r }
}

pub fn promote_run(r: &mut Run, now: u64)
    requires
        old(r)@.wf(),
        old(r)@.status is RetryScheduled,
    ensures
        final(r)@ == spec_promote(old(r)@, now),
        final(r)@.wf(),
{
    r.status = RunStatus::Pending;
    r.next_retry_at = None;
    r.updated_at = now;
}

/// A non-terminal run force-stopped by an explicit request: a scheduled
/// retry is cancelled, a running process's kill is recorded with the
/// termination message.
pub open spec fn spec_force_stop(r: RunView, now: u64) -> RunView {
    RunView {
        status: RunStatus::Stopped,
        pid: None,
        next_retry_at: None,
        completed_at: Some(now),
        updated_at: now,
        error_message: if r.status is Running {
            Some(stop_message())
        } else {
            r.error_message
        },
        ..r
    }
}

pub fn force_stop_run(r: &mut Run, now: u64)
    requires
        old(r)@.wf(),
        !run_terminal(old(r)@.status),
    ensures
        final(r)@ == spec_force_stop(old(r)@, now),
        final(r)@.wf(),
{
    if r.status.is_terminal() {
    } else {
        if matches!(r.status, RunStatus::Running) {
            r.error_message = Some("Run terminated by stop request".to_owned());
        }
        r.status = RunStatus::Stopped;
        r.pid = None;
        r.next_retry_at = None;
        r.completed_at = Some(now);
        r.updated_at = now;
    }
}

/// A run marked orphaned during restart recovery: its recorded process no
/// longer exists, so the run is terminally in error.
pub open spec fn spec_mark_orphaned(r: RunView, now: u64) -> RunView {
    RunView {
        status: RunStatus::Error,
        pid: None,
        next_retry_at: None,
        exit_code: None,
        error_message: Some(orphan_message()),
        completed_at: Some(now),
        updated_at: now,
        ..r
    }
}

pub fn mark_orphaned(r: &mut Run, now: u64)
    requires
        old(r)@.wf(),
        old(r)@.status is Running,
    ensures
        final(r)@ == spec_mark_orphaned(old(r)@, now),
        final(r)@.wf(),
{
    r.status = RunStatus::Error;
    r.pid = None;
    r.next_retry_at = None;
    r.exit_code = None;
    r.error_message = Some("orphaned by daemon restart".to_owned());
    r.completed_at = Some(now);
    r.updated_at = now;
}

/// A scheduled retry paused: the retry time is preserved but inert.
pub open spec fn spec_pause(r: RunView, now: u64) -> RunView {
    RunView { status: RunStatus::Paused, updated_at: now, ..r }
}

pub fn pause_scheduled_run(r: &mut Run, now: u64)
    requires
        old(r)@.wf(),
        old(r)@.status is RetryScheduled,
    ensures
        final(r)@ == spec_pause(old(r)@, now),
        final(r)@.wf(),
{
    r.status = RunStatus::Paused;
    r.updated_at = now;
}

/// A paused retry re-armed.
pub open spec fn spec_resume(r: RunView, now: u64) -> RunView {
    RunView { status: RunStatus::RetryScheduled, updated_at: now, ..r }
}

pub fn resume_paused_run(r: &mut Run, now: u64)
    requires
        old(r)@.wf(),
        old(r)@.status is Paused,
    ensures
        final(r)@ == spec_resume(old(r)@, now),
        final(r)@.wf(),
{
    r.status = RunStatus::RetryScheduled;
    r.updated_at = now;
}

} // verus!

verus! {

/// Interpret a process exit code the way the supervisor reports it: the
/// code itself, and for a non-zero code the synthesized error message.
pub fn exit_outcome(code: i32) -> (r: (i32, Option<String>))
    ensures
        r.0 == code,
        code == 0 ==> r.1 is None,
        code != 0 ==> (r.1 matches Some(m) && m@ == exit_message(code as int)),
{
    if code == 0 {
        (code, None)
    } else {
        (code, Some(exit_message_string(code)))
    }
}

} // verus!
