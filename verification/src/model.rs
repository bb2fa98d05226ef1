//! Data model of the daemon: workers, runs, events, and their statuses.
//!
//! A worker is a standing rule binding an event type (and an optional entity
//! filter) to a command, with a concurrency limit.  A run is one execution
//! attempt of that command.  Each type has a mathematical view (`…View`)
//! over which all contracts are stated, and a well-formedness predicate
//! that constructors establish and every operation preserves.

use vstd::prelude::*;

verus! {

/// Status of a worker.
#[derive(Clone, Copy, PartialEq, Eq, Structural, Debug)]
pub enum WorkerStatus {
    Running,
    Stopped,
    Error,
}

/// Status of a run.
///
/// `RetryScheduled` is a failed attempt awaiting a future re-attempt time;
/// `Paused` is the same, with the retry sweep suspended for this run.
#[derive(Clone, Copy, PartialEq, Eq, Structural, Debug)]
pub enum RunStatus {
    Pending,
    Running,
    Done,
    Error,
    RetryScheduled,
    Stopped,
    Paused,
}

/// True of the statuses in which a run will never change again.
pub open spec fn run_terminal(s: RunStatus) -> bool {
    s is Done || s is Stopped || s is Error
}

/// True of the statuses that record a scheduled retry time.
pub open spec fn retry_pending(s: RunStatus) -> bool {
    s is RetryScheduled || s is Paused
}

impl RunStatus {
    /// Executable test for `run_terminal`.
    pub fn is_terminal(&self) -> (b: bool)
        ensures
            b == run_terminal(*self),
    {
        match self {
            RunStatus::Done => true,
            RunStatus::Stopped => true,
            RunStatus::Error => true,
            _ => false,
        }
    }
}

/// Mathematical view of a [`Worker`].
#[verifier::ext_equal]
pub ghost struct WorkerView {
    pub id: u64,
    pub runner_name: Option<Seq<char>>,
    pub command: Seq<char>,
    pub args: Seq<Seq<char>>,
    pub event_type: Seq<char>,
    pub filters: Option<Seq<char>>,
    pub concurrency: u32,
    pub instance_path: Option<Seq<char>>,
    pub detached: bool,
    pub status: WorkerStatus,
    pub created_at: u64,
    pub updated_at: u64,
}

impl WorkerView {
    /// A worker always has a command to execute and room for at least one run.
    pub open spec fn wf(self) -> bool {
        &&& self.command.len() > 0
        &&& self.concurrency >= 1
    }
}

/// A standing definition of "run command C with args A when an event of
/// type T (matching filter F) occurs".
#[derive(Debug)]
pub struct Worker {
    pub id: u64,
    pub runner_name: Option<String>,
    pub command: String,
    pub args: Vec<String>,
    pub event_type: String,
    pub filters: Option<String>,
    pub concurrency: u32,
    pub instance_path: Option<String>,
    pub detached: bool,
    pub status: WorkerStatus,
    pub created_at: u64,
    pub updated_at: u64,
}

impl View for Worker {
    type V = WorkerView;

    open spec fn view(&self) -> WorkerView {
        WorkerView {
            id: self.id,
            runner_name: self.runner_name.deep_view(),
            command: self.command@,
            args: self.args.deep_view(),
            event_type: self.event_type@,
            filters: self.filters.deep_view(),
            concurrency: self.concurrency,
            instance_path: self.instance_path.deep_view(),
            detached: self.detached,
            status: self.status,
            created_at: self.created_at,
            updated_at: self.updated_at,
        }
    }
}

impl DeepView for Worker {
    type V = WorkerView;

    open spec fn deep_view(&self) -> WorkerView {
        self.view()
    }
}

/// Mathematical view of a [`Run`].
#[verifier::ext_equal]
pub ghost struct RunView {
    pub id: u64,
    pub worker_id: u64,
    pub event_id: u64,
    pub event_type: Seq<char>,
    pub entity_id: Seq<char>,
    pub command: Seq<char>,
    pub args: Seq<Seq<char>>,
    pub status: RunStatus,
    pub exit_code: Option<i32>,
    pub error_message: Option<Seq<char>>,
    pub attempt: u32,
    pub max_attempts: u32,
    pub next_retry_at: Option<u64>,
    pub pid: Option<u32>,
    pub log_path: Option<Seq<char>>,
    pub started_at: Option<u64>,
    pub completed_at: Option<u64>,
    pub created_at: u64,
    pub updated_at: u64,
}

impl RunView {
    /// Well-formedness of a run record:
    /// a pid is recorded exactly while the process runs, a retry time is
    /// recorded exactly while a retry is pending (scheduled or paused),
    /// the attempt counter starts at one and never exceeds the maximum,
    /// and an exit code appears only once an attempt has finished.
    pub open spec fn wf(self) -> bool {
        &&& self.pid is Some <==> self.status is Running
        &&& self.next_retry_at is Some <==> retry_pending(self.status)
        &&& 1 <= self.attempt <= self.max_attempts
        &&& self.status is Pending || self.status is Running || retry_pending(self.status)
            ==> self.exit_code is None
    }
}

/// One execution attempt triggered by a worker in response to an event.
///
/// Command and argument list are snapshotted at creation and immune to
/// later worker edits.
#[derive(Debug)]
pub struct Run {
    pub id: u64,
    pub worker_id: u64,
    pub event_id: u64,
    pub event_type: String,
    pub entity_id: String,
    pub command: String,
    pub args: Vec<String>,
    pub status: RunStatus,
    pub exit_code: Option<i32>,
    pub error_message: Option<String>,
    pub attempt: u32,
    pub max_attempts: u32,
    pub next_retry_at: Option<u64>,
    pub pid: Option<u32>,
    pub log_path: Option<String>,
    pub started_at: Option<u64>,
    pub completed_at: Option<u64>,
    pub created_at: u64,
    pub updated_at: u64,
}

impl View for Run {
    type V = RunView;

    open spec fn view(&self) -> RunView {
        RunView {
            id: self.id,
            worker_id: self.worker_id,
            event_id: self.event_id,
            event_type: self.event_type@,
            entity_id: self.entity_id@,
            command: self.command@,
            args: self.args.deep_view(),
            status: self.status,
            exit_code: self.exit_code,
            error_message: self.error_message.deep_view(),
            attempt: self.attempt,
            max_attempts: self.max_attempts,
            next_retry_at: self.next_retry_at,
            pid: self.pid,
            log_path: self.log_path.deep_view(),
            started_at: self.started_at,
            completed_at: self.completed_at,
            created_at: self.created_at,
            updated_at: self.updated_at,
        }
    }
}

impl DeepView for Run {
    type V = RunView;

    open spec fn deep_view(&self) -> RunView {
        self.view()
    }
}

/// Mathematical view of a [`CreateWorker`] specification.
#[verifier::ext_equal]
pub ghost struct CreateWorkerView {
    pub runner_name: Option<Seq<char>>,
    pub command: Seq<char>,
    pub args: Seq<Seq<char>>,
    pub event_type: Seq<char>,
    pub filters: Option<Seq<char>>,
    pub concurrency: Option<u32>,
    pub instance_path: Option<Seq<char>>,
    pub detached: bool,
}

/// Specification from which a worker is created.
///
/// The command is either given explicitly or resolved from a named runner
/// before this record is built; an absent concurrency means the default
/// of one simultaneous run.
#[derive(Debug)]
pub struct CreateWorker {
    pub runner_name: Option<String>,
    pub command: String,
    pub args: Vec<String>,
    pub event_type: String,
    pub filters: Option<String>,
    pub concurrency: Option<u32>,
    pub instance_path: Option<String>,
    pub detached: bool,
}

impl View for CreateWorker {
    type V = CreateWorkerView;

    open spec fn view(&self) -> CreateWorkerView {
        CreateWorkerView {
            runner_name: self.runner_name.deep_view(),
            command: self.command@,
            args: self.args.deep_view(),
            event_type: self.event_type@,
            filters: self.filters.deep_view(),
            concurrency: self.concurrency,
            instance_path: self.instance_path.deep_view(),
            detached: self.detached,
        }
    }
}

impl DeepView for CreateWorker {
    type V = CreateWorkerView;

    open spec fn deep_view(&self) -> CreateWorkerView {
        self.view()
    }
}

/// Mathematical view of an [`Event`].
#[verifier::ext_equal]
pub ghost struct EventView {
    pub id: u64,
    pub event_type: Seq<char>,
    pub entity_id: Seq<char>,
    pub payload: Seq<char>,
}

/// An external occurrence that may trigger runs on matching workers.
#[derive(Debug)]
pub struct Event {
    pub id: u64,
    pub event_type: String,
    pub entity_id: String,
    pub payload: String,
}

impl View for Event {
    type V = EventView;

    open spec fn view(&self) -> EventView {
        EventView {
            id: self.id,
            event_type: self.event_type@,
            entity_id: self.entity_id@,
            payload: self.payload@,
        }
    }
}

impl DeepView for Event {
    type V = EventView;

    open spec fn deep_view(&self) -> EventView {
        self.view()
    }
}

/// Clone an optional string, preserving its view.
pub fn clone_opt_string(s: &Option<String>) -> (r: Option<String>)
    ensures
        r.deep_view() == s.deep_view(),
{
    match s {
        Some(x) => Some(x.clone()),
        None => None,
    }
}

/// Clone a vector of strings, preserving its view.
pub fn clone_string_vec(v: &Vec<String>) -> (r: Vec<String>)
    ensures
        r.deep_view() == v.deep_view(),
{
    let mut r: Vec<String> = Vec::new();
    let mut i: usize = 0;
    while i < v.len()
        invariant
            i <= v.len(),
            r@.len() == i,
            forall|j: int| 0 <= j < i ==> r.deep_view()[j] == v.deep_view()[j],
        decreases v.len() - i,
    {
        let c = v[i].clone();
        r.push(c);
        i = i + 1;
    }
    proof {
        assert(r.deep_view() =~= v.deep_view());
    }
    r
}

impl Clone for Worker {
    /// Cloning preserves the view.
    fn clone(&self) -> (r: Self)
        ensures
            r@ == self@,
    {
        Worker {
            id: self.id,
            runner_name: clone_opt_string(&self.runner_name),
            command: self.command.clone(),
            args: clone_string_vec(&self.args),
            event_type: self.event_type.clone(),
            filters: clone_opt_string(&self.filters),
            concurrency: self.concurrency,
            instance_path: clone_opt_string(&self.instance_path),
            detached: self.detached,
            status: self.status,
            created_at: self.created_at,
            updated_at: self.updated_at,
        }
    }
}

impl Clone for Run {
    /// Cloning preserves the view.
    fn clone(&self) -> (r: Self)
        ensures
            r@ == self@,
    {
        Run {
            id: self.id,
            worker_id: self.worker_id,
            event_id: self.event_id,
            event_type: self.event_type.clone(),
            entity_id: self.entity_id.clone(),
            command: self.command.clone(),
            args: clone_string_vec(&self.args),
            status: self.status,
            exit_code: self.exit_code,
            error_message: clone_opt_string(&self.error_message),
            attempt: self.attempt,
            max_attempts: self.max_attempts,
            next_retry_at: self.next_retry_at,
            pid: self.pid,
            log_path: clone_opt_string(&self.log_path),
            started_at: self.started_at,
            completed_at: self.completed_at,
            created_at: self.created_at,
            updated_at: self.updated_at,
        }
    }
}

impl Clone for CreateWorker {
    /// Cloning preserves the view.
    fn clone(&self) -> (r: Self)
        ensures
            r@ == self@,
    {
        CreateWorker {
            runner_name: clone_opt_string(&self.runner_name),
            command: self.command.clone(),
            args: clone_string_vec(&self.args),
            event_type: self.event_type.clone(),
            filters: clone_opt_string(&self.filters),
            concurrency: self.concurrency,
            instance_path: clone_opt_string(&self.instance_path),
            detached: self.detached,
        }
    }
}

impl Clone for Event {
    /// Cloning preserves the view.
    fn clone(&self) -> (r: Self)
        ensures
            r@ == self@,
    {
        Event {
            id: self.id,
            event_type: self.event_type.clone(),
            entity_id: self.entity_id.clone(),
            payload: self.payload.clone(),
        }
    }
}

} // verus!
