//! The request/response protocol spoken over the daemon's local socket.
//!
//! A request carries a caller-chosen correlation id and one operation; a
//! response carries the same id and either a success payload or an error
//! message.  Exactly one response is produced per request.  The closed set
//! of operations mirrors the manager's command and query surface.

use vstd::prelude::*;

use crate::model::{Run, RunStatus, RunView, Worker, WorkerView};

verus! {

/// Whether a log request targets a worker or a single run.
#[derive(Clone, Copy, PartialEq, Eq, Structural, Debug)]
pub enum LogTarget {
    Worker,
    Run,
}

/// Mathematical view of a [`StartWorkerRequest`].
#[verifier::ext_equal]
pub ghost struct StartWorkerRequestView {
    pub runner_name: Option<Seq<char>>,
    pub command: Seq<char>,
    pub args: Seq<Seq<char>>,
    pub event_type: Seq<char>,
    pub filters: Option<Seq<char>>,
    pub concurrency: Option<u32>,
    pub instance_path: Option<Seq<char>>,
    pub attach: bool,
}

/// Parameters of the start-worker operation.  `attach` is the caller's
/// view: an attached worker is torn down with the daemon, a detached one
/// is left alone.
#[derive(Debug)]
pub struct StartWorkerRequest {
    pub runner_name: Option<String>,
    pub command: String,
    pub args: Vec<String>,
    pub event_type: String,
    pub filters: Option<String>,
    pub concurrency: Option<u32>,
    pub instance_path: Option<String>,
    pub attach: bool,
}

impl View for StartWorkerRequest {
    type V = StartWorkerRequestView;

    open spec fn view(&self) -> StartWorkerRequestView {
        StartWorkerRequestView {
            runner_name: self.runner_name.deep_view(),
            command: self.command@,
            args: self.args.deep_view(),
            event_type: self.event_type@,
            filters: self.filters.deep_view(),
            concurrency: self.concurrency,
            instance_path: self.instance_path.deep_view(),
            attach: self.attach,
        }
    }
}

/// Mathematical view of a [`GetLogsRequest`].
#[verifier::ext_equal]
pub ghost struct GetLogsRequestView {
    pub target_id: u64,
    pub target_type: LogTarget,
    pub since_line: u64,
    pub limit: u64,
}

/// Parameters of the paged log-retrieval operation.
#[derive(Debug)]
pub struct GetLogsRequest {
    pub target_id: u64,
    pub target_type: LogTarget,
    pub since_line: u64,
    pub limit: u64,
}

impl View for GetLogsRequest {
    type V = GetLogsRequestView;

    open spec fn view(&self) -> GetLogsRequestView {
        GetLogsRequestView {
            target_id: self.target_id,
            target_type: self.target_type,
            since_line: self.since_line,
            limit: self.limit,
        }
    }
}

/// Mathematical view of an [`Operation`].
#[verifier::ext_equal]
#[allow(inconsistent_fields)]
pub ghost enum OperationView {
    Ping,
    Shutdown,
    StartWorker { req: StartWorkerRequestView },
    StopWorker { worker_id: u64, stop_runs: bool },
    GetWorker { worker_id: u64 },
    ListWorkers { all: bool },
    PruneWorkers,
    WorkerLogs { worker_id: u64, lines: u64 },
    GetRun { run_id: u64 },
    ListRuns { worker_id: Option<u64>, status: Option<RunStatus>, all: bool },
    StopRun { run_id: u64 },
    PauseRun { run_id: u64 },
    ResumeRun { run_id: u64 },
    RunLogs { run_id: u64, lines: u64 },
    GetLogs { req: GetLogsRequestView },
}

/// The closed set of operations a client can request.
#[derive(Debug)]
#[allow(inconsistent_fields)]
pub enum Operation {
    /// Liveness probe.
    Ping,
    /// Ask the daemon to shut down; acknowledged before it does.
    Shutdown,
    StartWorker(StartWorkerRequest),
    StopWorker { worker_id: u64, stop_runs: bool },
    GetWorker { worker_id: u64 },
    ListWorkers { all: bool },
    PruneWorkers,
    /// The last `lines` lines of a worker's log.
    WorkerLogs { worker_id: u64, lines: u64 },
    GetRun { run_id: u64 },
    ListRuns { worker_id: Option<u64>, status: Option<RunStatus>, all: bool },
    StopRun { run_id: u64 },
    PauseRun { run_id: u64 },
    ResumeRun { run_id: u64 },
    /// The last `lines` lines of a run's log.
    RunLogs { run_id: u64, lines: u64 },
    GetLogs(GetLogsRequest),
}

impl View for Operation {
    type V = OperationView;

    open spec fn view(&self) -> OperationView {
        match self {
            Operation::Ping => OperationView::Ping,
            Operation::Shutdown => OperationView::Shutdown,
            Operation::StartWorker(r) => OperationView::StartWorker { req: r@ },
            Operation::StopWorker { worker_id, stop_runs } => OperationView::StopWorker {
                worker_id: *worker_id,
                stop_runs: *stop_runs,
            },
            Operation::GetWorker { worker_id } => OperationView::GetWorker {
                worker_id: *worker_id,
            },
            Operation::ListWorkers { all } => OperationView::ListWorkers { all: *all },
            Operation::PruneWorkers => OperationView::PruneWorkers,
            Operation::WorkerLogs { worker_id, lines } => OperationView::WorkerLogs {
                worker_id: *worker_id,
                lines: *lines,
            },
            Operation::GetRun { run_id } => OperationView::GetRun { run_id: *run_id },
            Operation::ListRuns { worker_id, status, all } => OperationView::ListRuns {
                worker_id: *worker_id,
                status: *status,
                all: *all,
            },
            Operation::StopRun { run_id } => OperationView::StopRun { run_id: *run_id },
            Operation::PauseRun { run_id } => OperationView::PauseRun { run_id: *run_id },
            Operation::ResumeRun { run_id } => OperationView::ResumeRun { run_id: *run_id },
            Operation::RunLogs { run_id, lines } => OperationView::RunLogs {
                run_id: *run_id,
                lines: *lines,
            },
            Operation::GetLogs(r) => OperationView::GetLogs { req: r@ },
        }
    }
}

/// Mathematical view of a [`Request`].
#[verifier::ext_equal]
pub ghost struct RequestView {
    pub id: u64,
    pub op: OperationView,
}

/// One client request: a correlation id and an operation.
#[derive(Debug)]
pub struct Request {
    pub id: u64,
    pub op: Operation,
}

impl View for Request {
    type V = RequestView;

    open spec fn view(&self) -> RequestView {
        RequestView { id: self.id, op: self.op@ }
    }
}

/// Mathematical view of a [`Payload`].
#[verifier::ext_equal]
pub ghost enum PayloadView {
    Empty,
    Ack,
    Pong { version: Seq<char> },
    WorkerRecord { worker: WorkerView },
    WorkerList { workers: Seq<WorkerView> },
    RunRecord { run: RunView },
    RunList { runs: Seq<RunView> },
    LogText { content: Seq<char>, note: Option<Seq<char>> },
    LogPage { lines: Seq<Seq<char>>, next_line: u64 },
}

/// A successful response's payload.
#[derive(Debug)]
pub enum Payload {
    /// Success with nothing to report.
    Empty,
    /// Acknowledgment of a shutdown request.
    Ack,
    /// Answer to a liveness probe: the daemon's version.
    Pong { version: String },
    WorkerRecord(Worker),
    WorkerList(Vec<Worker>),
    RunRecord(Run),
    RunList(Vec<Run>),
    /// Tail text of a log file, with an optional note (such as "no log
    /// file found").
    LogText { content: String, note: Option<String> },
    /// One page of log lines, plus the index to request the next page.
    LogPage { lines: Vec<String>, next_line: u64 },
}

impl View for Payload {
    type V = PayloadView;

    open spec fn view(&self) -> PayloadView {
        match self {
            Payload::Empty => PayloadView::Empty,
            Payload::Ack => PayloadView::Ack,
            Payload::Pong { version } => PayloadView::Pong { version: version@ },
            Payload::WorkerRecord(w) => PayloadView::WorkerRecord { worker: w@ },
            Payload::WorkerList(ws) => PayloadView::WorkerList { workers: ws.deep_view() },
            Payload::RunRecord(r) => PayloadView::RunRecord { run: r@ },
            Payload::RunList(rs) => PayloadView::RunList { runs: rs.deep_view() },
            Payload::LogText { content, note } => PayloadView::LogText {
                content: content@,
                note: note.deep_view(),
            },
            Payload::LogPage { lines, next_line } => PayloadView::LogPage {
                lines: lines.deep_view(),
                next_line: *next_line,
            },
        }
    }
}

/// Mathematical view of a [`Response`].
#[verifier::ext_equal]
pub ghost struct ResponseView {
    pub id: u64,
    pub result: Result<PayloadView, Seq<char>>,
}

/// One response: the request's correlation id and either a success
/// payload or an error message.
#[derive(Debug)]
pub struct Response {
    pub id: u64,
    pub result: Result<Payload, String>,
}

impl View for Response {
    type V = ResponseView;

    open spec fn view(&self) -> ResponseView {
        ResponseView {
            id: self.id,
            result: match &self.result {
                Ok(p) => Ok(p@),
                Err(m) => Err(m@),
            },
        }
    }
}

impl Response {
    /// A success response with a payload.
    pub fn ok(id: u64, payload: Payload) -> (r: Response)
        ensures
            r@.id == id,
            r@.result == Ok::<PayloadView, Seq<char>>(payload@),
    {
        Response { id, result: Ok(payload) }
    }

    /// A success response with nothing to report.
    pub fn ok_empty(id: u64) -> (r: Response)
        ensures
            r@.id == id,
            r@.result == Ok::<PayloadView, Seq<char>>(PayloadView::Empty),
    {
        Response { id, result: Ok(Payload::Empty) }
    }

    /// A failure response carrying a human-readable message.
    pub fn err(id: u64, message: String) -> (r: Response)
        ensures
            r@.id == id,
            r@.result == Err::<PayloadView, Seq<char>>(message@),
    {
        Response { id, result: Err(message) }
    }
}

} // verus!
