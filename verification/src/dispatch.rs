//! Request dispatch: one protocol request against the worker manager.
//!
//! Each request is executed and answered with exactly one response
//! carrying the request's correlation id.  Process actions the manager
//! owes (kills) are handed back for the surrounding binary to perform.
//! Log operations cannot read files here, so they return a read
//! instruction instead; the surrounding binary reads the file's lines and
//! builds the response with the `log_*_response` functions, whose slicing
//! is verified.

use vstd::prelude::*;

use crate::logs::{slice_log_lines, spec_join_lines, spec_log_page, spec_next_line,
    spec_tail_start, tail_lines};
use crate::manager::{
    spec_create_invalid, spec_kill_actions, spec_list_runs, spec_list_workers, spec_new_worker,
    spec_prune_workers, spec_stop_run_at, spec_stop_worker_runs, spec_stopped_worker,
    spec_worker_log_path, ManagerView, ProcAction, WorkerManager,
};
use crate::numfmt::{dec_str, u64_to_string};
use crate::protocol::{
    LogTarget, Operation, OperationView, Payload, PayloadView, Request, RequestView, Response,
    ResponseView,
};

verus! {

/// Mathematical view of a [`DispatchOutcome`].
#[verifier::ext_equal]
#[allow(inconsistent_fields)]
pub ghost enum DispatchOutcomeView {
    Done { response: ResponseView, shutdown: bool, actions: Seq<ProcAction> },
    ReadTail { request_id: u64, path: Seq<char>, lines: u64 },
    ReadPage { request_id: u64, path: Seq<char>, since_line: u64, limit: u64 },
}

/// What dispatching one request produced: a finished response (plus the
/// process actions owed, and whether the daemon must now shut down), or
/// an instruction to read a log file and finish the response with the
/// matching `log_*_response` function.
#[derive(Debug)]
#[allow(inconsistent_fields)]
pub enum DispatchOutcome {
    Done { response: Response, shutdown: bool, actions: Vec<ProcAction> },
    ReadTail { request_id: u64, path: String, lines: u64 },
    ReadPage { request_id: u64, path: String, since_line: u64, limit: u64 },
}

impl View for DispatchOutcome {
    type V = DispatchOutcomeView;

    open spec fn view(&self) -> DispatchOutcomeView {
        match self {
            DispatchOutcome::Done { response, shutdown, actions } => DispatchOutcomeView::Done {
                response: response@,
                shutdown: *shutdown,
                actions: actions@,
            },
            DispatchOutcome::ReadTail { request_id, path, lines } => DispatchOutcomeView::ReadTail {
                request_id: *request_id,
                path: path@,
                lines: *lines,
            },
            DispatchOutcome::ReadPage {
                request_id,
                path,
                since_line,
                limit,
            } => DispatchOutcomeView::ReadPage {
                request_id: *request_id,
                path: path@,
                since_line: *since_line,
                limit: *limit,
            },
        }
    }
}

/// "Worker <id> not found".
pub open spec fn worker_not_found_msg(id: u64) -> Seq<char> {
    "Worker "@ + dec_str(id as nat) + " not found"@
}

/// "Run <id> not found".
pub open spec fn run_not_found_msg(id: u64) -> Seq<char> {
    "Run "@ + dec_str(id as nat) + " not found"@
}

/// A finished outcome with no actions and no shutdown.
pub open spec fn plain_done(rv: ResponseView) -> DispatchOutcomeView {
    DispatchOutcomeView::Done { response: rv, shutdown: false, actions: Seq::empty() }
}

/// What dispatching request `req` against manager state `m` must produce:
/// the new state `m2` and outcome `out`, for every operation of the
/// protocol.
pub open spec fn dispatch_post(
    m: ManagerView,
    req: RequestView,
    now: u64,
    version: Seq<char>,
    m2: ManagerView,
    out: DispatchOutcomeView,
) -> bool {
    match req.op {
        OperationView::Ping => m2 == m && out == plain_done(
            ResponseView { id: req.id, result: Ok(PayloadView::Pong { version }) },
        ),
        OperationView::Shutdown => m2 == m && out == DispatchOutcomeView::Done {
            response: ResponseView { id: req.id, result: Ok(PayloadView::Ack) },
            shutdown: true,
            actions: Seq::empty(),
        },
        OperationView::StartWorker { req: sw } => {
            let cw = crate::model::CreateWorkerView {
                runner_name: sw.runner_name,
                command: sw.command,
                args: sw.args,
                event_type: sw.event_type,
                filters: sw.filters,
                concurrency: sw.concurrency,
                instance_path: sw.instance_path,
                detached: !sw.attach,
            };
            if spec_create_invalid(cw) {
                &&& m2 == m
                &&& out matches DispatchOutcomeView::Done { response, shutdown, actions }
                &&& (out matches DispatchOutcomeView::Done { response, shutdown, actions }
                    ==> response.id == req.id && response.result is Err && !shutdown
                    && actions.len() == 0)
            } else {
                let w = spec_new_worker(cw, m.next_worker_id, now);
                &&& m2 == ManagerView {
                    workers: m.workers.push(w),
                    next_worker_id: (m.next_worker_id + 1) as u64,
                    ..m
                }
                &&& out == plain_done(
                    ResponseView { id: req.id, result: Ok(PayloadView::WorkerRecord { worker: w }) },
                )
            }
        },
        OperationView::StopWorker { worker_id, stop_runs } => {
            if m.has_worker(worker_id) {
                &&& (exists|wi: int|
                    0 <= wi < m.workers.len() && (#[trigger] m.workers[wi]).id == worker_id
                        && m2.workers == m.workers.update(
                        wi,
                        spec_stopped_worker(m.workers[wi], now),
                    ))
                &&& m2.runs == (if stop_runs {
                    spec_stop_worker_runs(m.runs, worker_id, now)
                } else {
                    m.runs
                })
                &&& m2.next_worker_id == m.next_worker_id
                &&& m2.next_run_id == m.next_run_id
                &&& m2.logs_root == m.logs_root
                &&& out == DispatchOutcomeView::Done {
                    response: ResponseView { id: req.id, result: Ok(PayloadView::Empty) },
                    shutdown: false,
                    actions: if stop_runs {
                        spec_kill_actions(m.runs, worker_id)
                    } else {
                        Seq::empty()
                    },
                }
            } else {
                &&& m2 == m
                &&& out == plain_done(
                    ResponseView { id: req.id, result: Err(worker_not_found_msg(worker_id)) },
                )
            }
        },
        OperationView::GetWorker { worker_id } => {
            &&& m2 == m
            &&& (if m.has_worker(worker_id) {
                exists|i: int|
                    0 <= i < m.workers.len() && (#[trigger] m.workers[i]).id == worker_id && out
                        == plain_done(
                        ResponseView {
                            id: req.id,
                            result: Ok(PayloadView::WorkerRecord { worker: m.workers[i] }),
                        },
                    )
            } else {
                out == plain_done(
                    ResponseView { id: req.id, result: Err(worker_not_found_msg(worker_id)) },
                )
            })
        },
        OperationView::ListWorkers { all } => m2 == m && out == plain_done(
            ResponseView {
                id: req.id,
                result: Ok(PayloadView::WorkerList { workers: spec_list_workers(m.workers, all) }),
            },
        ),
        OperationView::PruneWorkers => {
            &&& m2 == ManagerView { workers: spec_prune_workers(m.workers, m.runs), ..m }
            &&& out == plain_done(
                ResponseView { id: req.id, result: Ok(PayloadView::Empty) },
            )
        },
        OperationView::WorkerLogs { worker_id, lines } => m2 == m && out
            == DispatchOutcomeView::ReadTail {
            request_id: req.id,
            path: spec_worker_log_path(m.logs_root, worker_id),
            lines,
        },
        OperationView::GetRun { run_id } => {
            &&& m2 == m
            &&& (if m.has_run(run_id) {
                exists|i: int|
                    0 <= i < m.runs.len() && (#[trigger] m.runs[i]).id == run_id && out
                        == plain_done(
                        ResponseView {
                            id: req.id,
                            result: Ok(PayloadView::RunRecord { run: m.runs[i] }),
                        },
                    )
            } else {
                out == plain_done(
                    ResponseView { id: req.id, result: Err(run_not_found_msg(run_id)) },
                )
            })
        },
        OperationView::ListRuns { worker_id, status, all } => m2 == m && out == plain_done(
            ResponseView {
                id: req.id,
                result: Ok(
                    PayloadView::RunList { runs: spec_list_runs(m.runs, worker_id, status, all) },
                ),
            },
        ),
        OperationView::StopRun { run_id } => {
            if m.has_run(run_id) {
                &&& m2.workers == m.workers
                &&& m2.next_worker_id == m.next_worker_id
                &&& m2.next_run_id == m.next_run_id
                &&& m2.logs_root == m.logs_root
                &&& (exists|i: int|
                    0 <= i < m.runs.len() && (#[trigger] m.runs[i]).id == run_id && {
                        let (runs2, act) = spec_stop_run_at(m.runs, i, now);
                        &&& m2.runs == runs2
                        &&& out == DispatchOutcomeView::Done {
                            response: ResponseView { id: req.id, result: Ok(PayloadView::Empty) },
                            shutdown: false,
                            actions: match act {
                                Some(a) => seq![a],
                                None => Seq::empty(),
                            },
                        }
                    })
            } else {
                &&& m2 == m
                &&& out == plain_done(
                    ResponseView { id: req.id, result: Err(run_not_found_msg(run_id)) },
                )
            }
        },
        OperationView::PauseRun { run_id } => {
            &&& m2.workers == m.workers
            &&& m2.next_worker_id == m.next_worker_id
            &&& m2.next_run_id == m.next_run_id
            &&& m2.logs_root == m.logs_root
            &&& (out matches DispatchOutcomeView::Done { response, shutdown, actions }
                && response.id == req.id && !shutdown && actions.len() == 0)
            &&& ((exists|i: int|
                0 <= i < m.runs.len() && (#[trigger] m.runs[i]).id == run_id
                    && m.runs[i].status is RetryScheduled) ==> (exists|i: int|
                0 <= i < m.runs.len() && (#[trigger] m.runs[i]).id == run_id && m2.runs
                    == m.runs.update(i, crate::runfsm::spec_pause(m.runs[i], now)) && (
                out matches DispatchOutcomeView::Done { response, .. } && response.result == Ok::<
                    PayloadView,
                    Seq<char>,
                >(PayloadView::Empty))))
            &&& (!(exists|i: int|
                0 <= i < m.runs.len() && (#[trigger] m.runs[i]).id == run_id
                    && m.runs[i].status is RetryScheduled) ==> m2 == m && (
            out matches DispatchOutcomeView::Done { response, .. } && response.result is Err))
        },
        OperationView::ResumeRun { run_id } => {
            &&& m2.workers == m.workers
            &&& m2.next_worker_id == m.next_worker_id
            &&& m2.next_run_id == m.next_run_id
            &&& m2.logs_root == m.logs_root
            &&& (out matches DispatchOutcomeView::Done { response, shutdown, actions }
                && response.id == req.id && !shutdown && actions.len() == 0)
            &&& ((exists|i: int|
                0 <= i < m.runs.len() && (#[trigger] m.runs[i]).id == run_id
                    && m.runs[i].status is Paused) ==> (exists|i: int|
                0 <= i < m.runs.len() && (#[trigger] m.runs[i]).id == run_id && m2.runs
                    == m.runs.update(i, crate::runfsm::spec_resume(m.runs[i], now)) && (
                out matches DispatchOutcomeView::Done { response, .. } && response.result == Ok::<
                    PayloadView,
                    Seq<char>,
                >(PayloadView::Empty))))
            &&& (!(exists|i: int|
                0 <= i < m.runs.len() && (#[trigger] m.runs[i]).id == run_id
                    && m.runs[i].status is Paused) ==> m2 == m && (
            out matches DispatchOutcomeView::Done { response, .. } && response.result is Err))
        },
        OperationView::RunLogs { run_id, lines } => {
            &&& m2 == m
            &&& (if m.has_run(run_id) {
                exists|i: int|
                    0 <= i < m.runs.len() && (#[trigger] m.runs[i]).id == run_id && (match m
                        .runs[i].log_path {
                        Some(p) => out == DispatchOutcomeView::ReadTail {
                            request_id: req.id,
                            path: p,
                            lines,
                        },
                        None => out == plain_done(
                            ResponseView {
                                id: req.id,
                                result: Ok(
                                    PayloadView::LogText {
                                        content: Seq::empty(),
                                        note: Some("No log file found"@),
                                    },
                                ),
                            },
                        ),
                    })
            } else {
                out == plain_done(
                    ResponseView { id: req.id, result: Err(run_not_found_msg(run_id)) },
                )
            })
        },
        OperationView::GetLogs { req: glr } => {
            &&& m2 == m
            &&& (match glr.target_type {
                LogTarget::Worker => out == DispatchOutcomeView::ReadPage {
                    request_id: req.id,
                    path: spec_worker_log_path(m.logs_root, glr.target_id),
                    since_line: glr.since_line,
                    limit: glr.limit,
                },
                LogTarget::Run => if m.has_run(glr.target_id) {
                    exists|i: int|
                        0 <= i < m.runs.len() && (#[trigger] m.runs[i]).id == glr.target_id && (
                        match m.runs[i].log_path {
                            Some(p) => out == DispatchOutcomeView::ReadPage {
                                request_id: req.id,
                                path: p,
                                since_line: glr.since_line,
                                limit: glr.limit,
                            },
                            None => out == plain_done(
                                ResponseView {
                                    id: req.id,
                                    result: Ok(
                                        PayloadView::LogText {
                                            content: Seq::empty(),
                                            note: Some("No log file found"@),
                                        },
                                    ),
                                },
                            ),
                        })
                } else {
                    out == plain_done(
                        ResponseView { id: req.id, result: Err(run_not_found_msg(glr.target_id)) },
                    )
                },
            })
        },
    }
}

} // verus!

verus! {

fn worker_not_found_string(id: u64) -> (s: String)
    ensures
        s@ == worker_not_found_msg(id),
{
    let p: String = "Worker ".to_owned();
    let s = p.concat(u64_to_string(id).as_str()).concat(" not found");
    proof {
        assert(s@ =~= worker_not_found_msg(id));
    }
    s
}

fn run_not_found_string(id: u64) -> (s: String)
    ensures
        s@ == run_not_found_msg(id),
{
    let p: String = "Run ".to_owned();
    let s = p.concat(u64_to_string(id).as_str()).concat(" not found");
    proof {
        assert(s@ =~= run_not_found_msg(id));
    }
    s
}

/// Execute one request against the manager.  The response carries the
/// request's correlation id; `version` is what a liveness probe reports.
#[verifier::rlimit(100)]
pub fn dispatch_request(mgr: &mut WorkerManager, req: Request, now: u64, version: &str) -> (out:
    DispatchOutcome)
    requires
        old(mgr)@.wf(),
        old(mgr)@.next_worker_id < u64::MAX,
    ensures
        final(mgr)@.wf(),
        dispatch_post(old(mgr)@, req@, now, version@, final(mgr)@, out@),
{
    let ghost m0 = mgr@;
    let id = req.id;
    match req.op {
        Operation::Ping => {
            let response = Response::ok(id, Payload::Pong { version: version.to_owned() });
            DispatchOutcome::Done { response, shutdown: false, actions: Vec::new() }
        },
        Operation::Shutdown => {
            let response = Response::ok(id, Payload::Ack);
            DispatchOutcome::Done { response, shutdown: true, actions: Vec::new() }
        },
        Operation::StartWorker(sw) => {
            let cw = crate::model::CreateWorker {
                runner_name: sw.runner_name,
                command: sw.command,
                args: sw.args,
                event_type: sw.event_type,
                filters: sw.filters,
                concurrency: sw.concurrency,
                instance_path: sw.instance_path,
                detached: !sw.attach,
            };
            match mgr.start_worker(&cw, now) {
                Ok(w) => {
                    let ghost wv = w@;
                    let response = Response::ok(id, Payload::WorkerRecord(w));
                    proof {
                        assert(mgr@ =~= ManagerView {
                            workers: m0.workers.push(wv),
                            next_worker_id: (m0.next_worker_id + 1) as u64,
                            ..m0
                        });
                    }
                    DispatchOutcome::Done { response, shutdown: false, actions: Vec::new() }
                },
                Err(e) => {
                    let response = Response::err(id, e.message_string());
                    DispatchOutcome::Done { response, shutdown: false, actions: Vec::new() }
                },
            }
        },
        Operation::StopWorker { worker_id, stop_runs } => {
            match mgr.stop_worker(worker_id, stop_runs, now) {
                Ok(actions) => {
                    let response = Response::ok(id, Payload::Empty);
                    DispatchOutcome::Done { response, shutdown: false, actions }
                },
                Err(_) => {
                    let response = Response::err(id, worker_not_found_string(worker_id));
                    DispatchOutcome::Done { response, shutdown: false, actions: Vec::new() }
                },
            }
        },
        Operation::GetWorker { worker_id } => {
            let response = match mgr.get_worker(worker_id) {
                Some(w) => Response::ok(id, Payload::WorkerRecord(w)),
                None => Response::err(id, worker_not_found_string(worker_id)),
            };
            DispatchOutcome::Done { response, shutdown: false, actions: Vec::new() }
        },
        Operation::ListWorkers { all } => {
            let ws = mgr.list_workers(all);
            let response = Response::ok(id, Payload::WorkerList(ws));
            DispatchOutcome::Done { response, shutdown: false, actions: Vec::new() }
        },
        Operation::PruneWorkers => {
            let _removed = mgr.prune_workers(now);
            proof {
                assert(mgr@ =~= ManagerView {
                    workers: spec_prune_workers(m0.workers, m0.runs),
                    ..m0
                });
            }
            let response = Response::ok(id, Payload::Empty);
            DispatchOutcome::Done { response, shutdown: false, actions: Vec::new() }
        },
        Operation::WorkerLogs { worker_id, lines } => {
            let path = mgr.get_worker_log_path(worker_id);
            DispatchOutcome::ReadTail { request_id: id, path, lines }
        },
        Operation::GetRun { run_id } => {
            let response = match mgr.get_run(run_id) {
                Some(r) => Response::ok(id, Payload::RunRecord(r)),
                None => Response::err(id, run_not_found_string(run_id)),
            };
            DispatchOutcome::Done { response, shutdown: false, actions: Vec::new() }
        },
        Operation::ListRuns { worker_id, status, all } => {
            let rs = mgr.list_runs(worker_id, status, all);
            let response = Response::ok(id, Payload::RunList(rs));
            DispatchOutcome::Done { response, shutdown: false, actions: Vec::new() }
        },
        Operation::StopRun { run_id } => {
            match mgr.stop_run(run_id, now) {
                Ok(act) => {
                    let mut actions: Vec<ProcAction> = Vec::new();
                    match act {
                        Some(a) => {
                            actions.push(a);
                            proof {
                                assert(actions@ =~= seq![a]);
                            }
                        },
                        None => {
                            proof {
                                assert(actions@ =~= Seq::<ProcAction>::empty());
                            }
                        },
                    }
                    let response = Response::ok(id, Payload::Empty);
                    DispatchOutcome::Done { response, shutdown: false, actions }
                },
                Err(_) => {
                    let response = Response::err(id, run_not_found_string(run_id));
                    DispatchOutcome::Done { response, shutdown: false, actions: Vec::new() }
                },
            }
        },
        Operation::PauseRun { run_id } => {
            let response = match mgr.pause_run(run_id, now) {
                Ok(()) => Response::ok(id, Payload::Empty),
                Err(e) => Response::err(id, e.message_string()),
            };
            DispatchOutcome::Done { response, shutdown: false, actions: Vec::new() }
        },
        Operation::ResumeRun { run_id } => {
            let response = match mgr.resume_run(run_id, now) {
                Ok(()) => Response::ok(id, Payload::Empty),
                Err(e) => Response::err(id, e.message_string()),
            };
            DispatchOutcome::Done { response, shutdown: false, actions: Vec::new() }
        },
        Operation::RunLogs { run_id, lines } => {
            match mgr.get_run_log_path(run_id) {
                Ok(Some(path)) => DispatchOutcome::ReadTail { request_id: id, path, lines },
                Ok(None) => {
                    let response = Response::ok(
                        id,
                        Payload::LogText {
                            content: String::new(),
                            note: Some("No log file found".to_owned()),
                        },
                    );
                    DispatchOutcome::Done { response, shutdown: false, actions: Vec::new() }
                },
                Err(_) => {
                    let response = Response::err(id, run_not_found_string(run_id));
                    DispatchOutcome::Done { response, shutdown: false, actions: Vec::new() }
                },
            }
        },
        Operation::GetLogs(glr) => {
            match glr.target_type {
                LogTarget::Worker => {
                    let path = mgr.get_worker_log_path(glr.target_id);
                    DispatchOutcome::ReadPage {
                        request_id: id,
                        path,
                        since_line: glr.since_line,
                        limit: glr.limit,
                    }
                },
                LogTarget::Run => {
                    match mgr.get_run_log_path(glr.target_id) {
                        Ok(Some(path)) => DispatchOutcome::ReadPage {
                            request_id: id,
                            path,
                            since_line: glr.since_line,
                            limit: glr.limit,
                        },
                        Ok(None) => {
                            let response = Response::ok(
                                id,
                                Payload::LogText {
                                    content: String::new(),
                                    note: Some("No log file found".to_owned()),
                                },
                            );
                            DispatchOutcome::Done {
                                response,
                                shutdown: false,
                                actions: Vec::new(),
                            }
                        },
                        Err(_) => {
                            let response = Response::err(
                                id,
                                run_not_found_string(glr.target_id),
                            );
                            DispatchOutcome::Done {
                                response,
                                shutdown: false,
                                actions: Vec::new(),
                            }
                        },
                    }
                },
            }
        },
    }
}

/// Finish a tail-style log request from the file's lines: the last
/// `count` lines joined with newlines.
pub fn log_tail_response(request_id: u64, lines: &Vec<String>, count: u64) -> (r: Response)
    ensures
        r@.id == request_id,
        r@.result == Ok::<PayloadView, Seq<char>>(
            PayloadView::LogText {
                content: spec_join_lines(
                    lines.deep_view().subrange(
                        spec_tail_start(lines.deep_view().len() as int, count as int),
                        lines.deep_view().len() as int,
                    ),
                ),
                note: None,
            },
        ),
{
    let n: usize = if count > lines.len() as u64 {
        lines.len()
    } else {
        count as usize
    };
    proof {
        assert(spec_tail_start(lines.deep_view().len() as int, n as int) == spec_tail_start(
            lines.deep_view().len() as int,
            count as int,
        ));
    }
    let content = tail_lines(lines, n);
    Response::ok(request_id, Payload::LogText { content, note: None })
}

/// Finish a paged log request from the file's lines: the page at
/// `since_line`, bounded by `limit`, plus the next page's start index.
pub fn log_page_response(request_id: u64, lines: &Vec<String>, since_line: u64, limit: u64) -> (r:
    Response)
    ensures
        r@.id == request_id,
        r@.result == Ok::<PayloadView, Seq<char>>(
            PayloadView::LogPage {
                lines: spec_log_page(lines.deep_view(), since_line as int, limit as int),
                next_line: spec_next_line(
                    lines.deep_view(),
                    since_line as int,
                    limit as int,
                ) as u64,
            },
        ),
{
    let (page, next_line) = slice_log_lines(lines, since_line, limit);
    Response::ok(request_id, Payload::LogPage { lines: page, next_line })
}

/// The response when the requested log file does not exist yet.
pub fn log_missing_response(request_id: u64) -> (r: Response)
    ensures
        r@.id == request_id,
        r@.result == Ok::<PayloadView, Seq<char>>(
            PayloadView::LogText { content: Seq::empty(), note: Some("No log file found"@) },
        ),
{
    Response::ok(
        request_id,
        Payload::LogText { content: String::new(), note: Some("No log file found".to_owned()) },
    )
}

/// The response when reading the log file failed.
pub fn log_read_failed_response(request_id: u64, detail: &str) -> (r: Response)
    ensures
        r@.id == request_id,
        r@.result == Err::<PayloadView, Seq<char>>("Failed to read logs: "@ + detail@),
{
    let p: String = "Failed to read logs: ".to_owned();
    let s = p.concat(detail);
    proof {
        assert(s@ =~= "Failed to read logs: "@ + detail@);
    }
    Response::err(request_id, s)
}

} // verus!
