//! Wire codec round trips, request dispatch, log slicing, version
//! comparison and summary rendering.

use granaryd::dispatch::{
    dispatch_request, log_page_response, log_tail_response, DispatchOutcome,
};
use granaryd::logs::{slice_log_lines, tail_lines};
use granaryd::manager::WorkerManager;
use granaryd::model::RunStatus;
use granaryd::numfmt::{i64_to_string, u64_to_string};
use granaryd::protocol::{
    GetLogsRequest, LogTarget, Operation, Payload, Request, Response, StartWorkerRequest,
};
use granaryd::retry::retry_delay_ms;
use granaryd::summary::{
    format_summary_table, PriorityCounts, StatusCounts, SummaryOutput, TaskSummary, WorkState,
};
use granaryd::update::{
    check_for_update_cached, is_newer_version, normalize_tag, version_with_update_notice,
    UpdateCache,
};
use granaryd::wire::{
    decode_request, decode_response, encode_request, encode_response, frame_message, take_frame,
};

#[test]
fn test_number_rendering() {
    assert_eq!(u64_to_string(0), "0");
    assert_eq!(u64_to_string(12345), "12345");
    assert_eq!(i64_to_string(-7), "-7");
    assert_eq!(i64_to_string(42), "42");
}

#[test]
fn test_retry_delay_doubles_and_caps() {
    assert_eq!(retry_delay_ms(1), 1000);
    assert_eq!(retry_delay_ms(2), 2000);
    assert_eq!(retry_delay_ms(3), 4000);
    assert_eq!(retry_delay_ms(6), 32000);
    assert_eq!(retry_delay_ms(7), 60000);
    assert_eq!(retry_delay_ms(30), 60000);
}

#[test]
fn test_request_round_trip_start_worker() {
    let req = Request {
        id: 99,
        op: Operation::StartWorker(StartWorkerRequest {
            runner_name: Some("fast".to_string()),
            command: "echo".to_string(),
            args: vec!["hi".to_string(), "there".to_string()],
            event_type: "task.started".to_string(),
            filters: None,
            concurrency: Some(2),
            instance_path: None,
            attach: true,
        }),
    };
    let bytes = encode_request(&req);
    let back = decode_request(&bytes).unwrap();
    assert_eq!(back.id, 99);
    match back.op {
        Operation::StartWorker(sw) => {
            assert_eq!(sw.runner_name.as_deref(), Some("fast"));
            assert_eq!(sw.command, "echo");
            assert_eq!(sw.args, vec!["hi".to_string(), "there".to_string()]);
            assert_eq!(sw.event_type, "task.started");
            assert_eq!(sw.filters, None);
            assert_eq!(sw.concurrency, Some(2));
            assert!(sw.attach);
        }
        _ => panic!("wrong operation decoded"),
    }
}

#[test]
fn test_request_round_trip_list_runs() {
    let req = Request {
        id: 3,
        op: Operation::ListRuns {
            worker_id: Some(12),
            status: Some(RunStatus::RetryScheduled),
            all: true,
        },
    };
    let bytes = encode_request(&req);
    let back = decode_request(&bytes).unwrap();
    assert_eq!(back.id, 3);
    match back.op {
        Operation::ListRuns { worker_id, status, all } => {
            assert_eq!(worker_id, Some(12));
            assert!(matches!(status, Some(RunStatus::RetryScheduled)));
            assert!(all);
        }
        _ => panic!("wrong operation decoded"),
    }
}

#[test]
fn test_request_decode_rejects_garbage() {
    assert!(decode_request(&vec![1, 2, 3]).is_none());
    let mut bytes = encode_request(&Request { id: 1, op: Operation::Ping });
    bytes.push(0);
    assert!(decode_request(&bytes).is_none());
}

#[test]
fn test_response_round_trip_run_record() {
    let mut m = WorkerManager::new("/tmp/granary-logs".to_string());
    let cw = granaryd::model::CreateWorker {
        runner_name: None,
        command: "echo".to_string(),
        args: vec!["a".to_string()],
        event_type: "x".to_string(),
        filters: None,
        concurrency: None,
        instance_path: None,
        detached: false,
    };
    m.start_worker(&cw, 1).unwrap();
    let ev = granaryd::model::Event {
        id: 5,
        event_type: "x".to_string(),
        entity_id: "e".to_string(),
        payload: String::new(),
    };
    m.dispatch(&ev, 2);
    let run = m.get_run(1).unwrap();

    let resp = Response::ok(17, Payload::RunRecord(run));
    let bytes = encode_response(&resp);
    let back = decode_response(&bytes).unwrap();
    assert_eq!(back.id, 17);
    match back.result.unwrap() {
        Payload::RunRecord(r) => {
            assert_eq!(r.id, 1);
            assert_eq!(r.command, "echo");
            assert!(matches!(r.status, RunStatus::Pending));
            assert_eq!(r.attempt, 1);
            assert_eq!(r.max_attempts, 3);
        }
        _ => panic!("wrong payload decoded"),
    }
}

#[test]
fn test_response_round_trip_error() {
    let resp = Response::err(8, "Worker 5 not found".to_string());
    let bytes = encode_response(&resp);
    let back = decode_response(&bytes).unwrap();
    assert_eq!(back.id, 8);
    assert_eq!(back.result.unwrap_err(), "Worker 5 not found");
}

#[test]
fn test_framing_round_trip() {
    let payload = encode_request(&Request { id: 2, op: Operation::Shutdown });
    let mut stream = frame_message(&payload);
    let extra = frame_message(&encode_request(&Request { id: 3, op: Operation::Ping }));
    stream.extend_from_slice(&extra);

    let (first, consumed) = take_frame(&stream).unwrap();
    assert_eq!(first, payload);
    let rest: Vec<u8> = stream[consumed..].to_vec();
    let (second, consumed2) = take_frame(&rest).unwrap();
    assert_eq!(consumed2, rest.len());
    assert!(decode_request(&second).is_some());

    // An incomplete frame is not taken.
    let partial: Vec<u8> = stream[..consumed - 1].to_vec();
    assert!(take_frame(&partial).is_none());
}

#[test]
fn test_dispatch_ping_and_shutdown() {
    let mut m = WorkerManager::new("/tmp/granary-logs".to_string());
    let out = dispatch_request(&mut m, Request { id: 4, op: Operation::Ping }, 10, "0.1.0");
    match out {
        DispatchOutcome::Done { response, shutdown, actions } => {
            assert!(!shutdown);
            assert!(actions.is_empty());
            assert_eq!(response.id, 4);
            match response.result.unwrap() {
                Payload::Pong { version } => assert_eq!(version, "0.1.0"),
                _ => panic!("expected a pong"),
            }
        }
        _ => panic!("expected a finished outcome"),
    }

    let out = dispatch_request(&mut m, Request { id: 5, op: Operation::Shutdown }, 10, "0.1.0");
    match out {
        DispatchOutcome::Done { response, shutdown, .. } => {
            assert!(shutdown);
            assert!(matches!(response.result, Ok(Payload::Ack)));
        }
        _ => panic!("expected a finished outcome"),
    }
}

#[test]
fn test_dispatch_not_found_messages() {
    let mut m = WorkerManager::new("/tmp/granary-logs".to_string());
    let out = dispatch_request(
        &mut m,
        Request { id: 6, op: Operation::GetWorker { worker_id: 42 } },
        10,
        "0.1.0",
    );
    match out {
        DispatchOutcome::Done { response, .. } => {
            assert_eq!(response.result.unwrap_err(), "Worker 42 not found");
        }
        _ => panic!("expected a finished outcome"),
    }
    let out = dispatch_request(
        &mut m,
        Request { id: 7, op: Operation::GetRun { run_id: 9 } },
        10,
        "0.1.0",
    );
    match out {
        DispatchOutcome::Done { response, .. } => {
            assert_eq!(response.result.unwrap_err(), "Run 9 not found");
        }
        _ => panic!("expected a finished outcome"),
    }
}

#[test]
fn test_dispatch_get_logs_reads_page() {
    let mut m = WorkerManager::new("/tmp/granary-logs".to_string());
    let out = dispatch_request(
        &mut m,
        Request {
            id: 8,
            op: Operation::GetLogs(GetLogsRequest {
                target_id: 3,
                target_type: LogTarget::Worker,
                since_line: 5,
                limit: 10,
            }),
        },
        10,
        "0.1.0",
    );
    match out {
        DispatchOutcome::ReadPage { request_id, path, since_line, limit } => {
            assert_eq!(request_id, 8);
            assert_eq!(path, "/tmp/granary-logs/worker-3/worker.log");
            assert_eq!(since_line, 5);
            assert_eq!(limit, 10);
        }
        _ => panic!("expected a page-read instruction"),
    }
}

#[test]
fn test_log_round_trip_paging() {
    let lines: Vec<String> = (0..5).map(|i| format!("line {i}")).collect();
    let (page, next) = slice_log_lines(&lines, 0, 5);
    assert_eq!(page, lines);
    assert_eq!(next, 5);
    let (empty, next2) = slice_log_lines(&lines, 5, 5);
    assert!(empty.is_empty());
    assert_eq!(next2, 5);
    let (mid, next3) = slice_log_lines(&lines, 1, 2);
    assert_eq!(mid, vec!["line 1".to_string(), "line 2".to_string()]);
    assert_eq!(next3, 3);
}

#[test]
fn test_log_tail_and_responses() {
    let lines = vec!["a".to_string(), "b".to_string(), "c".to_string()];
    assert_eq!(tail_lines(&lines, 2), "b\nc");
    assert_eq!(tail_lines(&lines, 10), "a\nb\nc");
    assert_eq!(tail_lines(&Vec::new(), 4), "");

    let resp = log_tail_response(11, &lines, 2);
    match resp.result.unwrap() {
        Payload::LogText { content, note } => {
            assert_eq!(content, "b\nc");
            assert!(note.is_none());
        }
        _ => panic!("expected log text"),
    }

    let resp = log_page_response(12, &lines, 1, 1);
    match resp.result.unwrap() {
        Payload::LogPage { lines: page, next_line } => {
            assert_eq!(page, vec!["b".to_string()]);
            assert_eq!(next_line, 2);
        }
        _ => panic!("expected a log page"),
    }
}

#[test]
fn test_version_ordering() {
    assert!(is_newer_version("1.2.3", "1.2.4"));
    assert!(!is_newer_version("1.2.4", "1.2.3"));
    assert!(!is_newer_version("1.2.3", "1.2.3"));
    assert!(is_newer_version("1.0.0-alpha", "1.0.0"));
    assert!(is_newer_version("1.0.0-alpha", "1.0.0-alpha.1"));
    assert!(is_newer_version("1.0.0-alpha.1", "1.0.0-alpha.beta"));
    assert!(is_newer_version("1.0.0-beta.2", "1.0.0-beta.11"));
    assert!(is_newer_version("1.0.0-rc.1", "1.0.0"));
    // Not valid semantic versions: bytewise comparison decides.
    assert!(is_newer_version("abc", "abd"));
    assert!(!is_newer_version("abd", "abc"));
}

#[test]
fn test_update_cache_checks() {
    let cache = UpdateCache { last_check_ms: 1000, latest_version: "2.0.0".to_string() };
    assert_eq!(
        check_for_update_cached("1.0.0", Some(&cache), 2000),
        Some("2.0.0".to_string())
    );
    // Stale: a day has passed.
    assert_eq!(check_for_update_cached("1.0.0", Some(&cache), 90000000), None);
    // Not newer.
    assert_eq!(check_for_update_cached("2.0.0", Some(&cache), 2000), None);
    assert_eq!(check_for_update_cached("1.0.0", None, 2000), None);

    let notice = version_with_update_notice("1.0.0", Some(&cache), 2000);
    assert_eq!(
        notice,
        "1.0.0\nUpdate available: 2.0.0 (run `granary update` to install)"
    );
    assert_eq!(version_with_update_notice("2.0.0", Some(&cache), 2000), "2.0.0");
}

#[test]
fn test_normalize_tag() {
    assert_eq!(normalize_tag("v1.2.3"), "1.2.3");
    assert_eq!(normalize_tag("1.2.3"), "1.2.3");
    assert_eq!(normalize_tag(""), "");
}

#[test]
fn test_format_summary_table() {
    let summary = SummaryOutput {
        session: None,
        state: WorkState {
            total_tasks: 5,
            by_status: StatusCounts { todo: 1, in_progress: 2, done: 1, blocked: 1 },
            by_priority: PriorityCounts { p0: 0, p1: 2, p2: 1, p3: 1, p4: 1 },
        },
        focus_task: None,
        blockers: vec![TaskSummary {
            id: "t-9".to_string(),
            title: "Fix the flake".to_string(),
            status: "blocked".to_string(),
            priority: "P1".to_string(),
            description: None,
            blocked_reason: Some("waiting on review".to_string()),
        }],
        next_actions: Vec::new(),
        recent_decisions: Vec::new(),
    };
    let text = format_summary_table(&summary);
    let expected = "=== Summary ===\n\n\
        State of Work:\n  Total tasks: 5\n  By status: 1 todo, 2 in progress, 1 done, 1 blocked\n\
        \x20 By priority: 0 P0, 2 P1, 1 P2, 1 P3, 1 P4\n\n\
        Blockers (1):\n  - Fix the flake (t-9): waiting on review\n\n";
    assert_eq!(text, expected);
}
