//! Worker and run lifecycle scenarios driven through the manager.

use granaryd::manager::{ProcAction, WorkerManager};
use granaryd::model::{CreateWorker, Event, RunStatus, WorkerStatus};

fn spec_for(command: &str, event_type: &str, concurrency: Option<u32>) -> CreateWorker {
    CreateWorker {
        runner_name: None,
        command: command.to_string(),
        args: vec!["hi".to_string()],
        event_type: event_type.to_string(),
        filters: None,
        concurrency,
        instance_path: None,
        detached: false,
    }
}

fn event(id: u64, event_type: &str) -> Event {
    Event {
        id,
        event_type: event_type.to_string(),
        entity_id: "task-1".to_string(),
        payload: String::new(),
    }
}

#[test]
fn test_start_worker_validation() {
    let mut m = WorkerManager::new("/tmp/granary-logs".to_string());
    let bad_cmd = spec_for("", "x", None);
    assert!(m.start_worker(&bad_cmd, 10).is_err());
    let bad_conc = spec_for("echo", "x", Some(0));
    assert!(m.start_worker(&bad_conc, 10).is_err());
    let ok = m.start_worker(&spec_for("echo", "x", Some(2)), 10).unwrap();
    assert_eq!(ok.id, 1);
    assert_eq!(ok.concurrency, 2);
    assert!(matches!(ok.status, WorkerStatus::Running));
}

#[test]
fn test_scenario_echo_run_completes() {
    let mut m = WorkerManager::new("/tmp/granary-logs".to_string());
    let w = m.start_worker(&spec_for("echo", "x", Some(1)), 10).unwrap();

    let acts = m.dispatch(&event(7, "x"), 11);
    assert_eq!(acts.len(), 1);
    let rid = match acts[0] {
        ProcAction::Spawn { run_id } => run_id,
        _ => panic!("expected a spawn action"),
    };

    m.on_spawned(rid, 4242, 12).unwrap();
    let run = m.get_run(rid).unwrap();
    assert!(matches!(run.status, RunStatus::Running));
    assert_eq!(run.pid, Some(4242));
    assert_eq!(run.worker_id, w.id);
    assert_eq!(run.command, "echo");
    assert_eq!(run.args, vec!["hi".to_string()]);

    m.on_process_exit(rid, 0, 13).unwrap();
    let run = m.get_run(rid).unwrap();
    assert!(matches!(run.status, RunStatus::Done));
    assert_eq!(run.exit_code, Some(0));
    assert_eq!(run.pid, None);
    assert_eq!(m.list_runs(None, None, true).len(), 1);
}

#[test]
fn test_scenario_retries_exhaust_after_three_attempts() {
    let mut m = WorkerManager::new("/tmp/granary-logs".to_string());
    m.start_worker(&spec_for("false", "x", Some(1)), 10).unwrap();

    let mut now = 20;
    let acts = m.dispatch(&event(1, "x"), now);
    assert_eq!(acts.len(), 1);
    let mut rid = match acts[0] {
        ProcAction::Spawn { run_id } => run_id,
        _ => panic!("expected a spawn action"),
    };

    for attempt in 1..=3u32 {
        m.on_spawned(rid, 100 + attempt, now).unwrap();
        m.on_process_exit(rid, 1, now).unwrap();
        let failed = m.get_run(rid).unwrap();
        assert!(matches!(failed.status, RunStatus::Error));
        assert_eq!(failed.exit_code, Some(1));
        assert_eq!(
            failed.error_message.as_deref(),
            Some("Process exited with code 1")
        );

        if attempt < 3 {
            // A successor is scheduled; let its backoff elapse and sweep.
            now += 60001;
            let spawns = m.sweep_retries(now);
            assert_eq!(spawns.len(), 1);
            rid = match spawns[0] {
                ProcAction::Spawn { run_id } => run_id,
                _ => panic!("expected a spawn action"),
            };
            let promoted = m.get_run(rid).unwrap();
            assert!(matches!(promoted.status, RunStatus::Pending));
            assert_eq!(promoted.attempt, attempt + 1);
        }
    }

    let all = m.list_runs(None, None, true);
    assert_eq!(all.len(), 3);
    assert!(matches!(all[2].status, RunStatus::Error));
    assert_eq!(all[2].attempt, 3);
    assert_eq!(all[2].max_attempts, 3);
    // No further retry was scheduled.
    assert!(m.sweep_retries(now + 120000).is_empty());
    assert_eq!(m.list_runs(None, None, true).len(), 3);
}

#[test]
fn test_scenario_concurrency_drops_second_event() {
    let mut m = WorkerManager::new("/tmp/granary-logs".to_string());
    m.start_worker(&spec_for("sleep", "x", Some(1)), 10).unwrap();

    let first = m.dispatch(&event(1, "x"), 11);
    assert_eq!(first.len(), 1);
    let rid = match first[0] {
        ProcAction::Spawn { run_id } => run_id,
        _ => panic!("expected a spawn action"),
    };
    m.on_spawned(rid, 900, 12).unwrap();

    // The first run is still executing: the second event is dropped.
    let second = m.dispatch(&event(2, "x"), 13);
    assert!(second.is_empty());
    assert_eq!(m.list_runs(None, None, true).len(), 1);
}

#[test]
fn test_scenario_stop_worker_kills_running_run() {
    let mut m = WorkerManager::new("/tmp/granary-logs".to_string());
    let w = m.start_worker(&spec_for("sleep", "x", Some(1)), 10).unwrap();

    let acts = m.dispatch(&event(1, "x"), 11);
    let rid = match acts[0] {
        ProcAction::Spawn { run_id } => run_id,
        _ => panic!("expected a spawn action"),
    };
    m.on_spawned(rid, 555, 12).unwrap();

    let kills = m.stop_worker(w.id, true, 13).unwrap();
    assert_eq!(kills.len(), 1);
    assert!(matches!(kills[0], ProcAction::Kill { pid: 555, .. }));

    let run = m.get_run(rid).unwrap();
    assert!(matches!(run.status, RunStatus::Stopped));
    assert_eq!(
        run.error_message.as_deref(),
        Some("Run terminated by stop request")
    );
    let worker = m.get_worker(w.id).unwrap();
    assert!(matches!(worker.status, WorkerStatus::Stopped));
}

#[test]
fn test_stop_run_cancels_scheduled_retry() {
    let mut m = WorkerManager::new("/tmp/granary-logs".to_string());
    m.start_worker(&spec_for("false", "x", Some(1)), 10).unwrap();
    let acts = m.dispatch(&event(1, "x"), 11);
    let rid = match acts[0] {
        ProcAction::Spawn { run_id } => run_id,
        _ => panic!("expected a spawn action"),
    };
    m.on_spawned(rid, 77, 12).unwrap();
    m.on_process_exit(rid, 1, 13).unwrap();

    // The successor awaits its retry.
    let runs = m.list_runs(None, None, false);
    assert_eq!(runs.len(), 1);
    let successor = &runs[0];
    assert!(matches!(successor.status, RunStatus::RetryScheduled));
    assert!(successor.next_retry_at.is_some());

    // Stopping it cancels the retry; no process needs killing.
    let act = m.stop_run(successor.id, 14).unwrap();
    assert!(act.is_none());
    let stopped = m.get_run(successor.id).unwrap();
    assert!(matches!(stopped.status, RunStatus::Stopped));
    assert!(stopped.next_retry_at.is_none());

    // The cancelled retry never fires.
    assert!(m.sweep_retries(1000000).is_empty());
}

#[test]
fn test_stop_run_idempotent() {
    let mut m = WorkerManager::new("/tmp/granary-logs".to_string());
    m.start_worker(&spec_for("sleep", "x", Some(1)), 10).unwrap();
    let acts = m.dispatch(&event(1, "x"), 11);
    let rid = match acts[0] {
        ProcAction::Spawn { run_id } => run_id,
        _ => panic!("expected a spawn action"),
    };
    m.on_spawned(rid, 88, 12).unwrap();

    let first = m.stop_run(rid, 13).unwrap();
    assert!(matches!(first, Some(ProcAction::Kill { pid: 88, .. })));
    let after_first = m.get_run(rid).unwrap();

    let second = m.stop_run(rid, 14).unwrap();
    assert!(second.is_none());
    let after_second = m.get_run(rid).unwrap();
    assert!(matches!(after_second.status, RunStatus::Stopped));
    assert_eq!(after_first.updated_at, after_second.updated_at);
}

#[test]
fn test_pause_and_resume_scheduled_retry() {
    let mut m = WorkerManager::new("/tmp/granary-logs".to_string());
    m.start_worker(&spec_for("false", "x", Some(1)), 10).unwrap();
    let acts = m.dispatch(&event(1, "x"), 11);
    let rid = match acts[0] {
        ProcAction::Spawn { run_id } => run_id,
        _ => panic!("expected a spawn action"),
    };
    m.on_spawned(rid, 77, 12).unwrap();
    // Pausing a running run is invalid.
    assert!(m.pause_run(rid, 12).is_err());
    m.on_process_exit(rid, 1, 13).unwrap();

    let successor_id = m.list_runs(None, None, false)[0].id;
    m.pause_run(successor_id, 14).unwrap();
    let paused = m.get_run(successor_id).unwrap();
    assert!(matches!(paused.status, RunStatus::Paused));
    assert!(paused.next_retry_at.is_some());

    // A paused retry is inert: the sweep skips it.
    assert!(m.sweep_retries(1000000).is_empty());

    m.resume_run(successor_id, 15).unwrap();
    let spawns = m.sweep_retries(1000000);
    assert_eq!(spawns.len(), 1);
}

#[test]
fn test_restore_marks_orphans_and_keeps_worker_running() {
    let mut m = WorkerManager::new("/tmp/granary-logs".to_string());
    let w = m.start_worker(&spec_for("sleep", "x", Some(2)), 10).unwrap();
    let acts = m.dispatch(&event(1, "x"), 11);
    let rid = match acts[0] {
        ProcAction::Spawn { run_id } => run_id,
        _ => panic!("expected a spawn action"),
    };
    m.on_spawned(rid, 31337, 12).unwrap();

    // After a restart no process with that pid is alive.
    m.restore_workers(&vec![1, 2, 3], 20);

    let run = m.get_run(rid).unwrap();
    assert!(matches!(run.status, RunStatus::Error));
    assert_eq!(run.error_message.as_deref(), Some("orphaned by daemon restart"));
    assert_eq!(run.pid, None);
    let worker = m.get_worker(w.id).unwrap();
    assert!(matches!(worker.status, WorkerStatus::Running));
}

#[test]
fn test_restore_keeps_live_runs() {
    let mut m = WorkerManager::new("/tmp/granary-logs".to_string());
    m.start_worker(&spec_for("sleep", "x", Some(1)), 10).unwrap();
    let acts = m.dispatch(&event(1, "x"), 11);
    let rid = match acts[0] {
        ProcAction::Spawn { run_id } => run_id,
        _ => panic!("expected a spawn action"),
    };
    m.on_spawned(rid, 31337, 12).unwrap();

    m.restore_workers(&vec![31337], 20);
    let run = m.get_run(rid).unwrap();
    assert!(matches!(run.status, RunStatus::Running));
}

#[test]
fn test_shutdown_all_spares_detached_workers() {
    let mut m = WorkerManager::new("/tmp/granary-logs".to_string());
    let mut detached = spec_for("sleep", "x", Some(1));
    detached.detached = true;
    let wd = m.start_worker(&detached, 10).unwrap();
    let wa = m.start_worker(&spec_for("sleep", "y", Some(1)), 10).unwrap();

    let acts = m.dispatch(&event(1, "y"), 11);
    let rid = match acts[0] {
        ProcAction::Spawn { run_id } => run_id,
        _ => panic!("expected a spawn action"),
    };
    m.on_spawned(rid, 777, 12).unwrap();

    let kills = m.shutdown_all(13);
    assert_eq!(kills.len(), 1);
    assert!(matches!(m.get_worker(wd.id).unwrap().status, WorkerStatus::Running));
    assert!(matches!(m.get_worker(wa.id).unwrap().status, WorkerStatus::Stopped));
}

#[test]
fn test_prune_removes_stopped_workers_keeps_history() {
    let mut m = WorkerManager::new("/tmp/granary-logs".to_string());
    let w1 = m.start_worker(&spec_for("echo", "x", Some(1)), 10).unwrap();
    let w2 = m.start_worker(&spec_for("echo", "y", Some(1)), 10).unwrap();

    let acts = m.dispatch(&event(1, "x"), 11);
    let rid = match acts[0] {
        ProcAction::Spawn { run_id } => run_id,
        _ => panic!("expected a spawn action"),
    };
    m.on_spawned(rid, 9, 12).unwrap();
    m.on_process_exit(rid, 0, 13).unwrap();
    m.stop_worker(w1.id, false, 14).unwrap();

    let removed = m.prune_workers(15);
    assert_eq!(removed, 1);
    assert!(m.get_worker(w1.id).is_none());
    assert!(m.get_worker(w2.id).is_some());
    // The pruned worker's run history is kept.
    assert_eq!(m.list_runs(Some(w1.id), None, true).len(), 1);
}

#[test]
fn test_filter_matches_entity_id() {
    let mut m = WorkerManager::new("/tmp/granary-logs".to_string());
    let mut filtered = spec_for("echo", "x", Some(5));
    filtered.filters = Some("task-1".to_string());
    m.start_worker(&filtered, 10).unwrap();

    assert_eq!(m.dispatch(&event(1, "x"), 11).len(), 1);
    let mut other = event(2, "x");
    other.entity_id = "task-2".to_string();
    assert!(m.dispatch(&other, 12).is_empty());
}
