//! The daemon's phase machine and the supervisor's message helpers.

use granaryd::daemonloop::{daemon_step, DaemonDuty, DaemonEvent, DaemonPhase};
use granaryd::runfsm::{exit_outcome, spawn_message_string};
use granaryd::search::{assemble_search_results, SearchHit, SearchKind};

#[test]
fn test_daemon_phase_progression() {
    let (p, duty) = daemon_step(DaemonPhase::Starting, DaemonEvent::StartupComplete);
    assert!(matches!(p, DaemonPhase::Serving));
    assert!(matches!(duty, DaemonDuty::Serve));

    let (p, duty) = daemon_step(p, DaemonEvent::ShutdownRequested);
    assert!(matches!(p, DaemonPhase::Draining));
    assert!(matches!(duty, DaemonDuty::Drain));

    let (p, duty) = daemon_step(p, DaemonEvent::DrainComplete);
    assert!(matches!(p, DaemonPhase::Exited));
    assert!(matches!(duty, DaemonDuty::ExitCleanly));
}

#[test]
fn test_daemon_startup_failures() {
    let (p, duty) = daemon_step(DaemonPhase::Starting, DaemonEvent::StartupFailed);
    assert!(matches!(p, DaemonPhase::Exited));
    assert!(matches!(duty, DaemonDuty::ExitWithError));

    // A failed worker restoration still leads to serving.
    let (p, duty) = daemon_step(DaemonPhase::Starting, DaemonEvent::RestoreFailed);
    assert!(matches!(p, DaemonPhase::Serving));
    assert!(matches!(duty, DaemonDuty::Serve));
}

#[test]
fn test_daemon_ignores_inapplicable_events() {
    let (p, duty) = daemon_step(DaemonPhase::Serving, DaemonEvent::StartupComplete);
    assert!(matches!(p, DaemonPhase::Serving));
    assert!(matches!(duty, DaemonDuty::Ignore));

    let (p, _) = daemon_step(DaemonPhase::Exited, DaemonEvent::TerminationSignal);
    assert!(matches!(p, DaemonPhase::Exited));
}

#[test]
fn test_exit_outcome_messages() {
    let (code, err) = exit_outcome(0);
    assert_eq!(code, 0);
    assert!(err.is_none());

    let (code, err) = exit_outcome(1);
    assert_eq!(code, 1);
    assert_eq!(err.as_deref(), Some("Process exited with code 1"));

    let (_, err) = exit_outcome(-1);
    assert_eq!(err.as_deref(), Some("Process exited with code -1"));
}

#[test]
fn test_spawn_message() {
    let msg = spawn_message_string("nonexistent_command_12345", "No such file or directory");
    assert_eq!(
        msg,
        "Failed to spawn runner 'nonexistent_command_12345': No such file or directory"
    );
}

#[test]
fn test_search_assembly_order() {
    let hit = |id: &str, name: &str| SearchHit {
        id: id.to_string(),
        name: name.to_string(),
        description: None,
        status: "active".to_string(),
    };
    let results = assemble_search_results(
        vec![hit("i-1", "North star")],
        vec![hit("p-1", "Port"), hit("p-2", "Harden")],
        vec![hit("t-1", "Fix")],
    );
    assert_eq!(results.len(), 4);
    assert!(matches!(results[0].kind, SearchKind::Initiative));
    assert!(matches!(results[1].kind, SearchKind::Project));
    assert_eq!(results[1].hit.id, "p-1");
    assert_eq!(results[2].hit.id, "p-2");
    assert!(matches!(results[3].kind, SearchKind::Task));
}
