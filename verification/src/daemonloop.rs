//! The daemon's own lifecycle, as a phase machine.
//!
//! The process moves `starting` → `serving` → `draining` → `exited`.  The
//! surrounding binary performs the work of each phase (directories, pid
//! file, store, socket, signals) and reports what happened; the decisions
//! — which phase comes next and what must be done on the way — are made
//! and proved here.  A failure while starting is fatal, except a failed
//! worker restoration, which is reported but still leads to serving.

use vstd::prelude::*;

verus! {

/// The daemon process's phase.
#[derive(Clone, Copy, PartialEq, Eq, Structural, Debug)]
pub enum DaemonPhase {
    Starting,
    Serving,
    Draining,
    Exited,
}

/// What the surrounding binary observed.
#[derive(Clone, Copy, PartialEq, Eq, Structural, Debug)]
pub enum DaemonEvent {
    /// Directories, pid file, store and socket are ready.
    StartupComplete,
    /// A fatal startup step failed.
    StartupFailed,
    /// Worker restoration failed; startup is otherwise complete.
    RestoreFailed,
    /// An OS termination signal arrived.
    TerminationSignal,
    /// A client requested shutdown over the protocol.
    ShutdownRequested,
    /// All workers have been shut down.
    DrainComplete,
}

/// What the surrounding binary must do next.
#[derive(Clone, Copy, PartialEq, Eq, Structural, Debug)]
pub enum DaemonDuty {
    /// Keep serving connections.
    Serve,
    /// Stop accepting and shut all workers down.
    Drain,
    /// Remove the pid file and exit successfully.
    ExitCleanly,
    /// Exit with a failure status.
    ExitWithError,
    /// Nothing; the event does not apply to the phase.
    Ignore,
}

/// The phase after an event, and the duty it brings.
///
/// A failed restoration is visible but never prevents serving; only the
/// two shutdown triggers end the serving phase; draining ends in a clean
/// exit.  Events that do not apply to the current phase change nothing.
pub open spec fn spec_daemon_step(phase: DaemonPhase, ev: DaemonEvent) -> (DaemonPhase, DaemonDuty) {
    match (phase, ev) {
        (DaemonPhase::Starting, DaemonEvent::StartupComplete) => (
            DaemonPhase::Serving,
            DaemonDuty::Serve,
        ),
        (DaemonPhase::Starting, DaemonEvent::RestoreFailed) => (
            DaemonPhase::Serving,
            DaemonDuty::Serve,
        ),
        (DaemonPhase::Starting, DaemonEvent::StartupFailed) => (
            DaemonPhase::Exited,
            DaemonDuty::ExitWithError,
        ),
        (DaemonPhase::Serving, DaemonEvent::TerminationSignal) => (
            DaemonPhase::Draining,
            DaemonDuty::Drain,
        ),
        (DaemonPhase::Serving, DaemonEvent::ShutdownRequested) => (
            DaemonPhase::Draining,
            DaemonDuty::Drain,
        ),
        (DaemonPhase::Draining, DaemonEvent::DrainComplete) => (
            DaemonPhase::Exited,
            DaemonDuty::ExitCleanly,
        ),
        _ => (phase, DaemonDuty::Ignore),
    }
}

/// Advance the daemon phase machine by one observed event.
pub fn daemon_step(phase: DaemonPhase, ev: DaemonEvent) -> (r: (DaemonPhase, DaemonDuty))
    ensures
        r == spec_daemon_step(phase, ev),
{
    match (phase, ev) {
        (DaemonPhase::Starting, DaemonEvent::StartupComplete) => (
            DaemonPhase::Serving,
            DaemonDuty::Serve,
        ),
        (DaemonPhase::Starting, DaemonEvent::RestoreFailed) => (
            DaemonPhase::Serving,
            DaemonDuty::Serve,
        ),
        (DaemonPhase::Starting, DaemonEvent::StartupFailed) => (
            DaemonPhase::Exited,
            DaemonDuty::ExitWithError,
        ),
        (DaemonPhase::Serving, DaemonEvent::TerminationSignal) => (
            DaemonPhase::Draining,
            DaemonDuty::Drain,
        ),
        (DaemonPhase::Serving, DaemonEvent::ShutdownRequested) => (
            DaemonPhase::Draining,
            DaemonDuty::Drain,
        ),
        (DaemonPhase::Draining, DaemonEvent::DrainComplete) => (
            DaemonPhase::Exited,
            DaemonDuty::ExitCleanly,
        ),
        _ => (phase, DaemonDuty::Ignore),
    }
}

/// How far along its life a phase is.
pub open spec fn phase_rank(p: DaemonPhase) -> int {
    match p {
        DaemonPhase::Starting => 0,
        DaemonPhase::Serving => 1,
        DaemonPhase::Draining => 2,
        DaemonPhase::Exited => 3,
    }
}

/// The daemon's life only moves forward: no event returns it to an
/// earlier phase, and nothing leaves the exited phase.
pub proof fn lemma_phase_monotone(phase: DaemonPhase, ev: DaemonEvent)
    ensures
        phase_rank(spec_daemon_step(phase, ev).0) >= phase_rank(phase),
        phase is Exited ==> spec_daemon_step(phase, ev).0 is Exited,
{
}

} // verus!
