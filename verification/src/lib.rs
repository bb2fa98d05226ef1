//! Core of a worker-supervision daemon.
//!
//! A *worker* is a standing rule that binds an event type (and an optional
//! entity filter) to a command; a *run* is one execution attempt of that
//! command, triggered by a matching event.  This crate holds the daemon's
//! orchestration engine: the run lifecycle state machine with its retry and
//! backoff policy, the worker manager with per-worker concurrency admission,
//! the framed request/response protocol spoken over the daemon's local
//! socket, log slicing, and the daemon's own phase machine.  Process
//! spawning, sockets, files and the persistent store are driven by the
//! surrounding binary, which feeds their outcomes back in as plain values.

pub mod config;
pub mod daemonloop;
pub mod dispatch;
pub mod errors;
pub mod model;
pub mod numfmt;
pub mod laws;
pub mod logs;
pub mod manager;
pub mod protocol;
pub mod retry;
pub mod runfsm;
pub mod search;
pub mod summary;
pub mod update;
pub mod watch;
pub mod wire;
