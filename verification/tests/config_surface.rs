//! Configuration, path resolution and small rendering helpers.

use granaryd::config::{
    config_dir, config_path, daemon_dir, daemon_log_path, daemon_pid_path, daemon_socket_path,
    expand_env_vars, get_runner, global_db_path, list_runners, logs_dir, remove_runner,
    set_runner, worker_logs_dir, GlobalConfig, RunnerConfig,
};
use granaryd::logs::log_path;
use granaryd::watch::watch_status_line;

#[test]
fn test_watch_status_line() {
    let line = watch_status_line(2);
    assert_eq!(line, "Watching (every 2s) - Press Ctrl+C to stop");

    let line = watch_status_line(5);
    assert_eq!(line, "Watching (every 5s) - Press Ctrl+C to stop");
}

#[test]
fn test_default_global_config() {
    let config = GlobalConfig::default();
    assert!(config.runners.is_empty());
}

#[test]
fn test_runner_config_new() {
    let runner = RunnerConfig::new("python");
    assert_eq!(runner.command, "python");
    assert!(runner.args.is_empty());
    assert!(runner.concurrency.is_none());
    assert!(runner.on.is_none());
    assert!(runner.env.is_empty());
}

#[test]
fn test_expand_env_vars() {
    let env = vec![("TEST_VAR".to_string(), "hello".to_string())];
    assert_eq!(expand_env_vars("${TEST_VAR} world", &env), "hello world");
    assert_eq!(expand_env_vars("no vars here", &env), "no vars here");
}

#[test]
fn test_runner_expand_env_in_args() {
    let env = vec![("TOKEN".to_string(), "secret123".to_string())];
    let mut runner = RunnerConfig::new("curl");
    runner.args = vec![
        "-H".to_string(),
        "Authorization: Bearer ${TOKEN}".to_string(),
    ];

    let expanded = runner.expand_env_in_args(&env);
    assert_eq!(expanded[1], "Authorization: Bearer secret123");
}

#[test]
fn test_expand_env_unset_and_unclosed() {
    let env: Vec<(String, String)> = Vec::new();
    assert_eq!(expand_env_vars("a ${MISSING} b", &env), "a  b");
    assert_eq!(expand_env_vars("tail ${OPEN", &env), "tail ${OPEN");
}

#[test]
fn test_config_dir() {
    let dir = config_dir();
    assert!(dir.is_ok());
    let dir = dir.unwrap();
    assert!(dir.ends_with(".granary"));
}

#[test]
fn test_config_path() {
    let path = config_path();
    assert!(path.is_ok());
    let path = path.unwrap();
    assert!(path.ends_with("config.toml"));
}

#[test]
fn test_daemon_dir() {
    let dir = daemon_dir();
    assert!(dir.is_ok());
    let dir = dir.unwrap();
    assert!(dir.ends_with("daemon"));
    assert!(std::path::Path::new(&dir)
        .parent()
        .unwrap()
        .ends_with(".granary"));
}

#[test]
fn test_daemon_socket_path() {
    let path = daemon_socket_path();
    assert!(path.is_ok());
    let path = path.unwrap();
    assert!(path.ends_with("granaryd.sock"));
}

#[test]
fn test_daemon_pid_path() {
    let path = daemon_pid_path();
    assert!(path.is_ok());
    let path = path.unwrap();
    assert!(path.ends_with("granaryd.pid"));
}

#[test]
fn test_daemon_log_path() {
    let path = daemon_log_path();
    assert!(path.is_ok());
    let path = path.unwrap();
    assert!(path.ends_with("daemon.log"));
}

#[test]
fn test_global_db_and_logs_dirs() {
    assert!(global_db_path().unwrap().ends_with("workers.db"));
    assert!(logs_dir().unwrap().ends_with("logs"));
    assert!(worker_logs_dir("w1").unwrap().ends_with("logs/w1"));
}

#[test]
fn test_log_path() {
    let path = log_path("run-abc123", "/var/logs");
    assert_eq!(path, "/var/logs/run-abc123.log");
}

#[test]
fn test_runner_registry_round_trip() {
    let mut config = GlobalConfig::default();
    set_runner(&mut config, "fast", RunnerConfig::new("echo"));
    set_runner(&mut config, "slow", RunnerConfig::new("sleep"));
    assert_eq!(list_runners(&config), vec!["fast".to_string(), "slow".to_string()]);

    let got = get_runner(&config, "fast").unwrap();
    assert_eq!(got.command, "echo");
    assert!(get_runner(&config, "missing").is_none());

    set_runner(&mut config, "fast", RunnerConfig::new("printf"));
    assert_eq!(get_runner(&config, "fast").unwrap().command, "printf");
    assert_eq!(config.runners.len(), 2);

    assert!(remove_runner(&mut config, "fast"));
    assert!(!remove_runner(&mut config, "fast"));
    assert_eq!(list_runners(&config), vec!["slow".to_string()]);
}
