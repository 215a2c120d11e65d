use entrypoint::config::{BackoffType, Config, RetryConfig};
use entrypoint::connect::{ConnectError, ConnectEvent, ConnectOp, ConnectState};
use entrypoint::pid::PidFile;

/// Drives the connect machine against scripted observations,
/// recording every operation it asks for.
fn run_connect(cfg: &Config, events: &[ConnectEvent]) -> (Result<(), ConnectError>, Vec<ConnectOp>) {
    let mut st = ConnectState::start();
    let mut ops: Vec<ConnectOp> = Vec::new();
    let mut i = 0;
    loop {
        match st.outcome() {
            Some(out) => return (out, ops),
            None => {
                ops.push(st.op(cfg).unwrap());
                st = st.step(events[i], cfg);
                i += 1;
            }
        }
    }
}

fn creates(ops: &[ConnectOp]) -> Vec<bool> {
    let mut out = Vec::new();
    for op in ops {
        if let ConnectOp::RunCreate { cleanup_first } = op {
            out.push(*cleanup_first);
        }
    }
    out
}

fn cfg(connect_attempts: u32) -> Config {
    Config::new(
        None,
        Some(RetryConfig {
            max_attempts: connect_attempts,
            backoff_type: BackoffType::Constant,
            backoff_base_ms: 10,
        }),
    )
}

#[test]
fn healthy_server_connects_on_the_first_attempt_without_create() {
    let c = cfg(5);
    let (out, ops) = run_connect(&c, &[ConnectEvent::Connected(true)]);
    assert_eq!(out, Ok(()));
    assert_eq!(ops, vec![ConnectOp::TryConnect { delay_ms: 0 }]);
    assert_eq!(creates(&ops).len(), 0);
}

#[test]
fn dead_recorded_pid_triggers_exactly_one_create() {
    let c = cfg(5);
    let (out, ops) = run_connect(
        &c,
        &[
            ConnectEvent::Connected(false),
            ConnectEvent::PidFile(PidFile::Recorded(9)),
            ConnectEvent::Alive(false),
            ConnectEvent::CreateDone(true),
            ConnectEvent::Connected(true),
        ],
    );
    assert_eq!(out, Ok(()));
    assert_eq!(creates(&ops), vec![true]);
}

#[test]
fn unresponsive_server_exhausts_retries_then_kill_then_create_then_final_retry_succeeds() {
    let c = cfg(2);
    let (out, ops) = run_connect(
        &c,
        &[
            ConnectEvent::Connected(false),
            ConnectEvent::PidFile(PidFile::Recorded(9)),
            ConnectEvent::Alive(true),
            ConnectEvent::Connected(false),
            ConnectEvent::Connected(false),
            ConnectEvent::KillDone(true),
            ConnectEvent::CreateDone(true),
            ConnectEvent::Connected(true),
        ],
    );
    assert_eq!(out, Ok(()));
    // Two bounded retries against the live server, then the kill, then
    // exactly one create, then the final retry.
    let kills: Vec<&ConnectOp> = ops
        .iter()
        .filter(|o| matches!(o, ConnectOp::RunKill { .. }))
        .collect();
    assert_eq!(kills.len(), 1);
    assert_eq!(creates(&ops), vec![false]);
}

#[test]
fn unresponsive_server_final_retry_exhaustion_is_fatal() {
    let c = cfg(2);
    let (out, _) = run_connect(
        &c,
        &[
            ConnectEvent::Connected(false),
            ConnectEvent::PidFile(PidFile::Recorded(9)),
            ConnectEvent::Alive(true),
            ConnectEvent::Connected(false),
            ConnectEvent::Connected(false),
            ConnectEvent::KillDone(true),
            ConnectEvent::CreateDone(true),
            ConnectEvent::Connected(false),
            ConnectEvent::Connected(false),
        ],
    );
    assert_eq!(out, Err(ConnectError::Unreachable));
}

#[test]
fn failed_kill_of_unresponsive_server_is_fatal_and_names_the_pid() {
    let c = cfg(1);
    let (out, _) = run_connect(
        &c,
        &[
            ConnectEvent::Connected(false),
            ConnectEvent::PidFile(PidFile::Recorded(321)),
            ConnectEvent::Alive(true),
            ConnectEvent::Connected(false),
            ConnectEvent::KillDone(false),
        ],
    );
    assert_eq!(out, Err(ConnectError::KillFailed { pid: 321 }));
}

#[test]
fn empty_work_directory_creates_once_and_connects() {
    let c = cfg(5);
    let (out, ops) = run_connect(
        &c,
        &[
            ConnectEvent::Connected(false),
            ConnectEvent::PidFile(PidFile::Missing),
            ConnectEvent::CreateDone(true),
            ConnectEvent::Connected(true),
        ],
    );
    assert_eq!(out, Ok(()));
    assert_eq!(creates(&ops), vec![true]);
}

#[test]
fn failed_create_is_fatal() {
    let c = cfg(5);
    let (out, _) = run_connect(
        &c,
        &[
            ConnectEvent::Connected(false),
            ConnectEvent::PidFile(PidFile::Missing),
            ConnectEvent::CreateDone(false),
        ],
    );
    assert_eq!(out, Err(ConnectError::CreateFailed));
}
