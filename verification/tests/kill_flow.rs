use entrypoint::config::{BackoffType, RetryConfig};
use entrypoint::kill::{KillEvent, KillOp, KillOutcome, KillSignal, KillState};
use entrypoint::pid::PidFile;

/// Drives the kill machine against a scripted list of observations,
/// recording every operation it asks for — a mock environment.
fn run_kill(cfg: &RetryConfig, events: &[KillEvent]) -> (KillOutcome, Vec<KillOp>) {
    let mut st = KillState::start();
    let mut ops: Vec<KillOp> = Vec::new();
    let mut i = 0;
    loop {
        match st.outcome() {
            Some(out) => return (out, ops),
            None => {
                ops.push(st.op(cfg).unwrap());
                st = st.step(events[i], cfg);
                i += 1;
            }
        }
    }
}

fn sends(ops: &[KillOp]) -> Vec<(i32, KillSignal)> {
    let mut out = Vec::new();
    for op in ops {
        if let KillOp::Send { pid, signal, .. } = op {
            out.push((*pid, *signal));
        }
    }
    out
}

fn cfg(max: u32) -> RetryConfig {
    RetryConfig {
        max_attempts: max,
        backoff_type: BackoffType::Exponential,
        backoff_base_ms: 100,
    }
}

#[test]
fn no_pid_file_succeeds_without_any_signal() {
    let c = cfg(5);
    let (out, ops) = run_kill(&c, &[KillEvent::PidFile(PidFile::Missing)]);
    assert_eq!(out, KillOutcome::Gone { cleanup: false });
    assert_eq!(sends(&ops).len(), 0);
}

#[test]
fn dead_recorded_pid_cleans_up_both_files_without_any_signal() {
    let c = cfg(5);
    let (out, ops) = run_kill(
        &c,
        &[
            KillEvent::PidFile(PidFile::Recorded(321)),
            KillEvent::Alive(false),
        ],
    );
    assert_eq!(out, KillOutcome::Gone { cleanup: true });
    assert_eq!(sends(&ops).len(), 0);
}

#[test]
fn invalid_pid_file_is_treated_as_stale() {
    let c = cfg(5);
    let (out, ops) = run_kill(&c, &[KillEvent::PidFile(PidFile::Invalid)]);
    assert_eq!(out, KillOutcome::Gone { cleanup: true });
    assert_eq!(sends(&ops).len(), 0);
}

#[test]
fn process_dying_after_first_sigterm_never_sees_sigkill() {
    let c = cfg(5);
    let (out, ops) = run_kill(
        &c,
        &[
            KillEvent::PidFile(PidFile::Recorded(77)),
            KillEvent::Alive(true),
            KillEvent::Sent(true),
            KillEvent::Alive(false),
        ],
    );
    assert_eq!(out, KillOutcome::Gone { cleanup: false });
    assert_eq!(sends(&ops), vec![(77, KillSignal::Term)]);
}

#[test]
fn vanished_process_during_send_counts_as_killed() {
    let c = cfg(5);
    let (out, _) = run_kill(
        &c,
        &[
            KillEvent::PidFile(PidFile::Recorded(77)),
            KillEvent::Alive(true),
            KillEvent::Sent(false),
        ],
    );
    assert_eq!(out, KillOutcome::Gone { cleanup: false });
}

#[test]
fn stubborn_process_exhausts_both_stages_and_failure_names_the_pid() {
    let c = cfg(2);
    let mut events = vec![
        KillEvent::PidFile(PidFile::Recorded(4242)),
        KillEvent::Alive(true),
    ];
    for _ in 0..4 {
        events.push(KillEvent::Sent(true));
        events.push(KillEvent::Alive(true));
    }
    let (out, ops) = run_kill(&c, &events);
    assert_eq!(out, KillOutcome::StillAlive { pid: 4242 });
    let s = sends(&ops);
    assert_eq!(
        s,
        vec![
            (4242, KillSignal::Term),
            (4242, KillSignal::Term),
            (4242, KillSignal::Kill),
            (4242, KillSignal::Kill),
        ]
    );
}

#[test]
fn forced_kill_success_asks_for_cleanup() {
    let c = cfg(1);
    let (out, ops) = run_kill(
        &c,
        &[
            KillEvent::PidFile(PidFile::Recorded(9)),
            KillEvent::Alive(true),
            KillEvent::Sent(true),
            KillEvent::Alive(true),
            KillEvent::Sent(true),
            KillEvent::Alive(false),
        ],
    );
    assert_eq!(out, KillOutcome::Gone { cleanup: true });
    assert_eq!(sends(&ops), vec![(9, KillSignal::Term), (9, KillSignal::Kill)]);
}

#[test]
fn backoff_delays_follow_the_policy() {
    let c = cfg(3);
    // Second SIGTERM attempt sleeps the backoff of the first.
    let st = KillState::Sending {
        pid: 1,
        signal: KillSignal::Term,
        attempt: 1,
    };
    assert_eq!(
        st.op(&c).unwrap(),
        KillOp::Send { pid: 1, signal: KillSignal::Term, delay_ms: 100 }
    );
    let st2 = KillState::Sending {
        pid: 1,
        signal: KillSignal::Term,
        attempt: 2,
    };
    assert_eq!(
        st2.op(&c).unwrap(),
        KillOp::Send { pid: 1, signal: KillSignal::Term, delay_ms: 200 }
    );
}
