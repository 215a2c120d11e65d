use entrypoint::create::{CreateError, CreateEvent, CreateOp, CreateState};

fn run_create(events: &[CreateEvent]) -> (Result<(), CreateError>, Vec<CreateOp>) {
    let mut st = CreateState::start();
    let mut ops: Vec<CreateOp> = Vec::new();
    let mut i = 0;
    loop {
        match st.outcome() {
            Some(out) => return (out, ops),
            None => {
                ops.push(st.op().unwrap());
                st = st.step(events[i]);
                i += 1;
            }
        }
    }
}

#[test]
fn socket_never_appearing_fails_after_ten_polls() {
    let mut events = vec![CreateEvent::Launched(true)];
    for _ in 0..10 {
        events.push(CreateEvent::SocketPresent(false));
    }
    let (out, ops) = run_create(&events);
    assert_eq!(out, Err(CreateError::SocketNeverAppeared));
    let polls: Vec<&CreateOp> = ops
        .iter()
        .filter(|o| matches!(o, CreateOp::CheckSocket { .. }))
        .collect();
    assert_eq!(polls.len(), 10);
    // First poll is immediate, the rest wait the fixed interval.
    assert_eq!(*polls[0], CreateOp::CheckSocket { delay_ms: 0 });
    for p in &polls[1..] {
        assert_eq!(**p, CreateOp::CheckSocket { delay_ms: 100 });
    }
}

#[test]
fn socket_appearing_within_the_window_succeeds_immediately() {
    let (out, _) = run_create(&[
        CreateEvent::Launched(true),
        CreateEvent::SocketPresent(false),
        CreateEvent::SocketPresent(false),
        CreateEvent::SocketPresent(true),
    ]);
    assert_eq!(out, Ok(()));
}

#[test]
fn launcher_failure_is_fatal() {
    let (out, _) = run_create(&[CreateEvent::Launched(false)]);
    assert_eq!(out, Err(CreateError::LaunchFailed));
}
