//! Spawning a fresh server and waiting for its socket, as a state
//! machine.
//!
//! The launch command is expected to daemonize and exit quickly; the
//! embedding program runs it, waits for it, and then polls for the
//! socket file at a fixed interval until it appears or the polling
//! ceiling is reached.

use vstd::prelude::*;

verus! {

/// How many times the socket file is polled after the launcher exits.
pub const SOCKET_POLL_ATTEMPTS: u32 = 10;

/// Milliseconds between two socket polls.
pub const SOCKET_POLL_INTERVAL_MS: u64 = 100;

/// The operation the embedding program must perform next.
#[derive(Clone, Copy, PartialEq, Eq, Structural, Debug)]
pub enum CreateOp {
    /// Spawn the configured launch command, wait for it to exit, and
    /// report whether both steps went through.
    RunLauncher,
    /// Sleep `delay_ms`, then report whether the socket file exists.
    CheckSocket { delay_ms: u64 },
}

/// The outcome of the operation last asked for.
#[derive(Clone, Copy, PartialEq, Eq, Structural, Debug)]
pub enum CreateEvent {
    /// Answer to [`CreateOp::RunLauncher`].
    Launched(bool),
    /// Answer to [`CreateOp::CheckSocket`].
    SocketPresent(bool),
}

/// Why a create run failed.
#[derive(Clone, Copy, PartialEq, Eq, Structural, Debug)]
pub enum CreateError {
    /// The launch command could not be spawned or waited for.
    LaunchFailed,
    /// The socket file never appeared within the polling ceiling.
    SocketNeverAppeared,
}

/// One state of the create machine.
#[derive(Clone, Copy, PartialEq, Eq, Structural, Debug)]
pub enum CreateState {
    /// About to run the launch command.
    Launching,
    /// About to poll the socket file for the given zero-based attempt.
    Polling { attempt: u32 },
    /// Terminal: the socket file exists; the server is taken as ready.
    Ready,
    /// Terminal: no server came up.
    Failed(CreateError),
}

/// The transition function of the create machine.  An event that does
/// not answer the pending operation leaves the state unchanged.
pub open spec fn spec_create_step(s: CreateState, ev: CreateEvent) -> CreateState {
    match (s, ev) {
        (CreateState::Launching, CreateEvent::Launched(false)) => CreateState::Failed(
            CreateError::LaunchFailed,
        ),
        (CreateState::Launching, CreateEvent::Launched(true)) => CreateState::Polling {
            attempt: 0,
        },
        (CreateState::Polling { attempt }, CreateEvent::SocketPresent(true)) => CreateState::Ready,
        (CreateState::Polling { attempt }, CreateEvent::SocketPresent(false)) => {
            if attempt < SOCKET_POLL_ATTEMPTS && attempt + 1 < SOCKET_POLL_ATTEMPTS {
                CreateState::Polling { attempt: (attempt + 1) as u32 }
            } else {
                CreateState::Failed(CreateError::SocketNeverAppeared)
            }
        },
        (_, _) => s,
    }
}

/// The operation pending in state `s`, `None` in a terminal state.
pub open spec fn spec_create_op(s: CreateState) -> Option<CreateOp> {
    match s {
        CreateState::Launching => Some(CreateOp::RunLauncher),
        CreateState::Polling { attempt } => Some(
            CreateOp::CheckSocket {
                delay_ms: if attempt == 0 {
                    0
                } else {
                    SOCKET_POLL_INTERVAL_MS
                },
            },
        ),
        CreateState::Ready => None,
        CreateState::Failed(_) => None,
    }
}

/// Whether `s` is terminal.
pub open spec fn spec_create_done(s: CreateState) -> bool {
    s is Ready || s is Failed
}

impl CreateState {
    /// The state a create run starts in.
    pub fn start() -> (s: CreateState)
        ensures
            s == CreateState::Launching,
    {
        CreateState::Launching
    }

    /// The operation to perform next, or `None` once the run is over.
    pub fn op(&self) -> (o: Option<CreateOp>)
        ensures
            o == spec_create_op(*self),
    {
        match *self {
            CreateState::Launching => Some(CreateOp::RunLauncher),
            CreateState::Polling { attempt } => Some(
                CreateOp::CheckSocket {
                    delay_ms: if attempt == 0 {
                        0
                    } else {
                        SOCKET_POLL_INTERVAL_MS
                    },
                },
            ),
            CreateState::Ready => None,
            CreateState::Failed(_) => None,
        }
    }

    /// Feeds the outcome of the pending operation into the machine.
    pub fn step(self, ev: CreateEvent) -> (s: CreateState)
        ensures
            s == spec_create_step(self, ev),
    {
        match (self, ev) {
            (CreateState::Launching, CreateEvent::Launched(false)) => CreateState::Failed(
                CreateError::LaunchFailed,
            ),
            (CreateState::Launching, CreateEvent::Launched(true)) => CreateState::Polling {
                attempt: 0,
            },
            (CreateState::Polling { attempt }, CreateEvent::SocketPresent(true)) =>
            CreateState::Ready,
            (CreateState::Polling { attempt }, CreateEvent::SocketPresent(false)) => {
                if attempt < SOCKET_POLL_ATTEMPTS && attempt + 1 < SOCKET_POLL_ATTEMPTS {
                    CreateState::Polling { attempt: attempt + 1 }
                } else {
                    CreateState::Failed(CreateError::SocketNeverAppeared)
                }
            },
            (s, _) => s,
        }
    }

    /// The outcome, once the machine is in a terminal state.
    pub fn outcome(&self) -> (r: Option<Result<(), CreateError>>)
        ensures
            *self is Ready ==> r == Some(Result::<(), CreateError>::Ok(())),
            *self is Failed ==> r == Some(Result::<(), CreateError>::Err(self->Failed_0)),
            !spec_create_done(*self) ==> r is None,
    {
        match *self {
            CreateState::Ready => Some(Ok(())),
            CreateState::Failed(e) => Some(Err(e)),
            _ => None,
        }
    }
}

/// Runs the create machine's polling phase for up to `fuel` steps while
/// the socket file never appears.
pub open spec fn run_socket_absent(s: CreateState, fuel: nat) -> CreateState
    decreases fuel,
{
    if fuel == 0 || spec_create_done(s) {
        s
    } else {
        run_socket_absent(spec_create_step(s, CreateEvent::SocketPresent(false)), (fuel - 1) as nat)
    }
}

proof fn lemma_socket_absent_from(attempt: u32, fuel: nat)
    requires
        attempt < SOCKET_POLL_ATTEMPTS,
        fuel >= SOCKET_POLL_ATTEMPTS - attempt,
    ensures
        run_socket_absent((CreateState::Polling { attempt }), fuel) == CreateState::Failed(
            CreateError::SocketNeverAppeared,
        ),
    decreases SOCKET_POLL_ATTEMPTS - attempt,
{
    if attempt + 1 < SOCKET_POLL_ATTEMPTS {
        lemma_socket_absent_from((attempt + 1) as u32, (fuel - 1) as nat);
    } else {
        assert(run_socket_absent(
            CreateState::Failed(CreateError::SocketNeverAppeared),
            (fuel - 1) as nat,
        ) == CreateState::Failed(CreateError::SocketNeverAppeared));
    }
}

/// Law: if the socket file does not exist at any of the configured
/// polls, the create run fails with the "socket never appeared"
/// condition; and it succeeds at once when a poll observes the file.
pub proof fn lemma_create_socket_window(fuel: nat, attempt: u32)
    requires
        fuel >= SOCKET_POLL_ATTEMPTS,
    ensures
        run_socket_absent((CreateState::Polling { attempt: 0 }), fuel) == CreateState::Failed(
            CreateError::SocketNeverAppeared,
        ),
        spec_create_step((CreateState::Polling { attempt }), CreateEvent::SocketPresent(true))
            == CreateState::Ready,
{
    lemma_socket_absent_from(0, fuel);
}

} // verus!
