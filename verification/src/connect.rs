//! Obtaining a live connection to the server, as a state machine.
//!
//! The flow reconciles the on-disk PID/socket state with actual process
//! liveness: one unconditional connection attempt first; on failure the
//! PID file decides whether to retry against a live server, clear stale
//! files, or kill an unresponsive one; then a fresh server is created
//! and the connection is retried once more under the connect policy.
//! Every branch is bounded; the machine never spins indefinitely.

use vstd::prelude::*;
use crate::config::{Config, backoff_ms};
use crate::pid::PidFile;

verus! {

/// The operation the embedding program must perform next.
#[derive(Clone, Copy, PartialEq, Eq, Structural, Debug)]
pub enum ConnectOp {
    /// Sleep `delay_ms`, then attempt one connection to the socket and
    /// report whether it succeeded (keeping the stream on success).
    TryConnect { delay_ms: u64 },
    /// Report what the PID file holds.
    ReadPidFile,
    /// Report whether `pid` is alive.
    Probe { pid: i32 },
    /// Sleep `delay_ms`, then run the kill machine to completion and
    /// report whether it succeeded.
    RunKill { pid: i32, delay_ms: u64 },
    /// If `cleanup_first` is set, remove any stray PID and socket files;
    /// then run the create machine to completion and report whether it
    /// succeeded.
    RunCreate { cleanup_first: bool },
}

/// The outcome of the operation last asked for.
#[derive(Clone, Copy, PartialEq, Eq, Structural, Debug)]
pub enum ConnectEvent {
    /// Answer to [`ConnectOp::TryConnect`].
    Connected(bool),
    /// Answer to [`ConnectOp::ReadPidFile`].
    PidFile(PidFile),
    /// Answer to [`ConnectOp::Probe`].
    Alive(bool),
    /// Answer to [`ConnectOp::RunKill`].
    KillDone(bool),
    /// Answer to [`ConnectOp::RunCreate`].
    CreateDone(bool),
}

/// Why a connect run failed.  Each variant is fatal and is reported to
/// the caller; nothing further is attempted automatically.
#[derive(Clone, Copy, PartialEq, Eq, Structural, Debug)]
pub enum ConnectError {
    /// An unresponsive server survived the kill escalation.
    KillFailed { pid: i32 },
    /// No fresh server could be created.
    CreateFailed,
    /// The fresh server never accepted a connection.
    Unreachable,
}

/// One state of the connect machine.
#[derive(Clone, Copy, PartialEq, Eq, Structural, Debug)]
pub enum ConnectState {
    /// About to make the single unconditional connection attempt.
    FirstTry,
    /// About to read the PID file after a failed first attempt.
    ReadPid,
    /// About to probe whether the recorded PID is alive.
    CheckAlive { pid: i32 },
    /// Retrying the connection against a live server, zero-based.
    Retrying { pid: i32, attempt: u32 },
    /// About to kill the live but unresponsive server.
    RunningKill { pid: i32 },
    /// About to create a fresh server (removing stale files first when
    /// `cleanup` is set).
    Creating { cleanup: bool },
    /// Retrying the connection against the fresh server, zero-based.
    FinalRetry { attempt: u32 },
    /// Terminal: a connection was obtained.
    Connected,
    /// Terminal: no connection could be obtained.
    Failed(ConnectError),
}

/// The transition function of the connect machine.  An event that does
/// not answer the pending operation leaves the state unchanged.
pub open spec fn spec_connect_step(s: ConnectState, ev: ConnectEvent, max: u32) -> ConnectState {
    match (s, ev) {
        (ConnectState::FirstTry, ConnectEvent::Connected(true)) => ConnectState::Connected,
        (ConnectState::FirstTry, ConnectEvent::Connected(false)) => ConnectState::ReadPid,
        (ConnectState::ReadPid, ConnectEvent::PidFile(PidFile::Recorded(p)))
            => ConnectState::CheckAlive { pid: p },
        (ConnectState::ReadPid, ConnectEvent::PidFile(_)) => ConnectState::Creating {
            cleanup: true,
        },
        (ConnectState::CheckAlive { pid }, ConnectEvent::Alive(true)) => {
            if max == 0 {
                ConnectState::RunningKill { pid }
            } else {
                ConnectState::Retrying { pid, attempt: 0 }
            }
        },
        (ConnectState::CheckAlive { pid }, ConnectEvent::Alive(false)) => ConnectState::Creating {
            cleanup: true,
        },
        (ConnectState::Retrying { pid, attempt }, ConnectEvent::Connected(true))
            => ConnectState::Connected,
        (ConnectState::Retrying { pid, attempt }, ConnectEvent::Connected(false)) => {
            if attempt < max && attempt + 1 < max {
                ConnectState::Retrying { pid, attempt: (attempt + 1) as u32 }
            } else {
                ConnectState::RunningKill { pid }
            }
        },
        (ConnectState::RunningKill { pid }, ConnectEvent::KillDone(true)) => ConnectState::Creating {
            cleanup: false,
        },
        (ConnectState::RunningKill { pid }, ConnectEvent::KillDone(false)) => ConnectState::Failed(
            ConnectError::KillFailed { pid },
        ),
        (ConnectState::Creating { cleanup }, ConnectEvent::CreateDone(true)) => {
            if max == 0 {
                ConnectState::Failed(ConnectError::Unreachable)
            } else {
                ConnectState::FinalRetry { attempt: 0 }
            }
        },
        (ConnectState::Creating { cleanup }, ConnectEvent::CreateDone(false))
            => ConnectState::Failed(ConnectError::CreateFailed),
        (ConnectState::FinalRetry { attempt }, ConnectEvent::Connected(true))
            => ConnectState::Connected,
        (ConnectState::FinalRetry { attempt }, ConnectEvent::Connected(false)) => {
            if attempt < max && attempt + 1 < max {
                ConnectState::FinalRetry { attempt: (attempt + 1) as u32 }
            } else {
                ConnectState::Failed(ConnectError::Unreachable)
            }
        },
        (_, _) => s,
    }
}

/// The backoff slept before a retried connection attempt: nothing
/// before the first, the connect policy's wait for the previous attempt
/// otherwise.
pub open spec fn spec_retry_delay(c: Config, attempt: u32) -> u64 {
    if attempt > 0 {
        backoff_ms(c.connect_server, (attempt - 1) as nat) as u64
    } else {
        0
    }
}

/// The operation pending in state `s`, `None` in a terminal state.
pub open spec fn spec_connect_op(s: ConnectState, c: Config) -> Option<ConnectOp> {
    match s {
        ConnectState::FirstTry => Some(ConnectOp::TryConnect { delay_ms: 0 }),
        ConnectState::ReadPid => Some(ConnectOp::ReadPidFile),
        ConnectState::CheckAlive { pid } => Some(ConnectOp::Probe { pid }),
        ConnectState::Retrying { pid, attempt } => Some(
            ConnectOp::TryConnect { delay_ms: spec_retry_delay(c, attempt) },
        ),
        ConnectState::RunningKill { pid } => Some(
            ConnectOp::RunKill {
                pid,
                delay_ms: if c.connect_server.max_attempts > 0 {
                    backoff_ms(c.connect_server, (c.connect_server.max_attempts - 1) as nat) as u64
                } else {
                    0
                },
            },
        ),
        ConnectState::Creating { cleanup } => Some(ConnectOp::RunCreate { cleanup_first: cleanup }),
        ConnectState::FinalRetry { attempt } => Some(
            ConnectOp::TryConnect { delay_ms: spec_retry_delay(c, attempt) },
        ),
        ConnectState::Connected => None,
        ConnectState::Failed(_) => None,
    }
}

/// Whether `s` is terminal.
pub open spec fn spec_connect_done(s: ConnectState) -> bool {
    s is Connected || s is Failed
}

impl ConnectState {
    /// The state a connect run starts in.
    pub fn start() -> (s: ConnectState)
        ensures
            s == ConnectState::FirstTry,
    {
        ConnectState::FirstTry
    }

    /// The operation to perform next, or `None` once the run is over.
    pub fn op(&self, c: &Config) -> (o: Option<ConnectOp>)
        ensures
            o == spec_connect_op(*self, *c),
    {
        match *self {
            ConnectState::FirstTry => Some(ConnectOp::TryConnect { delay_ms: 0 }),
            ConnectState::ReadPid => Some(ConnectOp::ReadPidFile),
            ConnectState::CheckAlive { pid } => Some(ConnectOp::Probe { pid }),
            ConnectState::Retrying { pid, attempt } => Some(
                ConnectOp::TryConnect { delay_ms: retry_delay(c, attempt) },
            ),
            ConnectState::RunningKill { pid } => Some(
                ConnectOp::RunKill {
                    pid,
                    delay_ms: if c.connect_server.max_attempts > 0 {
                        c.connect_server.sleep_for(c.connect_server.max_attempts - 1)
                    } else {
                        0
                    },
                },
            ),
            ConnectState::Creating { cleanup } => Some(
                ConnectOp::RunCreate { cleanup_first: cleanup },
            ),
            ConnectState::FinalRetry { attempt } => Some(
                ConnectOp::TryConnect { delay_ms: retry_delay(c, attempt) },
            ),
            ConnectState::Connected => None,
            ConnectState::Failed(_) => None,
        }
    }

    /// Feeds the outcome of the pending operation into the machine.
    pub fn step(self, ev: ConnectEvent, c: &Config) -> (s: ConnectState)
        ensures
            s == spec_connect_step(self, ev, c.connect_server.max_attempts),
    {
        let max = c.connect_server.max_attempts;
        match (self, ev) {
            (ConnectState::FirstTry, ConnectEvent::Connected(true)) => ConnectState::Connected,
            (ConnectState::FirstTry, ConnectEvent::Connected(false)) => ConnectState::ReadPid,
            (ConnectState::ReadPid, ConnectEvent::PidFile(PidFile::Recorded(p)))
                => ConnectState::CheckAlive { pid: p },
            (ConnectState::ReadPid, ConnectEvent::PidFile(_)) => ConnectState::Creating {
                cleanup: true,
            },
            (ConnectState::CheckAlive { pid }, ConnectEvent::Alive(true)) => {
                if max == 0 {
                    ConnectState::RunningKill { pid }
                } else {
                    ConnectState::Retrying { pid, attempt: 0 }
                }
            },
            (ConnectState::CheckAlive { pid }, ConnectEvent::Alive(false))
                => ConnectState::Creating { cleanup: true },
            (ConnectState::Retrying { pid, attempt }, ConnectEvent::Connected(true))
                => ConnectState::Connected,
            (ConnectState::Retrying { pid, attempt }, ConnectEvent::Connected(false)) => {
                if attempt < max && attempt + 1 < max {
                    ConnectState::Retrying { pid, attempt: attempt + 1 }
                } else {
                    ConnectState::RunningKill { pid }
                }
            },
            (ConnectState::RunningKill { pid }, ConnectEvent::KillDone(true))
                => ConnectState::Creating { cleanup: false },
            (ConnectState::RunningKill { pid }, ConnectEvent::KillDone(false))
                => ConnectState::Failed(ConnectError::KillFailed { pid }),
            (ConnectState::Creating { cleanup }, ConnectEvent::CreateDone(true)) => {
                if max == 0 {
                    ConnectState::Failed(ConnectError::Unreachable)
                } else {
                    ConnectState::FinalRetry { attempt: 0 }
                }
            },
            (ConnectState::Creating { cleanup }, ConnectEvent::CreateDone(false))
                => ConnectState::Failed(ConnectError::CreateFailed),
            (ConnectState::FinalRetry { attempt }, ConnectEvent::Connected(true))
                => ConnectState::Connected,
            (ConnectState::FinalRetry { attempt }, ConnectEvent::Connected(false)) => {
                if attempt < max && attempt + 1 < max {
                    ConnectState::FinalRetry { attempt: attempt + 1 }
                } else {
                    ConnectState::Failed(ConnectError::Unreachable)
                }
            },
            (s, _) => s,
        }
    }

    /// The outcome, once the machine is in a terminal state.
    pub fn outcome(&self) -> (r: Option<Result<(), ConnectError>>)
        ensures
            *self is Connected ==> r == Some(Result::<(), ConnectError>::Ok(())),
            *self is Failed ==> r == Some(Result::<(), ConnectError>::Err(self->Failed_0)),
            !spec_connect_done(*self) ==> r is None,
    {
        match *self {
            ConnectState::Connected => Some(Ok(())),
            ConnectState::Failed(e) => Some(Err(e)),
            _ => None,
        }
    }
}

/// Executable form of [`spec_retry_delay`].
fn retry_delay(c: &Config, attempt: u32) -> (d: u64)
    ensures
        d == spec_retry_delay(*c, attempt),
{
    if attempt > 0 {
        c.connect_server.sleep_for(attempt - 1)
    } else {
        0
    }
}

/// Law: against an already-listening, healthy server the first,
/// unconditional connection attempt succeeds and the run is over —
/// no state of the run carries a create (or any other) operation.
pub proof fn lemma_connect_happy_path(c: Config)
    ensures
        spec_connect_op(ConnectState::FirstTry, c) == Some(ConnectOp::TryConnect { delay_ms: 0 }),
        spec_connect_step(ConnectState::FirstTry, ConnectEvent::Connected(true),
            c.connect_server.max_attempts) == ConnectState::Connected,
        spec_connect_op(ConnectState::Connected, c) is None,
{
}

/// Law: when the PID file names a dead process, the run removes the
/// stale files and makes exactly one create invocation — the single
/// `Creating` state between the probe and the final retries — before
/// connecting to the fresh server.
pub proof fn lemma_connect_dead_pid(c: Config, p: i32)
    requires
        c.connect_server.max_attempts >= 1,
    ensures
        spec_connect_step(ConnectState::FirstTry, ConnectEvent::Connected(false),
            c.connect_server.max_attempts) == ConnectState::ReadPid,
        spec_connect_step(ConnectState::ReadPid, ConnectEvent::PidFile(PidFile::Recorded(p)),
            c.connect_server.max_attempts) == (ConnectState::CheckAlive { pid: p }),
        spec_connect_step((ConnectState::CheckAlive { pid: p }), ConnectEvent::Alive(false),
            c.connect_server.max_attempts) == (ConnectState::Creating { cleanup: true }),
        spec_connect_op((ConnectState::Creating { cleanup: true }), c) == Some(
            ConnectOp::RunCreate { cleanup_first: true },
        ),
        spec_connect_step((ConnectState::Creating { cleanup: true }), ConnectEvent::CreateDone(
            true,
        ), c.connect_server.max_attempts) == (ConnectState::FinalRetry { attempt: 0 }),
        spec_connect_step((ConnectState::FinalRetry { attempt: 0 }), ConnectEvent::Connected(true),
            c.connect_server.max_attempts) == ConnectState::Connected,
        // No other state on this path asks for a create.
        forall|a: u32|
            (#[trigger] spec_connect_op((ConnectState::FinalRetry { attempt: a }), c)) != Some(
                ConnectOp::RunCreate { cleanup_first: true },
            ) && spec_connect_op((ConnectState::FinalRetry { attempt: a }), c) != Some(
                ConnectOp::RunCreate { cleanup_first: false },
            ),
{
}

/// Whether the pending operation of `s` is a connection attempt.
pub open spec fn awaits_connection(s: ConnectState) -> bool {
    s is FirstTry || s is Retrying || s is FinalRetry
}

/// Runs the connect machine for up to `fuel` steps while every
/// connection attempt is refused, stopping as soon as the machine asks
/// for anything other than a connection attempt.
pub open spec fn run_refused(s: ConnectState, max: u32, fuel: nat) -> ConnectState
    decreases fuel,
{
    if fuel == 0 || !awaits_connection(s) {
        s
    } else {
        run_refused(spec_connect_step(s, ConnectEvent::Connected(false), max), max, (fuel - 1) as nat)
    }
}

proof fn lemma_refused_retry_from(p: i32, max: u32, attempt: u32, fuel: nat)
    requires
        attempt < max,
        fuel >= max - attempt,
    ensures
        run_refused((ConnectState::Retrying { pid: p, attempt }), max, fuel)
            == (ConnectState::RunningKill { pid: p }),
    decreases max - attempt,
{
    if attempt + 1 < max {
        lemma_refused_retry_from(p, max, (attempt + 1) as u32, (fuel - 1) as nat);
    } else {
        assert(run_refused((ConnectState::RunningKill { pid: p }), max, (fuel - 1) as nat) == (
        ConnectState::RunningKill { pid: p }));
    }
}

proof fn lemma_refused_final_from(max: u32, attempt: u32, fuel: nat)
    requires
        attempt < max,
        fuel >= max - attempt,
    ensures
        run_refused((ConnectState::FinalRetry { attempt }), max, fuel) == ConnectState::Failed(
            ConnectError::Unreachable,
        ),
    decreases max - attempt,
{
    if attempt + 1 < max {
        lemma_refused_final_from(max, (attempt + 1) as u32, (fuel - 1) as nat);
    } else {
        assert(run_refused(ConnectState::Failed(ConnectError::Unreachable), max, (fuel - 1) as nat)
            == ConnectState::Failed(ConnectError::Unreachable));
    }
}

/// Law: against a live but unresponsive server, the run exhausts the
/// connect policy's attempts, then asks for a kill; after a successful
/// kill it makes its one create invocation; and after a successful
/// create the final retries alone decide between success and the
/// fatal "unreachable" failure.
pub proof fn lemma_connect_unresponsive(c: Config, p: i32, fuel: nat)
    requires
        c.connect_server.max_attempts >= 1,
        fuel >= c.connect_server.max_attempts,
    ensures
        spec_connect_step((ConnectState::CheckAlive { pid: p }), ConnectEvent::Alive(true),
            c.connect_server.max_attempts) == (ConnectState::Retrying { pid: p, attempt: 0 }),
        run_refused((ConnectState::Retrying { pid: p, attempt: 0 }),
            c.connect_server.max_attempts, fuel) == (ConnectState::RunningKill { pid: p }),
        spec_connect_step((ConnectState::RunningKill { pid: p }), ConnectEvent::KillDone(true),
            c.connect_server.max_attempts) == (ConnectState::Creating { cleanup: false }),
        spec_connect_step((ConnectState::RunningKill { pid: p }), ConnectEvent::KillDone(false),
            c.connect_server.max_attempts) == ConnectState::Failed(
            ConnectError::KillFailed { pid: p },
        ),
        spec_connect_step((ConnectState::Creating { cleanup: false }), ConnectEvent::CreateDone(
            true,
        ), c.connect_server.max_attempts) == (ConnectState::FinalRetry { attempt: 0 }),
        spec_connect_step((ConnectState::FinalRetry { attempt: 0 }), ConnectEvent::Connected(true),
            c.connect_server.max_attempts) == ConnectState::Connected,
        run_refused((ConnectState::FinalRetry { attempt: 0 }), c.connect_server.max_attempts, fuel)
            == ConnectState::Failed(ConnectError::Unreachable),
{
    lemma_refused_retry_from(p, c.connect_server.max_attempts, 0, fuel);
    lemma_refused_final_from(c.connect_server.max_attempts, 0, fuel);
}

} // verus!
