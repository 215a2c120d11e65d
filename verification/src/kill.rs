//! Graceful-then-forced termination of the server, as a state machine.
//!
//! The machine owns every decision of the kill flow; the embedding
//! program performs the operation the current state asks for (reading
//! the PID file, probing liveness, sleeping and sending a signal) and
//! feeds the observed outcome back through [`KillState::step`].
//!
//! Three observed situations resolve without a signal: no PID file
//! (nothing to do, no files touched), a stale or invalid PID file (both
//! PID and socket files are removed), and a process that dies during
//! escalation.  A live process is sent `SIGTERM` up to `max_attempts`
//! times with the kill policy's backoff, then `SIGKILL` the same way;
//! if it survives all of that, the run fails naming the PID.

use vstd::prelude::*;
use crate::config::{RetryConfig, backoff_ms};
use crate::pid::PidFile;

verus! {

/// Milliseconds waited between sending a signal and re-probing.
pub const SIGNAL_SETTLE_MS: u64 = 50;

/// Which signal an escalation stage sends.
#[derive(Clone, Copy, PartialEq, Eq, Structural, Debug)]
pub enum KillSignal {
    /// The graceful request, `SIGTERM`.
    Term,
    /// The forced fallback, `SIGKILL`.
    Kill,
}

/// The operation the embedding program must perform next.
#[derive(Clone, Copy, PartialEq, Eq, Structural, Debug)]
pub enum KillOp {
    /// Report what the PID file holds.
    ReadPidFile,
    /// Sleep `delay_ms`, then report whether `pid` is alive.
    Probe { pid: i32, delay_ms: u64 },
    /// Sleep `delay_ms`, then send `signal` to `pid`; report whether the
    /// send was accepted (a refused send means the process vanished).
    Send { pid: i32, signal: KillSignal, delay_ms: u64 },
}

/// The outcome of the operation last asked for.
#[derive(Clone, Copy, PartialEq, Eq, Structural, Debug)]
pub enum KillEvent {
    /// Answer to [`KillOp::ReadPidFile`].
    PidFile(PidFile),
    /// Answer to [`KillOp::Probe`].
    Alive(bool),
    /// Answer to [`KillOp::Send`]: whether the signal was delivered.
    Sent(bool),
}

/// The terminal outcome of a kill run.
#[derive(Clone, Copy, PartialEq, Eq, Structural, Debug)]
pub enum KillOutcome {
    /// The server is gone.  When `cleanup` is set the embedding program
    /// must remove the PID file and, if present, the socket file, since
    /// the dead server cannot do so itself.
    Gone { cleanup: bool },
    /// The process survived both escalation stages; nothing further is
    /// attempted automatically.
    StillAlive { pid: i32 },
}

/// One state of the kill machine.
#[derive(Clone, Copy, PartialEq, Eq, Structural, Debug)]
pub enum KillState {
    /// About to read the PID file.
    ReadPid,
    /// About to probe whether the recorded PID is alive.
    CheckAlive { pid: i32 },
    /// About to send `signal` for the given zero-based attempt.
    Sending { pid: i32, signal: KillSignal, attempt: u32 },
    /// Sent; about to re-probe after the settle interval.
    Rechecking { pid: i32, signal: KillSignal, attempt: u32 },
    /// Terminal: the server is gone.
    Succeeded { cleanup: bool },
    /// Terminal: the process survived both stages.
    Failed { pid: i32 },
}

/// The transition function of the kill machine.  An event that does not
/// answer the pending operation leaves the state unchanged, as does any
/// event in a terminal state.
pub open spec fn spec_kill_step(s: KillState, ev: KillEvent, max: u32) -> KillState {
    match (s, ev) {
        (KillState::ReadPid, KillEvent::PidFile(PidFile::Missing)) => KillState::Succeeded {
            cleanup: false,
        },
        (KillState::ReadPid, KillEvent::PidFile(PidFile::Invalid)) => KillState::Succeeded {
            cleanup: true,
        },
        (KillState::ReadPid, KillEvent::PidFile(PidFile::Recorded(p))) => KillState::CheckAlive {
            pid: p,
        },
        (KillState::CheckAlive { pid }, KillEvent::Alive(false)) => KillState::Succeeded {
            cleanup: true,
        },
        (KillState::CheckAlive { pid }, KillEvent::Alive(true)) => {
            if max == 0 {
                KillState::Failed { pid }
            } else {
                KillState::Sending { pid, signal: KillSignal::Term, attempt: 0 }
            }
        },
        (KillState::Sending { pid, signal, attempt }, KillEvent::Sent(false)) =>
        // The process vanished between probe and send.
        KillState::Succeeded { cleanup: signal is Kill },
        (KillState::Sending { pid, signal, attempt }, KillEvent::Sent(true)) =>
        KillState::Rechecking { pid, signal, attempt },
        (KillState::Rechecking { pid, signal, attempt }, KillEvent::Alive(false)) =>
        KillState::Succeeded { cleanup: signal is Kill },
        (KillState::Rechecking { pid, signal, attempt }, KillEvent::Alive(true)) => {
            if attempt < max && attempt + 1 < max {
                KillState::Sending { pid, signal, attempt: (attempt + 1) as u32 }
            } else if signal is Term && max > 0 {
                KillState::Sending { pid, signal: KillSignal::Kill, attempt: 0 }
            } else {
                KillState::Failed { pid }
            }
        },
        (_, _) => s,
    }
}

/// The operation pending in state `s`, `None` in a terminal state.
pub open spec fn spec_kill_op(s: KillState, c: RetryConfig) -> Option<KillOp> {
    match s {
        KillState::ReadPid => Some(KillOp::ReadPidFile),
        KillState::CheckAlive { pid } => Some(KillOp::Probe { pid, delay_ms: 0 }),
        KillState::Sending { pid, signal, attempt } => Some(
            KillOp::Send { pid, signal, delay_ms: spec_send_delay(c, signal, attempt) },
        ),
        KillState::Rechecking { pid, signal, attempt } => Some(
            KillOp::Probe { pid, delay_ms: SIGNAL_SETTLE_MS },
        ),
        KillState::Succeeded { .. } => None,
        KillState::Failed { .. } => None,
    }
}

/// The backoff slept before a send: nothing before the first `SIGTERM`;
/// the policy's wait for the previous attempt otherwise, including the
/// wait carried over from the last `SIGTERM` attempt into the first
/// `SIGKILL` one.
pub open spec fn spec_send_delay(c: RetryConfig, signal: KillSignal, attempt: u32) -> u64 {
    if attempt > 0 {
        backoff_ms(c, (attempt - 1) as nat) as u64
    } else if signal is Kill && c.max_attempts > 0 {
        backoff_ms(c, (c.max_attempts - 1) as nat) as u64
    } else {
        0
    }
}

/// Whether `s` is terminal.
pub open spec fn spec_kill_done(s: KillState) -> bool {
    s is Succeeded || s is Failed
}

impl KillState {
    /// The state a kill run starts in.
    pub fn start() -> (s: KillState)
        ensures
            s == KillState::ReadPid,
    {
        KillState::ReadPid
    }

    /// The operation to perform next, or `None` once the run is over.
    pub fn op(&self, c: &RetryConfig) -> (o: Option<KillOp>)
        ensures
            o == spec_kill_op(*self, *c),
    {
        match *self {
            KillState::ReadPid => Some(KillOp::ReadPidFile),
            KillState::CheckAlive { pid } => Some(KillOp::Probe { pid, delay_ms: 0 }),
            KillState::Sending { pid, signal, attempt } => {
                let delay: u64 = if attempt > 0 {
                    c.sleep_for(attempt - 1)
                } else if matches!(signal, KillSignal::Kill) && c.max_attempts > 0 {
                    c.sleep_for(c.max_attempts - 1)
                } else {
                    0
                };
                Some(KillOp::Send { pid, signal, delay_ms: delay })
            },
            KillState::Rechecking { pid, signal, attempt } => Some(
                KillOp::Probe { pid, delay_ms: SIGNAL_SETTLE_MS },
            ),
            KillState::Succeeded { .. } => None,
            KillState::Failed { .. } => None,
        }
    }

    /// Feeds the outcome of the pending operation into the machine.
    pub fn step(self, ev: KillEvent, c: &RetryConfig) -> (s: KillState)
        ensures
            s == spec_kill_step(self, ev, c.max_attempts),
    {
        let max = c.max_attempts;
        match (self, ev) {
            (KillState::ReadPid, KillEvent::PidFile(PidFile::Missing)) => KillState::Succeeded {
                cleanup: false,
            },
            (KillState::ReadPid, KillEvent::PidFile(PidFile::Invalid)) => KillState::Succeeded {
                cleanup: true,
            },
            (KillState::ReadPid, KillEvent::PidFile(PidFile::Recorded(p))) =>
            KillState::CheckAlive { pid: p },
            (KillState::CheckAlive { pid }, KillEvent::Alive(false)) => KillState::Succeeded {
                cleanup: true,
            },
            (KillState::CheckAlive { pid }, KillEvent::Alive(true)) => {
                if max == 0 {
                    KillState::Failed { pid }
                } else {
                    KillState::Sending { pid, signal: KillSignal::Term, attempt: 0 }
                }
            },
            (KillState::Sending { pid, signal, attempt }, KillEvent::Sent(false)) =>
            KillState::Succeeded { cleanup: matches!(signal, KillSignal::Kill) },
            (KillState::Sending { pid, signal, attempt }, KillEvent::Sent(true)) =>
            KillState::Rechecking { pid, signal, attempt },
            (KillState::Rechecking { pid, signal, attempt }, KillEvent::Alive(false)) =>
            KillState::Succeeded { cleanup: matches!(signal, KillSignal::Kill) },
            (KillState::Rechecking { pid, signal, attempt }, KillEvent::Alive(true)) => {
                if attempt < max && attempt + 1 < max {
                    KillState::Sending { pid, signal, attempt: attempt + 1 }
                } else if matches!(signal, KillSignal::Term) && max > 0 {
                    KillState::Sending { pid, signal: KillSignal::Kill, attempt: 0 }
                } else {
                    KillState::Failed { pid }
                }
            },
            (s, _) => s,
        }
    }

    /// The outcome, once the machine is in a terminal state.
    pub fn outcome(&self) -> (r: Option<KillOutcome>)
        ensures
            *self is Succeeded ==> r == Some(
                KillOutcome::Gone { cleanup: self->Succeeded_cleanup },
            ),
            *self is Failed ==> r == Some(KillOutcome::StillAlive { pid: self->Failed_pid }),
            !spec_kill_done(*self) ==> r is None,
    {
        match *self {
            KillState::Succeeded { cleanup } => Some(KillOutcome::Gone { cleanup }),
            KillState::Failed { pid } => Some(KillOutcome::StillAlive { pid }),
            _ => None,
        }
    }
}

/// Law: a kill run that observes no PID file succeeds at once, asks for
/// no cleanup, and never reaches a state whose operation sends a signal.
pub proof fn lemma_kill_without_pid_file(c: RetryConfig)
    ensures
        spec_kill_step(KillState::ReadPid, KillEvent::PidFile(PidFile::Missing), c.max_attempts)
            == (KillState::Succeeded { cleanup: false }),
        spec_kill_op((KillState::Succeeded { cleanup: false }), c) is None,
{
}

/// Law: a kill run that finds a PID file whose recorded process is not
/// alive (or whose contents are invalid) succeeds with cleanup — the PID
/// file and any socket file are removed — and never reaches a state
/// whose operation sends a signal.
pub proof fn lemma_kill_stale_pid_file(c: RetryConfig, p: i32)
    ensures
        spec_kill_step(KillState::ReadPid, KillEvent::PidFile(PidFile::Invalid), c.max_attempts)
            == (KillState::Succeeded { cleanup: true }),
        spec_kill_step(KillState::ReadPid, KillEvent::PidFile(PidFile::Recorded(p)),
            c.max_attempts) == (KillState::CheckAlive { pid: p }),
        spec_kill_step((KillState::CheckAlive { pid: p }), KillEvent::Alive(false),
            c.max_attempts) == (KillState::Succeeded { cleanup: true }),
        spec_kill_op((KillState::Succeeded { cleanup: true }), c) is None,
{
}

/// Law: against a live process that dies after the first `SIGTERM`, the
/// kill run succeeds, and the only send operation it ever asked for
/// carried the graceful signal — `SIGKILL` is never sent.
pub proof fn lemma_kill_graceful(c: RetryConfig, p: i32)
    requires
        c.max_attempts >= 1,
    ensures
        spec_kill_step(KillState::ReadPid, KillEvent::PidFile(PidFile::Recorded(p)),
            c.max_attempts) == (KillState::CheckAlive { pid: p }),
        spec_kill_step((KillState::CheckAlive { pid: p }), KillEvent::Alive(true),
            c.max_attempts) == (KillState::Sending {
            pid: p,
            signal: KillSignal::Term,
            attempt: 0,
        }),
        spec_kill_op(
            (KillState::Sending { pid: p, signal: KillSignal::Term, attempt: 0 }),
            c,
        ) == Some(KillOp::Send { pid: p, signal: KillSignal::Term, delay_ms: 0 }),
        spec_kill_step(
            (KillState::Sending { pid: p, signal: KillSignal::Term, attempt: 0 }),
            KillEvent::Sent(true),
            c.max_attempts,
        ) == (KillState::Rechecking { pid: p, signal: KillSignal::Term, attempt: 0 }),
        spec_kill_step(
            (KillState::Rechecking { pid: p, signal: KillSignal::Term, attempt: 0 }),
            KillEvent::Alive(false),
            c.max_attempts,
        ) == (KillState::Succeeded { cleanup: false }),
{
}

/// The event a maximally stubborn environment answers with: the PID file
/// names `p`, every probe finds the process alive, every send is
/// delivered.
pub open spec fn stubborn_event(s: KillState, p: i32) -> KillEvent {
    match s {
        KillState::ReadPid => KillEvent::PidFile(PidFile::Recorded(p)),
        KillState::CheckAlive { .. } => KillEvent::Alive(true),
        KillState::Sending { .. } => KillEvent::Sent(true),
        KillState::Rechecking { .. } => KillEvent::Alive(true),
        _ => KillEvent::Alive(true),
    }
}

/// Runs the kill machine for up to `fuel` steps against the stubborn
/// environment.
pub open spec fn run_stubborn(s: KillState, p: i32, max: u32, fuel: nat) -> KillState
    decreases fuel,
{
    if fuel == 0 || spec_kill_done(s) {
        s
    } else {
        run_stubborn(spec_kill_step(s, stubborn_event(s, p), max), p, max, (fuel - 1) as nat)
    }
}

proof fn lemma_stubborn_stage(p: i32, max: u32, signal: KillSignal, attempt: u32, fuel: nat)
    requires
        attempt < max,
        signal is Kill ==> fuel >= 2 * (max - attempt),
        signal is Term ==> fuel >= 2 * (max - attempt) + 2 * max,
    ensures
        run_stubborn((KillState::Sending { pid: p, signal, attempt }), p, max, fuel) == (
        KillState::Failed { pid: p }),
    decreases (if signal is Term { 1int } else { 0int }), max - attempt,
{
    let s0 = KillState::Sending { pid: p, signal, attempt };
    let s1 = KillState::Rechecking { pid: p, signal, attempt };
    assert(run_stubborn(s0, p, max, fuel) == run_stubborn(s1, p, max, (fuel - 1) as nat));
    if attempt + 1 < max {
        let s2 = KillState::Sending { pid: p, signal, attempt: (attempt + 1) as u32 };
        assert(run_stubborn(s1, p, max, (fuel - 1) as nat) == run_stubborn(
            s2,
            p,
            max,
            (fuel - 2) as nat,
        ));
        lemma_stubborn_stage(p, max, signal, (attempt + 1) as u32, (fuel - 2) as nat);
    } else if signal is Term {
        let s2 = KillState::Sending { pid: p, signal: KillSignal::Kill, attempt: 0 };
        assert(run_stubborn(s1, p, max, (fuel - 1) as nat) == run_stubborn(
            s2,
            p,
            max,
            (fuel - 2) as nat,
        ));
        lemma_stubborn_stage(p, max, KillSignal::Kill, 0, (fuel - 2) as nat);
    } else {
        assert(run_stubborn(s1, p, max, (fuel - 1) as nat) == run_stubborn(
            (KillState::Failed { pid: p }),
            p,
            max,
            (fuel - 2) as nat,
        ));
    }
}

/// Law: against a process that ignores both `SIGTERM` and `SIGKILL`
/// through all configured attempts, the kill run ends in failure, and
/// the failure names the PID it could not terminate.
pub proof fn lemma_kill_exhaustion(c: RetryConfig, p: i32, fuel: nat)
    requires
        fuel >= 4 * c.max_attempts + 2,
    ensures
        run_stubborn(KillState::ReadPid, p, c.max_attempts, fuel) == (KillState::Failed {
            pid: p,
        }),
{
    let max = c.max_attempts;
    let s1 = KillState::CheckAlive { pid: p };
    assert(run_stubborn(KillState::ReadPid, p, max, fuel) == run_stubborn(
        s1,
        p,
        max,
        (fuel - 1) as nat,
    ));
    if max == 0 {
        assert(run_stubborn(s1, p, max, (fuel - 1) as nat) == run_stubborn(
            (KillState::Failed { pid: p }),
            p,
            max,
            (fuel - 2) as nat,
        ));
    } else {
        let s2 = KillState::Sending { pid: p, signal: KillSignal::Term, attempt: 0 };
        assert(run_stubborn(s1, p, max, (fuel - 1) as nat) == run_stubborn(
            s2,
            p,
            max,
            (fuel - 2) as nat,
        ));
        lemma_stubborn_stage(p, max, KillSignal::Term, 0, (fuel - 2) as nat);
    }
}

} // verus!
