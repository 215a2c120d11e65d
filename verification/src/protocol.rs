//! Framing of the server's reply and the client's interrupt forwards,
//! and the decisions of the non-blocking response-wait loop.
//!
//! The server answers with a 4-byte signed length header followed by
//! that many bytes of response body.  While waiting for the header the
//! client polls; on a would-block it may forward a pending interactive
//! interrupt as a raw 4-byte signal number on the same connection.  A
//! reduced profile reads the 4 header bytes directly as the exit
//! status, with no body.  Byte order on the wire is little-endian, the
//! native order of every platform this client targets.

use vstd::prelude::*;
use vstd::arithmetic::div_mod::lemma_fundamental_div_mod;

verus! {

/// Milliseconds slept between two polls for the response header.
pub const POLL_INTERVAL_MS: u64 = 10;

/// The signal number forwarded to the server when the user interrupts:
/// the interactive interrupt, `SIGINT`.
pub const INTERRUPT_SIGNAL_NUMBER: i32 = 2;

/// The signed 32-bit value held by four little-endian bytes.
pub open spec fn spec_decode_i32(b: Seq<u8>) -> int {
    let v = b[0] + 256 * b[1] + 65536 * b[2] + 16777216 * b[3];
    if v < 0x8000_0000 {
        v
    } else {
        v - 0x1_0000_0000
    }
}

/// Reads a 4-byte little-endian signed value, as used both for the
/// response length header and for forwarded signal numbers.
pub fn decode_i32(b: &Vec<u8>) -> (r: i32)
    requires
        b@.len() == 4,
    ensures
        r as int == spec_decode_i32(b@),
{
    let v: u32 = (b[0] as u32) + 256 * (b[1] as u32) + 65536 * (b[2] as u32) + 16777216 * (
    b[3] as u32);
    if v <= 0x7FFF_FFFF {
        v as i32
    } else {
        -((0xFFFF_FFFFu32 - v) as i32) - 1
    }
}

/// Writes `x` as four little-endian bytes; reading them back yields
/// `x` again (the codec round-trips).
pub fn encode_i32(x: i32) -> (r: Vec<u8>)
    ensures
        r@.len() == 4,
        spec_decode_i32(r@) == x as int,
{
    let u: u32 = if x >= 0 {
        x as u32
    } else {
        ((x as i64) + 0x1_0000_0000i64) as u32
    };
    let b0: u8 = (u % 256) as u8;
    let b1: u8 = ((u / 256) % 256) as u8;
    let b2: u8 = ((u / 65536) % 256) as u8;
    let b3: u8 = (u / 16777216) as u8;
    proof {
        lemma_fundamental_div_mod(u as int, 256);
        lemma_fundamental_div_mod(u as int / 256, 256);
        lemma_fundamental_div_mod(u as int / 256 / 256, 256);
        assert(u as int / 256 / 256 == u as int / 65536) by (nonlinear_arith);
        assert(u as int / 256 / 256 / 256 == u as int / 16777216) by (nonlinear_arith);
    }
    let mut out: Vec<u8> = Vec::new();
    out.push(b0);
    out.push(b1);
    out.push(b2);
    out.push(b3);
    out
}

/// The 4-byte frame that forwards the interactive interrupt.
pub fn interrupt_frame() -> (r: Vec<u8>)
    ensures
        r@.len() == 4,
        spec_decode_i32(r@) == INTERRUPT_SIGNAL_NUMBER as int,
{
    encode_i32(INTERRUPT_SIGNAL_NUMBER)
}

/// The number of body bytes announced by a header, or `None` when the
/// header is negative — a protocol violation the caller must treat as
/// fatal.
pub fn response_body_len(header: &Vec<u8>) -> (r: Option<usize>)
    requires
        header@.len() == 4,
    ensures
        spec_decode_i32(header@) >= 0 ==> r == Some(spec_decode_i32(header@) as usize),
        spec_decode_i32(header@) < 0 ==> r is None,
{
    let n = decode_i32(header);
    if n >= 0 {
        Some(n as usize)
    } else {
        None
    }
}

/// Under the reduced protocol profile the four header bytes are the
/// whole reply: the server's exit status, with no body following.
pub fn reduced_exit_status(header: &Vec<u8>) -> (r: i32)
    requires
        header@.len() == 4,
    ensures
        r as int == spec_decode_i32(header@),
{
    decode_i32(header)
}

/// How an attempt to read the response header ended, as classified by
/// the embedding program.
#[derive(Clone, Copy, PartialEq, Eq, Structural, Debug)]
pub enum ReadStatus {
    /// All four header bytes arrived.
    Received,
    /// No data yet; the connection would block.
    WouldBlock,
    /// Any other read error.
    Failed,
}

/// What the response-wait loop must do after one read attempt.
#[derive(Clone, Copy, PartialEq, Eq, Structural, Debug)]
pub enum PollAction {
    /// The header is complete; leave the loop and read the body.
    Proceed,
    /// Forward the pending interrupt to the server, then sleep one poll
    /// interval and try again.
    ForwardInterruptThenWait,
    /// Sleep one poll interval and try again.
    WaitThenRetry,
    /// The connection failed; abort the client.
    Abort,
}

/// The decision function of the response-wait loop.
pub open spec fn spec_poll_action(r: ReadStatus, signaled: bool) -> PollAction {
    match r {
        ReadStatus::Received => PollAction::Proceed,
        ReadStatus::Failed => PollAction::Abort,
        ReadStatus::WouldBlock => {
            if signaled {
                PollAction::ForwardInterruptThenWait
            } else {
                PollAction::WaitThenRetry
            }
        },
    }
}

/// Decides the next step of the response-wait loop from the last read
/// attempt and the interrupt flag.  The flag is not cleared by
/// forwarding: while it stays set, each poll interval forwards the
/// interrupt again, and coalescing is the server's concern.
pub fn poll_decision(r: ReadStatus, signaled: bool) -> (a: PollAction)
    ensures
        a == spec_poll_action(r, signaled),
{
    match r {
        ReadStatus::Received => PollAction::Proceed,
        ReadStatus::Failed => PollAction::Abort,
        ReadStatus::WouldBlock => {
            if signaled {
                PollAction::ForwardInterruptThenWait
            } else {
                PollAction::WaitThenRetry
            }
        },
    }
}

} // verus!
