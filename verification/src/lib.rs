//! Client-side supervisor and handoff protocol for a persistent command
//! server.
//!
//! A cheap entry process forwards one command-line invocation (argv,
//! environment, working directory and the standard file descriptors) to a
//! long-lived server over a local socket, then exits with the status the
//! server computed or replaces its own process image on request.
//!
//! This crate holds the decision logic, fully verified: backoff policies,
//! the PID-file and socket reconciliation state machines (`create`, `kill`,
//! `connect`), the wire codec for requests and responses, and the
//! response-wait polling decisions.  Everything effectful — spawning,
//! signalling, socket I/O, file removal, sleeping — is performed by the
//! embedding program, which drives the state machines here and feeds the
//! observed outcomes back as events.

pub mod cli;
pub mod config;
pub mod connect;
pub mod create;
pub mod json;
pub mod kill;
pub mod message;
pub mod pid;
pub mod protocol;
pub mod strings;
