//! A byte-level relay that bridges a local interactive input stream, a named
//! pipe fed by another process, and a remote network peer into one
//! bidirectional conduit per connection.
//!
//! This crate holds the relay's decision logic, verified: how a poll cycle
//! reacts to each observation (an out-of-band socket error, a channel poll,
//! a socket read), when the per-connection loop terminates, how a byte
//! source packages what it reads, and how the named pipe's creation outcome
//! is judged. The surrounding process — sockets, threads, the pipe on disk —
//! performs the observations and carries out the returned actions.

use vstd::prelude::*;

pub mod pipe;
pub mod relay;
pub mod source;

verus! {

/// TCP port the listening endpoint binds on all local interfaces.
pub const LISTEN_PORT: u16 = 62100;

/// Fixed interval, in milliseconds, slept between poll cycles; the sole
/// scheduling primitive of the relay and of both byte sources.
pub const POLL_INTERVAL_MS: u64 = 10;

} // verus!
