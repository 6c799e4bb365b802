//! Client-side controller for attached reverse-shell sessions.
//!
//! The crate keeps a registry of idle sessions with an exclusive
//! checkout/checkin discipline, translates keystrokes into the byte
//! sequences an attached session receives, recognises the detach escape
//! sequence, and decides how bytes arriving from the connection are
//! relayed to the terminal. The surrounding I/O (sockets, terminal raw
//! mode, task scheduling) lives outside the verified core.

pub mod cancel;
pub mod input;
pub mod output;
pub mod registry;

use vstd::prelude::*;

verus! {

/// Largest chunk the output relay reads from the connection in one step.
pub const READ_CHUNK_SIZE: usize = 1024;

} // verus!
