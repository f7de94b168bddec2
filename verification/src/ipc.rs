//! The names the two ends of an IPC boundary agree on.
//!
//! They live in the library for the same reason the event types do: a name
//! that two crates spell separately is a name that drifts. The host reads
//! these to register its commands, the frontend reads them to call them, and
//! neither is free to rename one alone.
//!
//! What is here is protocol, not transport. How a name is dispatched is the
//! host's business — Tauri's command bridge in the window, something else in
//! the daemon — but *which* intents exist is the library's.

use vstd::prelude::*;

pub mod command;

verus! {

/// The one event channel.
///
/// Every vocabulary travels it, wrapped in an
/// [`Envelope`](crate::event::Envelope) that says which conversation an event
/// belongs to. A second vocabulary is a second match arm at the far end, not a
/// second channel.
pub const CHANNEL: &'static str = "epik://events";

} // verus!
