//! A main-thread dispatch library: a bridge that lets background worker
//! threads hand units of work to the single thread that owns the host's UI
//! state.
//!
//! Workers call `submit` (fire-and-forget) or `submit_blocking`
//! (call-and-wait). Work submitted from another thread is appended to a FIFO
//! job queue; a drain driver, fired periodically by the host on the UI
//! thread, pops at most a bounded number of jobs per firing and executes
//! them. Blocking submissions are paired with their results through one-shot
//! reply tickets.

pub mod buffer;
pub mod job;
pub mod queue;
pub mod dispatch;

// The concurrent shell (locks, reply channels, thread identities) lives in
// the host-facing layer; this crate verifies the decisions: who runs what,
// in which order, and which reply belongs to which caller.
