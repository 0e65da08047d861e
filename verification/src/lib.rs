//! A preemptive round-robin process scheduler for a single-CPU kernel.
//!
//! The scheduler owns the ready set — a rotating queue of processes — together
//! with the id of the currently running process and a sequential id allocator.
//! `Scheduler` implements the core algorithm; `GlobalScheduler` wraps one core
//! instance behind a two-phase (uninitialized / initialized) lifecycle.
//! Platform work the scheduler cannot perform itself — parking the CPU until
//! the next interrupt when nothing is runnable — stays with the embedder: a
//! `switch` that finds nothing `Ready` hands control back, and the embedder
//! parks and feeds each reported wake-up to `resume_switch` until a process is
//! selected. The core is thereby verified for every behaviour of the platform.

use vstd::prelude::*;

pub mod global;
pub mod laws;
pub mod process;
pub mod scheduler;
pub mod trap_frame;

verus! {

/// The preemption period: how long a process runs before the periodic timer
/// interrupt suspends it, in timer units.
pub const TICK: u32 = 10 * 1000;

} // verus!
