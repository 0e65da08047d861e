//! The machine-wide scheduler: one scheduler core behind a two-phase
//! (uninitialized / initialized) lifecycle.
//!
//! The embedder constructs one `GlobalScheduler` on its bootstrap path and
//! hands it to every caller, including the interrupt handler. Access is
//! serialized through `&mut self`; an embedder that shares the value between
//! normal and interrupt context must wrap it in its platform's mutual
//! exclusion primitive, held for the whole of an `add` or `switch` — the
//! blocked half of a switch included, so an interrupt handler that wakes
//! processes must not take the same lock, or the system deadlocks.

use vstd::prelude::*;
use crate::process::{Id, Process, State};
use crate::scheduler::{
    empty_model, next_id, select_post, spec_add, spec_wake, switch_post, SchedModel, Scheduler,
    SwitchOutcome,
};
use crate::trap_frame::TrapFrame;

verus! {

/// The two-phase lifecycle of the machine-wide scheduler: no core exists
/// until `initialize` installs one, and the transition happens exactly once —
/// it never reverts.
pub enum CoreState {
    /// No core has been installed yet. Calling `add` or `switch` now is a
    /// programming error, not a runtime condition; callers must rule it out.
    Uninitialized,
    /// The installed core.
    Initialized(Scheduler),
}

/// The machine-wide scheduler facade: guards exactly one scheduler core and
/// tracks whether it has been initialized.
pub struct GlobalScheduler {
    /// The lifecycle phase, together with the core once installed.
    pub core: CoreState,
}

impl GlobalScheduler {
    /// Whether the core has been installed.
    pub open spec fn initialized(&self) -> bool {
        self.core is Initialized
    }

    /// The model of the installed core. Meaningful only once initialized.
    pub open spec fn sched(&self) -> SchedModel
        recommends
            self.initialized(),
    {
        match self.core {
            CoreState::Initialized(s) => s@,
            CoreState::Uninitialized => empty_model(),
        }
    }

    /// An uninitialized wrapper around a local scheduler core.
    pub fn uninitialized() -> (g: GlobalScheduler)
        ensures
            !g.initialized(),
    {
        GlobalScheduler { core: CoreState::Uninitialized }
    }

    /// Whether the core has been installed, for callers that must check
    /// before calling `add` or `switch`.
    pub fn is_initialized(&self) -> (b: bool)
        ensures
            b == self.initialized(),
    {
        match &self.core {
            CoreState::Initialized(_) => true,
            CoreState::Uninitialized => false,
        }
    }

    /// Installs an empty scheduler core: the first half of the bootstrap
    /// path's one-time start-up, after which the initial processes are
    /// registered with `add`. Callable exactly once; the lifecycle never
    /// reverts.
    pub fn initialize(&mut self)
        requires
            !old(self).initialized(),
        ensures
            final(self).initialized(),
            final(self).sched() == empty_model(),
    {
        self.core = CoreState::Initialized(Scheduler::new());
    }

    /// Adds a process to the installed core's queue and returns that
    /// process's newly allocated id, or `None` once the id space is
    /// exhausted. For details see `Scheduler::add`.
    pub fn add(&mut self, process: Process) -> (r: Option<Id>)
        requires
            old(self).initialized(),
        ensures
            final(self).initialized(),
            r == next_id(old(self).sched()),
            r matches Some(id) ==> final(self).sched() == spec_add(old(self).sched(), process, id),
            r is None ==> final(self).sched() == old(self).sched(),
    {
        match &mut self.core {
            CoreState::Initialized(s) => s.add(process),
            CoreState::Uninitialized => {
                proof {
                    assert(false);
                }
                None
            },
        }
    }

    /// Performs a context switch on the installed core: sets the outgoing
    /// process's state to `new_state`, saves `tf` into it, and — when some
    /// process is `Ready` — restores the selected process's snapshot into
    /// `tf`. On `NothingReady` the caller parks and continues through
    /// `resume_switch`. For details see `Scheduler::switch`.
    pub fn switch(&mut self, new_state: State, tf: &mut TrapFrame) -> (r: SwitchOutcome)
        requires
            old(self).initialized(),
        ensures
            final(self).initialized(),
            switch_post(old(self).sched(), final(self).sched(), new_state, *old(tf), *final(tf), r),
    {
        match &mut self.core {
            CoreState::Initialized(s) => s.switch(new_state, tf),
            CoreState::Uninitialized => {
                proof {
                    assert(false);
                }
                SwitchOutcome::Empty
            },
        }
    }

    /// One round of the blocked half of a switch on the installed core. For
    /// details see `Scheduler::resume_switch`.
    pub fn resume_switch(&mut self, wake: Option<Id>, tf: &mut TrapFrame) -> (r: Option<Id>)
        requires
            old(self).initialized(),
        ensures
            final(self).initialized(),
            select_post(
                spec_wake(old(self).sched(), wake),
                final(self).sched(),
                *old(tf),
                *final(tf),
                r,
            ),
    {
        match &mut self.core {
            CoreState::Initialized(s) => s.resume_switch(wake, tf),
            CoreState::Uninitialized => {
                proof {
                    assert(false);
                }
                None
            },
        }
    }
}

} // verus!
