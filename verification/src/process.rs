//! Processes: the unit the scheduler manages — an identifier, a saved
//! execution snapshot, an exclusively-owned stack, and a lifecycle state.

use vstd::prelude::*;
use crate::trap_frame::TrapFrame;

verus! {

/// A process identifier: unique for the lifetime of the system, assigned
/// sequentially starting at 0, never reused.
pub type Id = u64;

/// The lifecycle state of a process.
#[derive(Clone, Copy, PartialEq, Eq, Structural, Debug)]
pub enum State {
    /// Eligible to be selected by the scheduler.
    Ready,
    /// Currently owns the CPU.
    Running,
    /// Waiting on an external event; skipped by the scheduler until an
    /// interrupt handler marks it `Ready` again.
    Blocked,
}

/// A process's exclusively-owned stack region, described by the address of
/// its top. Allocation of the region itself is the bootstrap collaborator's
/// concern; the scheduler only carries the region with the process.
#[derive(Clone, Copy, PartialEq, Eq, Debug)]
pub struct Stack {
    /// The address of the top of the region: the initial stack pointer.
    pub top: u64,
}

/// A process. Fully owned by exactly one container at a time: the ready set
/// or, transiently, a local variable during a switch.
#[derive(Clone, Copy, PartialEq, Eq, Debug)]
pub struct Process {
    /// The identifier; pending (0) until the scheduler stamps it on `add`,
    /// immutable afterwards.
    pub id: Id,
    /// The saved machine state this process resumes from.
    pub trap_frame: TrapFrame,
    /// The exclusively-owned stack region.
    pub stack: Stack,
    /// The lifecycle state.
    pub state: State,
}

impl Process {
    /// A fresh process that will begin executing at `entry` on the given
    /// stack, at the least-privileged execution level with interrupts
    /// unmasked (a zeroed `spsr`), in state `Ready`, its id still pending.
    pub fn new(stack: Stack, entry: u64) -> (p: Process)
        ensures
            p.id == 0,
            p.state is Ready,
            p.stack == stack,
            p.trap_frame.elr == entry,
            p.trap_frame.sp == stack.top,
            p.trap_frame.spsr == 0,
            p.trap_frame.tpidr == 0,
    {
        let mut tf = TrapFrame::zeroed();
        tf.elr = entry;
        tf.sp = stack.top;
        Process { id: 0, trap_frame: tf, stack: stack, state: State::Ready }
    }

    /// The id stamped into this process.
    pub fn get_id(&self) -> (id: Id)
        ensures
            id == self.id,
    {
        self.id
    }

    /// Whether this process is eligible to be selected to run.
    pub fn is_ready(&self) -> (r: bool)
        ensures
            r == (self.state is Ready),
    {
        self.state == State::Ready
    }
}

} // verus!
