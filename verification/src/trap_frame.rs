//! The execution snapshot: the complete saved machine state of a suspended
//! process, sufficient to resume it exactly where it left off.

use vstd::prelude::*;

verus! {

/// A fixed-layout record of a suspended process's machine state.
///
/// Snapshots are copied by value on save and restore; the scheduler never
/// mutates one in place except as a whole-value replacement.
#[derive(Clone, Copy, PartialEq, Eq, Debug)]
pub struct TrapFrame {
    /// Saved program counter: execution resumes at this address.
    pub elr: u64,
    /// Saved processor state: execution level and interrupt-mask flags.
    pub spsr: u64,
    /// Saved stack pointer.
    pub sp: u64,
    /// Mirrors the owning process's id, so the raw snapshot can identify its
    /// process independent of the containing `Process`.
    pub tpidr: u64,
    /// Saved general-purpose registers.
    pub regs: [u64; 31],
}

impl TrapFrame {
    /// A zeroed snapshot, the starting point for a fresh process.
    pub fn zeroed() -> (tf: TrapFrame)
        ensures
            tf.elr == 0,
            tf.spsr == 0,
            tf.sp == 0,
            tf.tpidr == 0,
            forall|i: int| 0 <= i < 31 ==> tf.regs@[i] == 0,
    {
        TrapFrame { elr: 0, spsr: 0, sp: 0, tpidr: 0, regs: [0u64; 31] }
    }
}

} // verus!
