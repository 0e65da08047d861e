//! The scheduler core: the ready set, the current-process bookkeeping, the
//! sequential id allocator, and the round-robin context-switch algorithm.

use vstd::prelude::*;
use crate::process::{Id, Process, State};
use crate::trap_frame::TrapFrame;

verus! {

/// The mathematical model of a scheduler core: the ready set in queue order
/// (head first), the id of the currently running process, and the high-water
/// mark of the id allocator.
#[verifier::ext_equal]
pub ghost struct SchedModel {
    /// The ready set, head first. The head is, by convention, the process
    /// that was executing when the last switch completed.
    pub procs: Seq<Process>,
    /// The id of the currently running process, once one exists.
    pub current: Option<Id>,
    /// The most recently allocated id; `None` before the first allocation.
    pub last_id: Option<Id>,
}

/// The model of a freshly constructed core: no processes, no current process,
/// no id allocated yet.
pub open spec fn empty_model() -> SchedModel {
    SchedModel { procs: Seq::empty(), current: None, last_id: None }
}

/// The id the allocator hands out next: 0 before any allocation, the
/// successor of the last id afterwards, and nothing once the id space is
/// exhausted (ids are never reused, so allocation must not wrap).
pub open spec fn next_id(m: SchedModel) -> Option<Id> {
    match m.last_id {
        Option::None => Some(0u64),
        Option::Some(last) => if last == u64::MAX {
            None
        } else {
            Some((last + 1) as u64)
        },
    }
}

/// `p` with `id` stamped into the process and mirrored into its snapshot's
/// identifier field.
pub open spec fn stamped(p: Process, id: Id) -> Process {
    Process {
        id: id,
        trap_frame: TrapFrame { tpidr: id, ..p.trap_frame },
        stack: p.stack,
        state: p.state,
    }
}

/// The model after a successful registration of `p` under the fresh id `id`:
/// the stamped process joins the tail of the ready set, the first
/// registration ever also becomes the current process, and the allocator's
/// high-water mark advances.
pub open spec fn spec_add(m: SchedModel, p: Process, id: Id) -> SchedModel {
    SchedModel {
        procs: m.procs.push(stamped(p, id)),
        current: if m.current is None {
            Some(id)
        } else {
            m.current
        },
        last_id: Some(id),
    }
}

/// The model after the save half of a context switch: the head process — by
/// convention the one that was executing when the interrupt fired — receives
/// the interrupted snapshot `tf` and the caller's target state, and rotates
/// to the tail of the ready set.
pub open spec fn spec_save(m: SchedModel, new_state: State, tf: TrapFrame) -> SchedModel
    recommends
        m.procs.len() > 0,
{
    let saved = Process {
        id: m.procs[0].id,
        trap_frame: tf,
        stack: m.procs[0].stack,
        state: new_state,
    };
    SchedModel {
        procs: m.procs.subrange(1, m.procs.len() as int).push(saved),
        current: m.current,
        last_id: m.last_id,
    }
}

/// The index of the first process at or after position `i` whose state is
/// `Ready`, if any.
pub open spec fn first_ready_from(s: Seq<Process>, i: int) -> Option<int>
    decreases s.len() - i,
{
    if i < 0 || i >= s.len() {
        None
    } else if s[i].state is Ready {
        Some(i)
    } else {
        first_ready_from(s, i + 1)
    }
}

/// The index of the first `Ready` process in queue order, if any: the one the
/// round-robin scan selects.
pub open spec fn first_ready(s: Seq<Process>) -> Option<int> {
    first_ready_from(s, 0)
}

/// The model after the selection half of a context switch, when the first
/// `Ready` process stands at index `i`: that process becomes the current one,
/// is marked `Running`, and is re-inserted at the head — so that the next
/// switch's "head = currently running process" convention holds — while the
/// processes it was scanned past rotate to the tail in order.
pub open spec fn spec_select(m: SchedModel, i: int) -> SchedModel
    recommends
        0 <= i < m.procs.len(),
{
    let n = m.procs.len() as int;
    let sel = m.procs[i];
    let running = Process { id: sel.id, trap_frame: sel.trap_frame, stack: sel.stack, state: State::Running };
    SchedModel {
        procs: seq![running] + m.procs.subrange(i + 1, n) + m.procs.subrange(0, i),
        current: Some(sel.id),
        last_id: m.last_id,
    }
}

/// `p` woken by an external event: the same process, now `Ready`.
pub open spec fn woken(p: Process) -> Process {
    Process { id: p.id, trap_frame: p.trap_frame, stack: p.stack, state: State::Ready }
}

/// The index of the first process in `s` at or after position `i` whose id is
/// `id`, if any.
pub open spec fn find_id_from(s: Seq<Process>, id: Id, i: int) -> Option<int>
    decreases s.len() - i,
{
    if i < 0 || i >= s.len() {
        None
    } else if s[i].id == id {
        Some(i)
    } else {
        find_id_from(s, id, i + 1)
    }
}

/// The index of the first process in `s` with id `id`, if any.
pub open spec fn find_id(s: Seq<Process>, id: Id) -> Option<int> {
    find_id_from(s, id, 0)
}

/// `b` is `a` after zero or more external wake-ups: the same processes in the
/// same order, with the same ids, snapshots and stacks, except that some
/// states may have been flipped to `Ready` by interrupt handlers while the
/// scheduler was parked.
pub open spec fn wakes_of(a: Seq<Process>, b: Seq<Process>) -> bool {
    &&& b.len() == a.len()
    &&& forall|j: int|
        0 <= j < a.len() ==> {
            &&& (#[trigger] b[j]).id == a[j].id
            &&& b[j].trap_frame == a[j].trap_frame
            &&& b[j].stack == a[j].stack
            &&& (b[j].state == a[j].state || b[j].state is Ready)
        }
}

/// The model after the wake-up an interrupt handler reports while the
/// scheduler is parked: the first process with the reported id, if any,
/// becomes `Ready`; everything else — and a report of nobody, or of an
/// unknown id — changes nothing.
pub open spec fn spec_wake(m: SchedModel, wake: Option<Id>) -> SchedModel {
    match wake {
        Option::None => m,
        Option::Some(id) => match find_id(m.procs, id) {
            Option::None => m,
            Option::Some(j) => SchedModel {
                procs: m.procs.update(j, woken(m.procs[j])),
                current: m.current,
                last_id: m.last_id,
            },
        },
    }
}

/// Everything one round of selection guarantees, over the models before and
/// after: when some process is `Ready`, the first one in rotating order is
/// selected and its stored snapshot handed out unaltered; when none is, the
/// full rotation leaves the core and the caller's snapshot exactly as they
/// were.
pub open spec fn select_post(
    pre: SchedModel,
    post: SchedModel,
    tf_in: TrapFrame,
    tf_out: TrapFrame,
    r: Option<Id>,
) -> bool {
    match first_ready(pre.procs) {
        Option::Some(i) => {
            &&& r == Some(pre.procs[i].id)
            &&& post == spec_select(pre, i)
            &&& tf_out == pre.procs[i].trap_frame
        },
        Option::None => {
            &&& r is None
            &&& post == pre
            &&& tf_out == tf_in
        },
    }
}

/// The outcome of a `switch` call.
#[derive(Clone, Copy, PartialEq, Eq, Structural, Debug)]
pub enum SwitchOutcome {
    /// The ready set was empty; the switch failed without touching anything.
    /// This cannot occur once a process has been registered, since a switch
    /// never removes a process.
    Empty,
    /// The named process is now current, marked `Running`, at the head of the
    /// ready set, and its stored snapshot has been copied out into the
    /// caller's buffer — the state the caller resumes into.
    Selected(Id),
    /// The outgoing snapshot was saved, but a full rotation found no `Ready`
    /// process. The caller must park the CPU until an interrupt arrives and
    /// then call `resume_switch` with the wake-up the interrupt's handler
    /// reported, repeating until a process is selected.
    NothingReady,
}

/// Everything a completed `switch` guarantees, over the models before and
/// after the call.
pub open spec fn switch_post(
    pre: SchedModel,
    post: SchedModel,
    new_state: State,
    tf_in: TrapFrame,
    tf_out: TrapFrame,
    r: SwitchOutcome,
) -> bool {
    if pre.procs.len() == 0 {
        &&& r is Empty
        &&& post == pre
        &&& tf_out == tf_in
    } else {
        let m1 = spec_save(pre, new_state, tf_in);
        match first_ready(m1.procs) {
            Option::Some(i) => {
                &&& r == SwitchOutcome::Selected(m1.procs[i].id)
                &&& post == spec_select(m1, i)
                &&& tf_out == m1.procs[i].trap_frame
            },
            Option::None => {
                &&& r is NothingReady
                &&& post == m1
                &&& tf_out == tf_in
            },
        }
    }
}

/// The scheduler core. It owns every registered process; a process, once
/// added, stays in the ready set indefinitely (termination is no concern of
/// this core).
#[derive(Debug)]
pub struct Scheduler {
    /// The ready set: a rotating queue, index 0 the head. Pushes go to the
    /// tail, pops come from the head.
    pub processes: Vec<Process>,
    /// The id of the currently running process, once one exists. It always
    /// names a process present in the ready set.
    pub current: Option<Id>,
    /// The most recently allocated id; monotonically non-decreasing once set.
    pub last_id: Option<Id>,
}

impl View for Scheduler {
    type V = SchedModel;

    open spec fn view(&self) -> SchedModel {
        SchedModel { procs: self.processes@, current: self.current, last_id: self.last_id }
    }
}

impl Scheduler {
    /// A new core with an empty queue.
    pub fn new() -> (s: Scheduler)
        ensures
            s@ == empty_model(),
    {
        let s = Scheduler { processes: Vec::new(), current: None, last_id: None };
        proof {
            assert(s@ =~= empty_model());
        }
        s
    }

    /// Registers a process: allocates the next id, stamps it into the process
    /// and its snapshot, and appends the process to the tail of the ready
    /// set. The first process ever added also becomes the current process —
    /// bookkeeping only; the caller must see to it that this process is the
    /// one actually executing before the first switch. Returns the allocated
    /// id, or `None` — leaving the core untouched — once the id space is
    /// exhausted.
    pub fn add(&mut self, process: Process) -> (r: Option<Id>)
        ensures
            r == next_id(old(self)@),
            r matches Some(id) ==> final(self)@ == spec_add(old(self)@, process, id),
            r is None ==> final(self)@ == old(self)@,
    {
        let id: Id = match self.last_id {
            Some(last) => {
                if last == u64::MAX {
                    return None;
                }
                last + 1
            },
            None => 0,
        };
        let mut p = process;
        p.id = id;
        p.trap_frame.tpidr = id;
        self.processes.push(p);
        if self.current.is_none() {
            self.current = Some(id);
        }
        self.last_id = Some(id);
        proof {
            assert(self@ =~= spec_add(old(self)@, process, id));
        }
        Some(id)
    }

    /// The save half of a context switch: removes the head process — by
    /// convention the one that was executing when the interrupt fired — saves
    /// the interrupted snapshot `tf` into it as a whole-value replacement,
    /// sets its state to `new_state`, and rotates it to the tail. Returns the
    /// outgoing process's id.
    pub fn save_current(&mut self, new_state: State, tf: TrapFrame) -> (id: Id)
        requires
            old(self)@.procs.len() > 0,
        ensures
            final(self)@ == spec_save(old(self)@, new_state, tf),
            id == old(self)@.procs[0].id,
    {
        let mut cur = self.processes.remove(0);
        let id = cur.id;
        cur.trap_frame = tf;
        cur.state = new_state;
        self.processes.push(cur);
        proof {
            assert(self@ =~= spec_save(old(self)@, new_state, tf));
        }
        id
    }

    /// The selection half of a context switch: scans the ready set from the
    /// head in rotating order for the first `Ready` process. When one exists,
    /// it becomes the current process, its stored snapshot is copied out into
    /// `tf` unaltered, it is marked `Running`, and it is re-inserted at the
    /// head; the processes scanned past rotate to the tail in order. When no
    /// process is `Ready`, the scan completes one full rotation and leaves the
    /// core and `tf` exactly as they were.
    #[verifier::loop_isolation(false)]
    pub fn select_ready(&mut self, tf: &mut TrapFrame) -> (r: Option<Id>)
        ensures
            select_post(old(self)@, final(self)@, *old(tf), *final(tf), r),
    {
        let ghost q = self@.procs;
        let n = self.processes.len();
        let mut k: usize = 0;
        proof {
            assert(self@.procs =~= q.subrange(0, n as int) + q.subrange(0, 0));
        }
        while k < n
            invariant
                k <= n,
                self@.procs == q.subrange(k as int, n as int) + q.subrange(0, k as int),
                self@.current == old(self)@.current,
                self@.last_id == old(self)@.last_id,
                *tf == *old(tf),
                forall|j: int| 0 <= j < k ==> !((#[trigger] q[j]).state is Ready),
            decreases n - k,
        {
            if self.processes[0].state == State::Ready {
                let mut p = self.processes.remove(0);
                let id = p.id;
                self.current = Some(id);
                *tf = p.trap_frame;
                p.state = State::Running;
                self.processes.insert(0, p);
                proof {
                    lemma_first_ready_at(q, k as int);
                    assert(self@.procs =~= spec_select(old(self)@, k as int).procs);
                    assert(self@ =~= spec_select(old(self)@, k as int));
                }
                return Some(id);
            }
            let p = self.processes.remove(0);
            self.processes.push(p);
            k = k + 1;
            proof {
                assert(self@.procs =~= q.subrange(k as int, n as int) + q.subrange(0, k as int));
            }
        }
        proof {
            lemma_first_ready_none(q);
            assert(self@.procs =~= q);
            assert(self@ =~= old(self)@);
        }
        None
    }

    /// Marks the process with the given id `Ready`: the wake-up an external
    /// interrupt handler performs when the event a blocked process waits on
    /// arrives. Only the first process with that id changes (ids are unique
    /// once stamped by `add`). Returns whether such a process was found.
    #[verifier::loop_isolation(false)]
    pub fn mark_ready(&mut self, id: Id) -> (found: bool)
        ensures
            final(self)@ == spec_wake(old(self)@, Some(id)),
            found == (find_id(old(self)@.procs, id) is Some),
            wakes_of(old(self)@.procs, final(self)@.procs),
    {
        let ghost q = self@.procs;
        let n = self.processes.len();
        let mut k: usize = 0;
        while k < n
            invariant
                k <= n,
                self@ == old(self)@,
                forall|j: int| 0 <= j < k ==> (#[trigger] q[j]).id != id,
            decreases n - k,
        {
            if self.processes[k].id == id {
                let mut p = self.processes.remove(k);
                p.state = State::Ready;
                self.processes.insert(k, p);
                proof {
                    lemma_find_id_at(q, id, k as int);
                    assert(self@.procs =~= q.update(k as int, woken(q[k as int])));
                    assert(self@ =~= spec_wake(old(self)@, Some(id)));
                    assert(wakes_of(q, self@.procs));
                }
                return true;
            }
            k = k + 1;
        }
        proof {
            lemma_find_id_none(q, id);
            assert(wakes_of(q, q));
        }
        false
    }

    /// A context switch, driven by the periodic preemption interrupt: saves
    /// the interrupted snapshot `tf` into the outgoing head process as a
    /// whole-value replacement, gives it the caller's target state, rotates
    /// it to the tail, and scans round-robin for the first `Ready` process.
    /// On success the selected process becomes current, is marked `Running`,
    /// is re-inserted at the head, and its stored snapshot is copied back out
    /// into `tf` — the state the caller resumes into.
    ///
    /// Returns `Empty` — touching nothing — when the ready set was empty to
    /// begin with, and `NothingReady` when the full rotation found no
    /// eligible process. In the latter case no id can be handed back yet: the
    /// caller must park the CPU until an interrupt arrives (on hardware, a
    /// low-power wait instruction) and then call `resume_switch` with the
    /// wake-up that the interrupt's handler reported, as often as it takes.
    /// The embedder's lock around the scheduler stays held while the CPU is
    /// parked, so a handler that wakes processes must not take that lock.
    pub fn switch(&mut self, new_state: State, tf: &mut TrapFrame) -> (r: SwitchOutcome)
        ensures
            switch_post(old(self)@, final(self)@, new_state, *old(tf), *final(tf), r),
    {
        if self.processes.len() == 0 {
            return SwitchOutcome::Empty;
        }
        let saved: TrapFrame = *tf;
        let _outgoing = self.save_current(new_state, saved);
        match self.select_ready(tf) {
            Some(id) => SwitchOutcome::Selected(id),
            None => SwitchOutcome::NothingReady,
        }
    }

    /// One round of the blocked half of a switch, called after each park once
    /// `switch` has answered `NothingReady`: applies the wake-up the
    /// interrupt's handler reported, if any, and rescans for a `Ready`
    /// process exactly as `switch` does. `Some(id)` selects that process — it
    /// is now current, `Running`, at the head, its snapshot copied out into
    /// `tf` — and ends the switch; `None` means the caller parks again.
    pub fn resume_switch(&mut self, wake: Option<Id>, tf: &mut TrapFrame) -> (r: Option<Id>)
        ensures
            select_post(spec_wake(old(self)@, wake), final(self)@, *old(tf), *final(tf), r),
    {
        match wake {
            Some(id) => {
                let _found = self.mark_ready(id);
            },
            None => {},
        }
        self.select_ready(tf)
    }
}

/// If everything before `k` is not `Ready` and `s[k]` is, then `k` is the
/// first `Ready` index.
proof fn lemma_first_ready_from_at(s: Seq<Process>, i: int, k: int)
    requires
        0 <= i <= k < s.len(),
        forall|j: int| i <= j < k ==> !((#[trigger] s[j]).state is Ready),
        s[k].state is Ready,
    ensures
        first_ready_from(s, i) == Some(k),
    decreases k - i,
{
    if i < k {
        lemma_first_ready_from_at(s, i + 1, k);
    }
}

proof fn lemma_first_ready_at(s: Seq<Process>, k: int)
    requires
        0 <= k < s.len(),
        forall|j: int| 0 <= j < k ==> !((#[trigger] s[j]).state is Ready),
        s[k].state is Ready,
    ensures
        first_ready(s) == Some(k),
{
    lemma_first_ready_from_at(s, 0, k);
}

/// If no process at or after `i` is `Ready`, the scan from `i` finds nothing.
proof fn lemma_first_ready_from_none(s: Seq<Process>, i: int)
    requires
        forall|j: int| i <= j < s.len() ==> !((#[trigger] s[j]).state is Ready),
    ensures
        first_ready_from(s, i) is None,
    decreases s.len() - i,
{
    if 0 <= i && i < s.len() {
        lemma_first_ready_from_none(s, i + 1);
    }
}

proof fn lemma_first_ready_none(s: Seq<Process>)
    requires
        forall|j: int| 0 <= j < s.len() ==> !((#[trigger] s[j]).state is Ready),
    ensures
        first_ready(s) is None,
{
    lemma_first_ready_from_none(s, 0);
}

/// If everything before `k` has another id and `s[k]` has id `id`, then `k`
/// is the first index with that id.
proof fn lemma_find_id_from_at(s: Seq<Process>, id: Id, i: int, k: int)
    requires
        0 <= i <= k < s.len(),
        forall|j: int| i <= j < k ==> (#[trigger] s[j]).id != id,
        s[k].id == id,
    ensures
        find_id_from(s, id, i) == Some(k),
    decreases k - i,
{
    if i < k {
        lemma_find_id_from_at(s, id, i + 1, k);
    }
}

proof fn lemma_find_id_at(s: Seq<Process>, id: Id, k: int)
    requires
        0 <= k < s.len(),
        forall|j: int| 0 <= j < k ==> (#[trigger] s[j]).id != id,
        s[k].id == id,
    ensures
        find_id(s, id) == Some(k),
{
    lemma_find_id_from_at(s, id, 0, k);
}

proof fn lemma_find_id_from_none(s: Seq<Process>, id: Id, i: int)
    requires
        forall|j: int| i <= j < s.len() ==> (#[trigger] s[j]).id != id,
    ensures
        find_id_from(s, id, i) is None,
    decreases s.len() - i,
{
    if 0 <= i && i < s.len() {
        lemma_find_id_from_none(s, id, i + 1);
    }
}

proof fn lemma_find_id_none(s: Seq<Process>, id: Id)
    requires
        forall|j: int| 0 <= j < s.len() ==> (#[trigger] s[j]).id != id,
    ensures
        find_id(s, id) is None,
{
    lemma_find_id_from_none(s, id, 0);
}

} // verus!
