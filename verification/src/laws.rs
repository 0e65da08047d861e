//! The library-wide scheduling laws, stated and proved over the models that
//! the executable functions are specified against.

use vstd::prelude::*;
use crate::process::{Id, Process, State};
use crate::scheduler::{
    empty_model, find_id, find_id_from, first_ready, first_ready_from, next_id, select_post,
    spec_add, spec_save, spec_select, spec_wake, switch_post, wakes_of, SchedModel,
    SwitchOutcome,
};
use crate::trap_frame::TrapFrame;

verus! {

/// The model after registering each process of `ps` in order: a run of `add`
/// calls. A failed registration (exhausted id space) leaves the model
/// untouched, exactly as `add` does.
pub open spec fn spec_add_seq(m: SchedModel, ps: Seq<Process>) -> SchedModel
    decreases ps.len(),
{
    if ps.len() == 0 {
        m
    } else {
        match next_id(m) {
            Option::None => spec_add_seq(m, ps.drop_first()),
            Option::Some(id) => spec_add_seq(spec_add(m, ps[0], id), ps.drop_first()),
        }
    }
}

/// How many ids have been allocated so far.
pub open spec fn id_count(m: SchedModel) -> int {
    match m.last_id {
        Option::None => 0,
        Option::Some(l) => l + 1,
    }
}

/// A run of registrations that stays below the id space's bound allocates one
/// id per process and never disturbs `current` once it is set.
proof fn lemma_add_seq_count(m: SchedModel, ps: Seq<Process>)
    requires
        id_count(m) + ps.len() <= u64::MAX as int + 1,
    ensures
        id_count(spec_add_seq(m, ps)) == id_count(m) + ps.len(),
        m.current is Some ==> spec_add_seq(m, ps).current == m.current,
    decreases ps.len(),
{
    if ps.len() > 0 {
        let id = (id_count(m) as u64);
        assert(next_id(m) == Some(id));
        lemma_add_seq_count(spec_add(m, ps[0], id), ps.drop_first());
    }
}

/// Sequential allocation: starting from a fresh core, a run of `add` calls
/// with no exhaustion hands out the ids 0, 1, 2, … in call order — the id
/// allocated at step `k` is exactly `k`, so there are no gaps and no repeats.
pub proof fn lemma_sequential_allocation(ps: Seq<Process>, k: int)
    requires
        0 <= k < ps.len(),
        ps.len() <= u64::MAX as int + 1,
    ensures
        next_id(spec_add_seq(empty_model(), ps.take(k))) == Some(k as u64),
{
    lemma_add_seq_count(empty_model(), ps.take(k));
}

/// First-process bookkeeping, one step: the first successful `add` records
/// the new process's id as current; once current is set, an `add` leaves it
/// alone.
pub proof fn lemma_first_add_sets_current(m: SchedModel, p: Process, id: Id)
    ensures
        m.current is None ==> spec_add(m, p, id).current == Some(id),
        m.current is Some ==> spec_add(m, p, id).current == m.current,
{
}

/// First-process bookkeeping, whole run: after any non-empty, non-exhausted
/// run of `add` calls on a fresh core, `current` is the first process's id, 0
/// — unaffected by all the later calls.
pub proof fn lemma_current_after_adds(ps: Seq<Process>)
    requires
        1 <= ps.len() <= u64::MAX as int + 1,
    ensures
        spec_add_seq(empty_model(), ps).current == Some(0u64),
{
    let m1 = spec_add(empty_model(), ps[0], 0u64);
    assert(next_id(empty_model()) == Some(0u64));
    lemma_add_seq_count(m1, ps.drop_first());
}

/// What the round-robin scan points at: when it finds an index, that index is
/// in range, the process there is `Ready`, and no earlier process is — it is
/// the first in rotating order. And it finds one exactly when some process is
/// `Ready`: a single bounded pass suffices, so a switch that starts with a
/// `Ready` candidate in the set selects one without ever parking the CPU.
pub proof fn lemma_ready_scan_complete(s: Seq<Process>)
    ensures
        first_ready(s) matches Some(i) ==> {
            &&& 0 <= i < s.len()
            &&& s[i].state is Ready
            &&& forall|j: int| 0 <= j < i ==> !((#[trigger] s[j]).state is Ready)
        },
        (first_ready(s) is Some) <==> (exists|i: int|
            0 <= i < s.len() && (#[trigger] s[i]).state is Ready),
{
    lemma_first_ready_from_sound(s, 0);
    if exists|i: int| 0 <= i < s.len() && (#[trigger] s[i]).state is Ready {
        let w = choose|i: int| 0 <= i < s.len() && (#[trigger] s[i]).state is Ready;
        if first_ready(s) is None {
            assert(!(s[w].state is Ready));
        }
    }
}

proof fn lemma_first_ready_from_sound(s: Seq<Process>, lo: int)
    requires
        0 <= lo,
    ensures
        first_ready_from(s, lo) matches Some(i) ==> {
            &&& lo <= i < s.len()
            &&& s[i].state is Ready
            &&& forall|j: int| lo <= j < i ==> !((#[trigger] s[j]).state is Ready)
        },
        first_ready_from(s, lo) is None ==> forall|j: int|
            lo <= j < s.len() ==> !((#[trigger] s[j]).state is Ready),
    decreases s.len() - lo,
{
    if lo < s.len() && !(s[lo].state is Ready) {
        lemma_first_ready_from_sound(s, lo + 1);
    }
}

proof fn lemma_find_id_from_sound(s: Seq<Process>, id: Id, lo: int)
    requires
        0 <= lo,
    ensures
        find_id_from(s, id, lo) matches Some(j) ==> lo <= j < s.len() && s[j].id == id,
        find_id_from(s, id, lo) is None ==> forall|j: int|
            lo <= j < s.len() ==> (#[trigger] s[j]).id != id,
    decreases s.len() - lo,
{
    if lo < s.len() && s[lo].id != id {
        lemma_find_id_from_sound(s, id, lo + 1);
    }
}

/// Liveness with a `Ready` candidate: when, at the moment `switch` is called,
/// some process behind the head is `Ready` — or the outgoing process itself
/// is sent back `Ready` — the single bounded scan selects a process: the call
/// completes without the CPU ever being parked.
pub proof fn lemma_switch_with_ready_candidate(
    pre: SchedModel,
    post: SchedModel,
    new_state: State,
    tf_in: TrapFrame,
    tf_out: TrapFrame,
    r: SwitchOutcome,
)
    requires
        switch_post(pre, post, new_state, tf_in, tf_out, r),
        pre.procs.len() > 0,
        (new_state is Ready) || exists|i: int|
            1 <= i < pre.procs.len() && (#[trigger] pre.procs[i]).state is Ready,
    ensures
        r is Selected,
{
    let m1 = spec_save(pre, new_state, tf_in);
    let n = pre.procs.len() as int;
    if new_state is Ready {
        assert(m1.procs[n - 1].state is Ready);
    } else {
        let i = choose|i: int| 1 <= i < n && (#[trigger] pre.procs[i]).state is Ready;
        assert(m1.procs[i - 1] == pre.procs[i]);
    }
    lemma_ready_scan_complete(m1.procs);
}

/// Blocking-until-ready, the waking direction: once the interrupt handler
/// reports a wake-up of a process that is present in the ready set, the very
/// next blocked-half round selects some process and the switch completes —
/// the scheduler does not stay parked past the wake-up.
pub proof fn lemma_resume_after_wake_selects(
    pre: SchedModel,
    post: SchedModel,
    id: Id,
    tf_in: TrapFrame,
    tf_out: TrapFrame,
    r: Option<Id>,
)
    requires
        select_post(spec_wake(pre, Some(id)), post, tf_in, tf_out, r),
        exists|j: int| 0 <= j < pre.procs.len() && (#[trigger] pre.procs[j]).id == id,
    ensures
        r is Some,
{
    lemma_find_id_from_sound(pre.procs, id, 0);
    let m1 = spec_wake(pre, Some(id));
    match find_id(pre.procs, id) {
        Option::Some(j) => {
            assert(m1.procs[j].state is Ready);
            lemma_ready_scan_complete(m1.procs);
        },
        Option::None => {
            let j = choose|j: int| 0 <= j < pre.procs.len() && (#[trigger] pre.procs[j]).id == id;
            assert(pre.procs[j].id != id);
        },
    }
}

/// Length invariance: a completed switch leaves exactly as many processes in
/// the ready set as it found — whatever its outcome, it never drops or
/// duplicates a process. By induction over the calls, the length after any
/// run of switches equals the length before it.
pub proof fn lemma_switch_preserves_len(
    pre: SchedModel,
    post: SchedModel,
    new_state: State,
    tf_in: TrapFrame,
    tf_out: TrapFrame,
    r: SwitchOutcome,
)
    requires
        switch_post(pre, post, new_state, tf_in, tf_out, r),
    ensures
        post.procs.len() == pre.procs.len(),
{
    if pre.procs.len() > 0 {
        let m1 = spec_save(pre, new_state, tf_in);
        lemma_ready_scan_complete(m1.procs);
    }
}

/// Length invariance for the blocked half: each park-and-rescan round
/// preserves the length of the ready set as well.
pub proof fn lemma_resume_preserves_len(
    pre: SchedModel,
    post: SchedModel,
    wake: Option<Id>,
    tf_in: TrapFrame,
    tf_out: TrapFrame,
    r: Option<Id>,
)
    requires
        select_post(spec_wake(pre, wake), post, tf_in, tf_out, r),
    ensures
        post.procs.len() == pre.procs.len(),
{
    lemma_wake_preserves_snapshots(pre, wake);
    lemma_ready_scan_complete(spec_wake(pre, wake).procs);
}

/// Blocking-until-ready: when a selection round returns an id, the process it
/// hands back was `Ready` at the instant it was selected, and when the call
/// returns it is marked `Running`, stands at the head, and is recorded as the
/// current process; the snapshot handed out is its stored one.
pub proof fn lemma_selected_was_ready(
    pre: SchedModel,
    post: SchedModel,
    tf_in: TrapFrame,
    tf_out: TrapFrame,
    id: Id,
)
    requires
        select_post(pre, post, tf_in, tf_out, Some(id)),
    ensures
        post.procs.len() == pre.procs.len(),
        post.procs.len() > 0,
        post.procs[0].id == id,
        post.procs[0].state is Running,
        post.current == Some(id),
        exists|i: int|
            {
                &&& 0 <= i < pre.procs.len()
                &&& (#[trigger] pre.procs[i]).id == id
                &&& pre.procs[i].state is Ready
                &&& tf_out == pre.procs[i].trap_frame
                &&& post.procs[0].trap_frame == pre.procs[i].trap_frame
            },
{
    lemma_ready_scan_complete(pre.procs);
    let i = first_ready(pre.procs)->Some_0;
    assert({
        &&& 0 <= i < pre.procs.len()
        &&& (pre.procs[i]).id == id
        &&& pre.procs[i].state is Ready
        &&& tf_out == pre.procs[i].trap_frame
        &&& post.procs[0].trap_frame == pre.procs[i].trap_frame
    });
}

/// Snapshot round-trip, save half: the save stores the caller's snapshot into
/// the outgoing process bit for bit — its id and stack untouched, its state
/// as requested — at the tail of the ready set.
pub proof fn lemma_save_stores_snapshot(m: SchedModel, st: State, tf0: TrapFrame)
    requires
        m.procs.len() > 0,
    ensures
        spec_save(m, st, tf0).procs.len() == m.procs.len(),
        spec_save(m, st, tf0).procs.last() == (Process {
            id: m.procs[0].id,
            trap_frame: tf0,
            stack: m.procs[0].stack,
            state: st,
        }),
{
}

/// Snapshot round-trip, restore half: the selection that next picks a process
/// hands its stored snapshot out unaltered, and keeps it stored unaltered at
/// the head — what a prior switch saved is exactly what the caller resumes
/// into.
pub proof fn lemma_select_restores_snapshot(m: SchedModel, i: int)
    requires
        first_ready(m.procs) == Some(i),
    ensures
        0 <= i < m.procs.len(),
        spec_select(m, i).procs[0].id == m.procs[i].id,
        spec_select(m, i).procs[0].trap_frame == m.procs[i].trap_frame,
{
    lemma_ready_scan_complete(m.procs);
}

/// Snapshot round-trip, the rounds in between: a wake-up alters no stored
/// snapshot — every process keeps its place, id, stack and snapshot; at most
/// one state flips to `Ready`.
pub proof fn lemma_wake_preserves_snapshots(m: SchedModel, wake: Option<Id>)
    ensures
        spec_wake(m, wake).procs.len() == m.procs.len(),
        wakes_of(m.procs, spec_wake(m, wake).procs),
{
    match wake {
        Option::None => {},
        Option::Some(id) => {
            match find_id(m.procs, id) {
                Option::None => {},
                Option::Some(j) => {
                    lemma_find_id_from_sound(m.procs, id, 0);
                },
            }
        },
    }
}

/// No two processes share an id.
pub open spec fn ids_unique(s: Seq<Process>) -> bool {
    forall|i: int, j: int|
        0 <= i < s.len() && 0 <= j < s.len() && i != j ==> (#[trigger] s[i]).id != (
        #[trigger] s[j]).id
}

/// Every id in the ready set has been allocated: none exceeds the high-water
/// mark, and none exists before the first allocation.
pub open spec fn ids_bounded(s: Seq<Process>, last_id: Option<Id>) -> bool {
    forall|i: int|
        0 <= i < s.len() ==> (last_id matches Some(l) && (#[trigger] s[i]).id <= l)
}

/// Well-formedness of a scheduler core between calls: ids are unique and
/// dominated by the allocator's high-water mark (so a freshly allocated id
/// never collides); once a process exists, some process is recorded as
/// current; `current`, once set, names the id of a process present in the
/// ready set; and at most one process is `Running` — and only at the head,
/// where the switch convention expects the process that owns the CPU.
pub open spec fn wf(m: SchedModel) -> bool {
    &&& ids_unique(m.procs)
    &&& ids_bounded(m.procs, m.last_id)
    &&& (m.procs.len() > 0 ==> m.current is Some)
    &&& (m.current matches Some(c) ==> exists|i: int|
        0 <= i < m.procs.len() && (#[trigger] m.procs[i]).id == c)
    &&& (forall|i: int| 0 < i < m.procs.len() ==> !((#[trigger] m.procs[i]).state is Running))
}

/// A fresh core is well-formed.
pub proof fn lemma_new_wf()
    ensures
        wf(empty_model()),
{
}

/// The allocator's high-water mark never decreases: each successful `add`
/// advances it by exactly one, and the very first allocation is id 0.
pub proof fn lemma_last_id_monotone(m: SchedModel, p: Process, id: Id)
    requires
        next_id(m) == Some(id),
    ensures
        spec_add(m, p, id).last_id == Some(id),
        m.last_id matches Some(l) ==> id == l + 1,
        m.last_id is None ==> id == 0,
{
}

/// Registration preserves well-formedness: the fresh id exceeds every id in
/// the set, so uniqueness and the bound survive; the first registration sets
/// `current` to a present process. A `Running` process may only be registered
/// into an empty core — the convention that the head is the one process that
/// owns the CPU.
pub proof fn lemma_add_preserves_wf(m: SchedModel, p: Process, id: Id)
    requires
        wf(m),
        next_id(m) == Some(id),
        p.state is Running ==> m.procs.len() == 0,
    ensures
        wf(spec_add(m, p, id)),
{
    let post = spec_add(m, p, id);
    let n = m.procs.len() as int;
    assert(forall|i: int| 0 <= i < n ==> (#[trigger] m.procs[i]).id < id);
    assert(forall|i: int| 0 <= i < n ==> post.procs[i] == m.procs[i]);
    assert(post.procs[n].id == id);
    match m.current {
        Option::Some(c) => {
            let w = choose|i: int| 0 <= i < n && (#[trigger] m.procs[i]).id == c;
            assert(post.procs[w].id == c);
        },
        Option::None => {
            assert(post.procs[n].id == id);
        },
    }
}

/// A completed switch preserves well-formedness, provided the caller does not
/// ask for the outgoing process to be recorded as still `Running` (the target
/// state is what the process becomes after losing the CPU). On `Selected`
/// the selected process is the unique `Running` one, at the head; on
/// `NothingReady` no process at all is `Running` — the core is parked.
pub proof fn lemma_switch_preserves_wf(
    pre: SchedModel,
    post: SchedModel,
    new_state: State,
    tf_in: TrapFrame,
    tf_out: TrapFrame,
    r: SwitchOutcome,
)
    requires
        wf(pre),
        !(new_state is Running),
        switch_post(pre, post, new_state, tf_in, tf_out, r),
    ensures
        wf(post),
        r is NothingReady ==> forall|i: int|
            0 <= i < post.procs.len() ==> !((#[trigger] post.procs[i]).state is Running),
{
    if pre.procs.len() > 0 {
        let m1 = spec_save(pre, new_state, tf_in);
        lemma_save_preserves_wf(pre, new_state, tf_in);
        lemma_ready_scan_complete(m1.procs);
        match first_ready(m1.procs) {
            Option::Some(i) => {
                lemma_select_from_parked_wf(m1, i);
            },
            Option::None => {},
        }
    }
}

/// One blocked-half round preserves well-formedness of a parked core (one in
/// which no process is `Running`, as `switch` leaves it on `NothingReady`):
/// either nothing was selected and the core is still parked, or the selected
/// process is the unique `Running` one, at the head, recorded as current.
pub proof fn lemma_resume_preserves_wf(
    pre: SchedModel,
    post: SchedModel,
    wake: Option<Id>,
    tf_in: TrapFrame,
    tf_out: TrapFrame,
    r: Option<Id>,
)
    requires
        wf(pre),
        forall|i: int| 0 <= i < pre.procs.len() ==> !((#[trigger] pre.procs[i]).state is Running),
        select_post(spec_wake(pre, wake), post, tf_in, tf_out, r),
    ensures
        wf(post),
        r is None ==> forall|i: int|
            0 <= i < post.procs.len() ==> !((#[trigger] post.procs[i]).state is Running),
{
    let m1 = spec_wake(pre, wake);
    lemma_wake_preserves_snapshots(pre, wake);
    lemma_wake_preserves_wf(pre, wake);
    lemma_ready_scan_complete(m1.procs);
    match first_ready(m1.procs) {
        Option::Some(i) => {
            lemma_select_from_parked_wf(m1, i);
        },
        Option::None => {},
    }
}

/// The save half preserves well-formedness and leaves no process `Running`:
/// the outgoing head — the only process that may have been `Running` — takes
/// the caller's non-`Running` target state on its way to the tail.
proof fn lemma_save_preserves_wf(m: SchedModel, new_state: State, tf: TrapFrame)
    requires
        wf(m),
        !(new_state is Running),
        m.procs.len() > 0,
    ensures
        wf(spec_save(m, new_state, tf)),
        forall|i: int|
            0 <= i < spec_save(m, new_state, tf).procs.len() ==> !((#[trigger] spec_save(
                m,
                new_state,
                tf,
            ).procs[i]).state is Running),
{
    let post = spec_save(m, new_state, tf);
    let n = m.procs.len() as int;
    assert(forall|x: int| 0 <= x < n - 1 ==> post.procs[x] == m.procs[x + 1]);
    assert(post.procs[n - 1].id == m.procs[0].id);
    assert(ids_unique(post.procs)) by {
        assert forall|i: int, j: int|
            0 <= i < n && 0 <= j < n && i != j implies (#[trigger] post.procs[i]).id != (
        #[trigger] post.procs[j]).id by {
            let si = if i == n - 1 { 0int } else { i + 1 };
            let sj = if j == n - 1 { 0int } else { j + 1 };
            assert(post.procs[i].id == m.procs[si].id);
            assert(post.procs[j].id == m.procs[sj].id);
        }
    }
    match m.current {
        Option::Some(c) => {
            let w = choose|i: int| 0 <= i < n && (#[trigger] m.procs[i]).id == c;
            if w == 0 {
                assert(post.procs[n - 1].id == c);
            } else {
                assert(post.procs[w - 1].id == c);
            }
        },
        Option::None => {},
    }
}

/// A wake-up preserves well-formedness of a parked core and wakes nothing
/// into `Running`.
proof fn lemma_wake_preserves_wf(m: SchedModel, wake: Option<Id>)
    requires
        wf(m),
        forall|i: int| 0 <= i < m.procs.len() ==> !((#[trigger] m.procs[i]).state is Running),
    ensures
        wf(spec_wake(m, wake)),
        forall|i: int|
            0 <= i < spec_wake(m, wake).procs.len() ==> !((#[trigger] spec_wake(
                m,
                wake,
            ).procs[i]).state is Running),
{
    let post = spec_wake(m, wake);
    lemma_wake_preserves_snapshots(m, wake);
    assert(forall|i: int|
        0 <= i < m.procs.len() ==> (#[trigger] post.procs[i]).id == m.procs[i].id);
    match m.current {
        Option::Some(c) => {
            let w = choose|i: int| 0 <= i < m.procs.len() && (#[trigger] m.procs[i]).id == c;
            assert(post.procs[w].id == c);
        },
        Option::None => {},
    }
}

/// Selecting the first `Ready` process of a parked core (no process
/// `Running`) yields a well-formed core whose unique `Running` process stands
/// at the head, recorded as current.
proof fn lemma_select_from_parked_wf(m: SchedModel, i: int)
    requires
        wf(m),
        forall|x: int| 0 <= x < m.procs.len() ==> !((#[trigger] m.procs[x]).state is Running),
        first_ready(m.procs) == Some(i),
    ensures
        wf(spec_select(m, i)),
        spec_select(m, i).procs[0].state is Running,
{
    lemma_ready_scan_complete(m.procs);
    lemma_select_is_rotation(m, i);
    let post = spec_select(m, i);
    let n = m.procs.len() as int;
    // where each post position came from in m
    let src = |x: int| if x == 0 { i } else if x < n - i { x + i } else { x - (n - i) };
    assert forall|x: int| 0 <= x < n implies (#[trigger] post.procs[x]).id == m.procs[src(x)].id
        && 0 <= src(x) < n && (x != 0 ==> post.procs[x] == m.procs[src(x)]) by {
        if x == 0 {
        } else if x < n - i {
            assert(post.procs[x] == m.procs[x + i]);
        } else {
            assert(post.procs[(n - i) + (x - (n - i))] == m.procs[x - (n - i)]);
        }
    }
    assert(ids_unique(post.procs)) by {
        assert forall|a: int, b: int|
            0 <= a < n && 0 <= b < n && a != b implies (#[trigger] post.procs[a]).id != (
        #[trigger] post.procs[b]).id by {
            assert(src(a) != src(b));
        }
    }
    assert(post.procs[0].id == m.procs[i].id);
}

/// Snapshot round-trip, the rounds in between: a selection is a rotation — the
/// selected process moves to the head (only its state changes, to `Running`),
/// every process scanned past keeps its id, stack, state and snapshot and
/// rotates to the tail in order, and everything behind the selected process
/// shifts forward unchanged. No snapshot is altered anywhere.
pub proof fn lemma_select_is_rotation(m: SchedModel, i: int)
    requires
        0 <= i < m.procs.len(),
    ensures
        spec_select(m, i).procs.len() == m.procs.len(),
        spec_select(m, i).procs[0] == (Process {
            id: m.procs[i].id,
            trap_frame: m.procs[i].trap_frame,
            stack: m.procs[i].stack,
            state: State::Running,
        }),
        forall|j: int|
            i < j < m.procs.len() ==> #[trigger] spec_select(m, i).procs[j - i] == m.procs[j],
        forall|j: int|
            0 <= j < i ==> #[trigger] spec_select(
                m,
                i,
            ).procs[m.procs.len() - i + j] == m.procs[j],
{
}

} // verus!
