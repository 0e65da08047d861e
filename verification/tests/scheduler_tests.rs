use sched::global::GlobalScheduler;
use sched::process::{Process, Stack, State};
use sched::scheduler::{Scheduler, SwitchOutcome};
use sched::trap_frame::TrapFrame;
use sched::TICK;

fn frame(mark: u64) -> TrapFrame {
    let mut regs = [0u64; 31];
    regs[0] = mark;
    regs[30] = mark.wrapping_mul(3);
    TrapFrame { elr: mark + 1, spsr: mark + 2, sp: mark + 3, tpidr: 0, regs }
}

fn proc_with(state: State, mark: u64) -> Process {
    Process { id: 0, trap_frame: frame(mark), stack: Stack { top: 0x1000 + mark }, state }
}

#[test]
fn sequential_ids() {
    let mut s = Scheduler::new();
    assert_eq!(s.add(proc_with(State::Ready, 10)), Some(0));
    assert_eq!(s.add(proc_with(State::Ready, 20)), Some(1));
    assert_eq!(s.add(proc_with(State::Ready, 30)), Some(2));
    assert_eq!(s.processes.len(), 3);
    for (k, p) in s.processes.iter().enumerate() {
        assert_eq!(p.id, k as u64);
        assert_eq!(p.trap_frame.tpidr, k as u64);
    }
    assert_eq!(s.last_id, Some(2));
}

#[test]
fn first_add_sets_current() {
    let mut s = Scheduler::new();
    assert_eq!(s.current, None);
    s.add(proc_with(State::Ready, 1));
    assert_eq!(s.current, Some(0));
    s.add(proc_with(State::Ready, 2));
    s.add(proc_with(State::Blocked, 3));
    assert_eq!(s.current, Some(0));
}

#[test]
fn add_fails_on_exhaustion() {
    let mut s = Scheduler::new();
    s.last_id = Some(u64::MAX);
    let before_len = s.processes.len();
    assert_eq!(s.add(proc_with(State::Ready, 7)), None);
    assert_eq!(s.processes.len(), before_len);
    assert_eq!(s.last_id, Some(u64::MAX));
    assert_eq!(s.current, None);
}

#[test]
fn switch_on_empty_set_fails() {
    let mut s = Scheduler::new();
    let mut buf = frame(99);
    let untouched = buf;
    assert_eq!(s.switch(State::Ready, &mut buf), SwitchOutcome::Empty);
    assert_eq!(buf, untouched);
    assert_eq!(s.current, None);
    assert_eq!(s.processes.len(), 0);
}

#[test]
fn switch_round_robin_scenario() {
    // add(P0) -> 0 and current == 0; add(P1) -> 1; switch(Ready, buf) with P0
    // Running and P1 Ready: P0 is dequeued, buf saved into it, P0 marked
    // Ready and requeued at the tail; P1 is selected: current == 1, P1's
    // snapshot copied into buf, P1 Running at the head. Set becomes [P1, P0].
    let mut s = Scheduler::new();
    assert_eq!(s.add(proc_with(State::Running, 100)), Some(0));
    assert_eq!(s.current, Some(0));
    assert_eq!(s.add(proc_with(State::Ready, 200)), Some(1));

    let p1_snapshot = s.processes[1].trap_frame;
    let mut buf = frame(555);
    let interrupted = buf;

    assert_eq!(s.switch(State::Ready, &mut buf), SwitchOutcome::Selected(1));
    assert_eq!(s.current, Some(1));
    assert_eq!(buf, p1_snapshot);

    assert_eq!(s.processes.len(), 2);
    assert_eq!(s.processes[0].id, 1);
    assert_eq!(s.processes[0].state, State::Running);
    assert_eq!(s.processes[0].trap_frame, p1_snapshot);
    assert_eq!(s.processes[1].id, 0);
    assert_eq!(s.processes[1].state, State::Ready);
    assert_eq!(s.processes[1].trap_frame, interrupted);
}

#[test]
fn switch_blocks_until_external_wake() {
    // One process, Running, nothing else Ready: the switch saves it Blocked
    // and reports NothingReady; the caller parks. A park round with no
    // wake-up selects nothing. Once the external actor wakes the process, the
    // next round returns it, Running.
    let mut s = Scheduler::new();
    assert_eq!(s.add(proc_with(State::Running, 100)), Some(0));
    let mut buf = frame(777);
    let interrupted = buf;

    assert_eq!(s.switch(State::Blocked, &mut buf), SwitchOutcome::NothingReady);
    assert_eq!(s.processes[0].state, State::Blocked);
    assert_eq!(s.processes[0].trap_frame, interrupted);
    assert_eq!(buf, interrupted);

    assert_eq!(s.resume_switch(None, &mut buf), None);
    assert_eq!(s.processes[0].state, State::Blocked);

    assert_eq!(s.resume_switch(Some(0), &mut buf), Some(0));
    assert_eq!(s.processes[0].state, State::Running);
    assert_eq!(s.current, Some(0));
    assert_eq!(buf, interrupted);
}

#[test]
fn resume_switch_driven_loop_returns_woken_process() {
    // The embedder's blocked-half loop: park, hand the reported wake-up to
    // resume_switch, repeat. Simulates the interrupt handler waking id 1 on
    // the third interrupt.
    let mut s = Scheduler::new();
    s.add(proc_with(State::Running, 1));
    s.add(proc_with(State::Blocked, 2));
    let mut buf = frame(9);

    assert_eq!(s.switch(State::Blocked, &mut buf), SwitchOutcome::NothingReady);
    let wakes = [None, None, Some(1u64)];
    let mut selected = None;
    for wake in wakes {
        selected = s.resume_switch(wake, &mut buf);
        if selected.is_some() {
            break;
        }
    }
    assert_eq!(selected, Some(1));
    assert_eq!(s.processes[0].id, 1);
    assert_eq!(s.processes[0].state, State::Running);
}

#[test]
fn snapshot_round_trip() {
    // The snapshot saved into a process by one switch is exactly the snapshot
    // copied back out when that process is next selected.
    let mut s = Scheduler::new();
    s.add(proc_with(State::Running, 100));
    s.add(proc_with(State::Ready, 200));

    let mut buf = frame(4242);
    let saved_into_p0 = buf;
    assert_eq!(s.switch(State::Ready, &mut buf), SwitchOutcome::Selected(1));
    assert_ne!(buf, saved_into_p0);

    // Next tick: P1 goes to the back Ready, P0 is the first Ready candidate.
    assert_eq!(s.switch(State::Ready, &mut buf), SwitchOutcome::Selected(0));
    assert_eq!(buf, saved_into_p0);
    assert_eq!(s.processes[0].trap_frame, saved_into_p0);
}

#[test]
fn switch_preserves_length() {
    let mut s = Scheduler::new();
    s.add(proc_with(State::Running, 1));
    s.add(proc_with(State::Ready, 2));
    s.add(proc_with(State::Blocked, 3));
    let mut buf = frame(0);
    for _ in 0..5 {
        let before = s.processes.len();
        let r = s.switch(State::Ready, &mut buf);
        assert!(matches!(r, SwitchOutcome::Selected(_)));
        assert_eq!(s.processes.len(), before);
    }
}

#[test]
fn select_ready_finds_first_in_rotating_order() {
    let mut s = Scheduler::new();
    s.add(proc_with(State::Blocked, 1));
    s.add(proc_with(State::Blocked, 2));
    s.add(proc_with(State::Ready, 3));
    s.add(proc_with(State::Ready, 4));
    let mut buf = frame(0);
    assert_eq!(s.select_ready(&mut buf), Some(2));
    // Selected at the head; the scanned-past processes rotated to the tail.
    let order: Vec<u64> = s.processes.iter().map(|p| p.id).collect();
    assert_eq!(order, vec![2, 3, 0, 1]);
    assert_eq!(s.processes[0].state, State::Running);
}

#[test]
fn select_ready_with_nothing_ready_restores_order() {
    let mut s = Scheduler::new();
    s.add(proc_with(State::Blocked, 1));
    s.add(proc_with(State::Running, 2));
    s.add(proc_with(State::Blocked, 3));
    let snapshot: Vec<Process> = s.processes.clone();
    let current = s.current;
    let mut buf = frame(31);
    let untouched = buf;
    assert_eq!(s.select_ready(&mut buf), None);
    assert_eq!(s.processes, snapshot);
    assert_eq!(s.current, current);
    assert_eq!(buf, untouched);
}

#[test]
fn mark_ready_wakes_only_the_named_process() {
    let mut s = Scheduler::new();
    s.add(proc_with(State::Blocked, 1));
    s.add(proc_with(State::Blocked, 2));
    assert!(s.mark_ready(1));
    assert_eq!(s.processes[0].state, State::Blocked);
    assert_eq!(s.processes[1].state, State::Ready);
    assert!(!s.mark_ready(42));
    assert_eq!(s.processes[0].state, State::Blocked);
    assert_eq!(s.processes[1].state, State::Ready);
}

#[test]
fn save_current_saves_whole_snapshot() {
    let mut s = Scheduler::new();
    s.add(proc_with(State::Running, 100));
    s.add(proc_with(State::Ready, 200));
    let interrupted = frame(8);
    let outgoing = s.save_current(State::Blocked, interrupted);
    assert_eq!(outgoing, 0);
    assert_eq!(s.processes[1].id, 0);
    assert_eq!(s.processes[1].trap_frame, interrupted);
    assert_eq!(s.processes[1].state, State::Blocked);
    assert_eq!(s.processes[0].id, 1);
}

#[test]
fn tick_is_ten_thousand() {
    assert_eq!(TICK, 10 * 1000);
}

#[test]
fn process_constructor_sets_entry_and_stack() {
    let p = Process::new(Stack { top: 0xbeef_0000 }, 0x8000);
    assert_eq!(p.trap_frame.elr, 0x8000);
    assert_eq!(p.trap_frame.sp, 0xbeef_0000);
    assert_eq!(p.trap_frame.spsr, 0);
    assert_eq!(p.trap_frame.tpidr, 0);
    assert_eq!(p.id, 0);
    assert_eq!(p.state, State::Ready);
    assert!(p.is_ready());
    assert_eq!(p.get_id(), 0);
}

#[test]
fn zeroed_trap_frame_is_all_zero() {
    let tf = TrapFrame::zeroed();
    assert_eq!(tf.elr, 0);
    assert_eq!(tf.spsr, 0);
    assert_eq!(tf.sp, 0);
    assert_eq!(tf.tpidr, 0);
    assert!(tf.regs.iter().all(|&r| r == 0));
}

#[test]
fn global_scheduler_lifecycle() {
    let mut g = GlobalScheduler::uninitialized();
    assert!(!g.is_initialized());
    g.initialize();
    assert!(g.is_initialized());

    assert_eq!(g.add(proc_with(State::Running, 1)), Some(0));
    assert_eq!(g.add(proc_with(State::Ready, 2)), Some(1));

    let mut buf = frame(5);
    assert_eq!(g.switch(State::Ready, &mut buf), SwitchOutcome::Selected(1));

    // Block both processes in turn; once nothing is Ready the blocked half
    // drives the wake.
    let mut buf2 = frame(6);
    assert_eq!(g.switch(State::Blocked, &mut buf2), SwitchOutcome::Selected(0));
    assert_eq!(g.switch(State::Blocked, &mut buf2), SwitchOutcome::NothingReady);
    assert_eq!(g.resume_switch(Some(0), &mut buf2), Some(0));
}
