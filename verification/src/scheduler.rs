use vstd::prelude::*;

use crate::process::{
    dispatch_on, dispatch_post, get_process_iterator_start, iterator_start, sched_state, slot_or_none, Fault,
    Kernel, KernelBlock, Outcome, ProcessState, SchedState, PCB, MAX_PROCESS_COUNT, NO_PROCESS_RUNNING,
};
use crate::{fault_cells, show_fault, Console};

verus! {

/// The scheduler picks process `p`'s slot: `p` has an instruction pointer.
/// Its state is not looked at; a blocked process picked this way stops the
/// kernel when it is dispatched.
pub open spec fn runnable(p: PCB) -> bool {
    p.eip != 0
}

/// The process the round-robin scan picks when it looks at positions `i`,
/// `i + 1`, ... up to twice the number of slots, position `j` standing for
/// slot `j % MAX_PROCESS_COUNT`: the first with an instruction pointer.
pub open spec fn first_runnable_from(pcbs: Seq<PCB>, i: int) -> Option<u32>
    decreases 2 * MAX_PROCESS_COUNT - i,
{
    if i < 0 || i >= 2 * MAX_PROCESS_COUNT {
        None
    } else if runnable(pcbs[i % MAX_PROCESS_COUNT as int]) {
        Some((i % MAX_PROCESS_COUNT as int) as u32)
    } else {
        first_runnable_from(pcbs, i + 1)
    }
}

/// The process that `reschedule` dispatches, if any.
pub open spec fn next_runnable(pcbs: Seq<PCB>, kcb: KernelBlock) -> Option<u32> {
    first_runnable_from(pcbs, iterator_start(kcb))
}

/// `reschedule` takes the state `s` to `t` with outcome `out`.
pub open spec fn schedule_post(s: SchedState, t: SchedState, kernel_cr3: u64, out: Outcome) -> bool {
    match next_runnable(s.0, s.1) {
        None => {
            &&& t.0 == s.0
            &&& t.1 == s.1
            &&& t.2 == s.2
            &&& t.3 == fault_cells(s.3, Fault::NothingToRun)
            &&& out == Outcome::Halt(Fault::NothingToRun)
        },
        Some(p) => dispatch_post(s, t, p, kernel_cr3, out),
    }
}

/// Round-robin scheduling: dispatches the first process, in circular order
/// from the slot after the one that ran last, that has an instruction
/// pointer, whatever its state; with none, prints that nothing is ready.
pub fn reschedule(kernel: &mut Kernel, console: &mut Console, kernel_cr3: u64) -> (out: Outcome)
    requires
        old(kernel).wf(),
        old(kernel).trace_room(1),
    ensures
        final(kernel).wf(),
        schedule_post(
            sched_state(*old(kernel), old(console).cells@),
            sched_state(*final(kernel), final(console).cells@),
            kernel_cr3,
            out,
        ),
        final(kernel).apt == old(kernel).apt,
        final(kernel).current_alloc_page == old(kernel).current_alloc_page,
        final(kernel).mutexes == old(kernel).mutexes,
        final(console).cursor == old(console).cursor,
        final(console).status_line == old(console).status_line,
{
    let start = get_process_iterator_start(kernel);
    let mut i = start;
    while i < MAX_PROCESS_COUNT * 2
        invariant
            start <= i <= 2 * MAX_PROCESS_COUNT,
            start == iterator_start(kernel.kcb),
            first_runnable_from(kernel.pcbs@, i as int) == next_runnable(kernel.pcbs@, kernel.kcb),
            kernel.wf(),
            *kernel == *old(kernel),
            *console == *old(console),
            kernel.trace_room(1),
        decreases 2 * MAX_PROCESS_COUNT - i,
    {
        if kernel.pcbs[i % MAX_PROCESS_COUNT].eip != 0 {
            return dispatch_on(kernel, console, (i % MAX_PROCESS_COUNT) as u32, kernel_cr3);
        }
        i += 1;
    }
    // no process can be planned
    show_fault(console, Fault::NothingToRun);
    Outcome::Halt(Fault::NothingToRun)
}

proof fn lemma_first_runnable_from(pcbs: Seq<PCB>, i: int)
    requires
        pcbs.len() == MAX_PROCESS_COUNT,
        0 <= i <= 2 * MAX_PROCESS_COUNT,
    ensures
        first_runnable_from(pcbs, i) matches Some(p) ==> exists|j: int|
            #![trigger pcbs[j % MAX_PROCESS_COUNT as int]]
            {
                &&& i <= j < 2 * MAX_PROCESS_COUNT
                &&& j % MAX_PROCESS_COUNT as int == p
                &&& runnable(pcbs[j % MAX_PROCESS_COUNT as int])
                &&& forall|k: int| i <= k < j ==> !runnable(#[trigger] pcbs[k % MAX_PROCESS_COUNT as int])
            },
        first_runnable_from(pcbs, i) is None ==> forall|k: int|
            i <= k < 2 * MAX_PROCESS_COUNT ==> !runnable(#[trigger] pcbs[k % MAX_PROCESS_COUNT as int]),
    decreases 2 * MAX_PROCESS_COUNT - i,
{
    if i < 2 * MAX_PROCESS_COUNT {
        if !runnable(pcbs[i % MAX_PROCESS_COUNT as int]) {
            lemma_first_runnable_from(pcbs, i + 1);
            if let Some(p) = first_runnable_from(pcbs, i) {
                let j = choose|j: int|
                    #![trigger pcbs[j % MAX_PROCESS_COUNT as int]]
                    {
                        &&& i + 1 <= j < 2 * MAX_PROCESS_COUNT
                        &&& j % MAX_PROCESS_COUNT as int == p
                        &&& runnable(pcbs[j % MAX_PROCESS_COUNT as int])
                        &&& forall|k: int| i + 1 <= k < j ==> !runnable(#[trigger] pcbs[k % MAX_PROCESS_COUNT as int])
                    };
                assert(forall|k: int| i <= k < j ==> !runnable(#[trigger] pcbs[k % MAX_PROCESS_COUNT as int]));
            }
        } else {
            assert(forall|k: int| i <= k < i ==> !runnable(#[trigger] pcbs[k % MAX_PROCESS_COUNT as int]));
        }
    }
}

/// Round robin: the scheduler picks a process that has an instruction
/// pointer, the first such one in circular order from the slot after the
/// process that ran last; every slot passed over has none. It picks nothing
/// only when no slot has an instruction pointer.
pub proof fn lemma_round_robin(pcbs: Seq<PCB>, kcb: KernelBlock)
    requires
        pcbs.len() == MAX_PROCESS_COUNT,
        slot_or_none(kcb.last_process),
    ensures
        match next_runnable(pcbs, kcb) {
            Some(p) => {
                &&& p < MAX_PROCESS_COUNT
                &&& runnable(pcbs[p as int])
                &&& forall|k: int|
                    0 <= k < (p - iterator_start(kcb) + MAX_PROCESS_COUNT) % (MAX_PROCESS_COUNT as int)
                        ==> !runnable(#[trigger] pcbs[(iterator_start(kcb) + k) % (MAX_PROCESS_COUNT as int)])
            },
            None => forall|q: int| 0 <= q < MAX_PROCESS_COUNT ==> !runnable(#[trigger] pcbs[q]),
        },
{
    let s = iterator_start(kcb);
    lemma_first_runnable_from(pcbs, s);
    match next_runnable(pcbs, kcb) {
        Some(p) => {
            let j = choose|j: int|
                #![trigger pcbs[j % MAX_PROCESS_COUNT as int]]
                {
                    &&& s <= j < 2 * MAX_PROCESS_COUNT
                    &&& j % MAX_PROCESS_COUNT as int == p
                    &&& runnable(pcbs[j % MAX_PROCESS_COUNT as int])
                    &&& forall|k: int| s <= k < j ==> !runnable(#[trigger] pcbs[k % MAX_PROCESS_COUNT as int])
                };
            if j >= s + MAX_PROCESS_COUNT {
                assert(!runnable(pcbs[(j - MAX_PROCESS_COUNT) % MAX_PROCESS_COUNT as int]));
                assert((j - MAX_PROCESS_COUNT) % MAX_PROCESS_COUNT as int == j % MAX_PROCESS_COUNT as int);
            }
            assert((p - s + MAX_PROCESS_COUNT) % (MAX_PROCESS_COUNT as int) == j - s);
            assert forall|k: int|
                0 <= k < (p - s + MAX_PROCESS_COUNT) % (MAX_PROCESS_COUNT as int) implies !runnable(
                #[trigger] pcbs[(s + k) % (MAX_PROCESS_COUNT as int)],
            ) by {
                assert(s <= s + k < j);
            }
        },
        None => {
            assert forall|q: int| 0 <= q < MAX_PROCESS_COUNT implies !runnable(#[trigger] pcbs[q]) by {
                if q >= s {
                    assert(!runnable(pcbs[q % MAX_PROCESS_COUNT as int]));
                } else {
                    assert(!runnable(pcbs[(q + MAX_PROCESS_COUNT) % MAX_PROCESS_COUNT as int]));
                }
            }
        },
    }
}

/// Where the scan starts, written out: slot 0 when no process has run, else
/// the slot after the one that ran last, wrapping after the last slot.
pub open spec fn scan_start(last: u32) -> int {
    if last == NO_PROCESS_RUNNING {
        0
    } else {
        (last + 1) % 10
    }
}

/// Round robin, from the scheduler's side: when slot `q` has an instruction
/// pointer and every slot before it, in circular order from the slot after
/// the process that ran last, has none, rescheduling dispatches `q`: it runs
/// if it can, and the kernel stops if it is blocked or uninitialized.
pub proof fn lemma_picks_first_after_last(s: SchedState, t: SchedState, cr3: u64, out: Outcome, q: int)
    requires
        s.0.len() == MAX_PROCESS_COUNT,
        slot_or_none(s.1.last_process),
        0 <= q < MAX_PROCESS_COUNT,
        s.0[q].eip != 0,
        forall|k: int|
            0 <= k < (q - scan_start(s.1.last_process) + 10) % 10 ==> #[trigger] s.0[(scan_start(
                s.1.last_process,
            ) + k) % 10].eip == 0,
        schedule_post(s, t, cr3, out),
    ensures
        s.0[q].state != ProcessState::Blocked && s.0[q].state != ProcessState::Uninitialized ==> {
            &&& out is Run
            &&& t.1.current_process == q
            &&& t.0[q].state == ProcessState::Running
        },
        s.0[q].state == ProcessState::Blocked ==> out == Outcome::Halt(Fault::BlockedProcess) && t.1 == s.1,
{
    let st = scan_start(s.1.last_process);
    assert(st == iterator_start(s.1));
    lemma_round_robin(s.0, s.1);
    assert(0 <= st < 10);
    let dq = (q - st + 10) % 10;
    assert((st + dq) % 10 == q);
    match next_runnable(s.0, s.1) {
        Some(p) => {
            let dp = (p - st + 10) % 10;
            assert((st + dp) % 10 == p);
            if dp < dq {
                assert(s.0[(st + dp) % 10].eip == 0);
            } else if dq < dp {
                assert(!runnable(s.0[(st + dq) % 10]));
            }
            assert(p == q);
        },
        None => {
            assert(!runnable(s.0[q]));
        },
    }
}

/// A process whose instruction pointer is cleared, as `terminate` leaves it,
/// is never picked by the scheduler.
pub proof fn lemma_cleared_never_scheduled(pcbs: Seq<PCB>, kcb: KernelBlock, pid: u32)
    requires
        pcbs.len() == MAX_PROCESS_COUNT,
        slot_or_none(kcb.last_process),
        pid < MAX_PROCESS_COUNT,
        pcbs[pid as int].eip == 0,
    ensures
        next_runnable(pcbs, kcb) != Some(pid),
{
    lemma_round_robin(pcbs, kcb);
}

} // verus!
