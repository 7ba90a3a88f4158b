use vstd::prelude::*;

use crate::process::{
    created_pcb, sched_state, SchedState,
    dispatch_off_post, dispatch_post, slot_or_none, terminated_kcb, terminated_pcb, Fault,
    KernelBlock, Kernel, Outcome, ProcessState, MAX_PROCESS_COUNT, NO_PROCESS_RUNNING, PCB,
};
use crate::scheduler::{next_runnable, schedule_post};
use crate::syscall::{
    acquire_has_room, blocked, freed, hand_over, last_waiter, release_all, syscall_post,
    woken, MutexEntry, MUTEX_COUNT, SYSCALL_ACQUIRE, SYSCALL_ALLOC, SYSCALL_PAUSE, SYSCALL_RELEASE,
    SYSCALL_TERMINATE,
};

use crate::kentry_post;

verus! {

/// The process at position `j` of mutex `m`'s queue.
pub open spec fn waiter(ms: Seq<MutexEntry>, m: int, j: int) -> int {
    ms[m].waiting_queue[j] as int
}

/// Position `j` of mutex `m`'s queue is occupied.
pub open spec fn occupied(ms: Seq<MutexEntry>, m: int, j: int) -> bool {
    0 <= m < MUTEX_COUNT && 0 <= j < ms[m].waiting_count
}

/// The mutex queues agree with the process states: every queued process is
/// blocked, and no process waits twice, in one queue or in two.
pub open spec fn queues_consistent(ms: Seq<MutexEntry>, ps: Seq<PCB>) -> bool {
    &&& ms.len() == MUTEX_COUNT
    &&& ps.len() == MAX_PROCESS_COUNT
    &&& forall|m: int| 0 <= m < MUTEX_COUNT ==> (#[trigger] ms[m]).wf()
    &&& forall|m: int, j: int| #[trigger] occupied(ms, m, j) ==> ps[waiter(ms, m, j)].state == ProcessState::Blocked
    &&& forall|m1: int, j1: int, m2: int, j2: int|
        #[trigger] occupied(ms, m1, j1) && #[trigger] occupied(ms, m2, j2) && (m1 != m2 || j1 != j2)
            ==> waiter(ms, m1, j1) != waiter(ms, m2, j2)
}

/// The kernel's mutex queues agree with the process states, and the running
/// process, if any, is not blocked.
pub open spec fn kernel_consistent(ms: Seq<MutexEntry>, ps: Seq<PCB>, kcb: KernelBlock) -> bool {
    &&& queues_consistent(ms, ps)
    &&& slot_or_none(kcb.current_process)
    &&& kcb.current_process != NO_PROCESS_RUNNING ==> ps[kcb.current_process as int].state
        != ProcessState::Blocked
}

/// A process that is not blocked waits in no queue.
proof fn lemma_unblocked_not_waiting(ms: Seq<MutexEntry>, ps: Seq<PCB>, pid: int)
    requires
        queues_consistent(ms, ps),
        0 <= pid < MAX_PROCESS_COUNT,
        ps[pid].state != ProcessState::Blocked,
    ensures
        forall|m: int, j: int| #[trigger] occupied(ms, m, j) ==> waiter(ms, m, j) != pid,
{
    assert forall|m: int, j: int| #[trigger] occupied(ms, m, j) implies waiter(ms, m, j) != pid by {
        assert(ps[waiter(ms, m, j)].state == ProcessState::Blocked);
    }
}

/// In consistent queues a process that is not blocked always finds room in
/// the queue of any mutex: it cannot already wait there, and the other
/// processes fill at most all slots but its own.
pub proof fn lemma_room_for_caller(ms: Seq<MutexEntry>, ps: Seq<PCB>, pid: int, id: int)
    requires
        queues_consistent(ms, ps),
        0 <= pid < MAX_PROCESS_COUNT,
        0 <= id < MUTEX_COUNT,
        ps[pid].state != ProcessState::Blocked,
    ensures
        ms[id].waiting_count < MAX_PROCESS_COUNT,
{
    lemma_unblocked_not_waiting(ms, ps, pid);
    if ms[id].waiting_count >= MAX_PROCESS_COUNT {
        let c = ms[id].waiting_count as int;
        assert(ms[id].wf());
        let q = Seq::new(c as nat, |j: int| waiter(ms, id, j));
        assert forall|a: int, b: int| 0 <= a < q.len() && 0 <= b < q.len() && a != b implies q[a] != q[b] by {
            assert(occupied(ms, id, a) && occupied(ms, id, b));
        }
        assert(q.no_duplicates());
        q.unique_seq_to_set();
        let range = vstd::set_lib::set_int_range(0, MAX_PROCESS_COUNT as int).remove(pid);
        vstd::set_lib::lemma_int_range(0, MAX_PROCESS_COUNT as int);
        assert forall|x: int| q.to_set().contains(x) implies range.contains(x) by {
            let j = choose|j: int| 0 <= j < q.len() && q[j] == x;
            assert(occupied(ms, id, j));
            assert(ms[id].waiting_queue[j] < 10);
        }
        vstd::set_lib::lemma_len_subset(q.to_set(), range);
        assert(false);
    }
}

/// Dispatching keeps the kernel consistent: it only sets a process that is
/// not blocked running.
pub proof fn lemma_dispatch_keeps_consistency(
    ms: Seq<MutexEntry>,
    s: SchedState,
    t: SchedState,
    pid: u32,
    cr3: u64,
    out: Outcome,
)
    requires
        kernel_consistent(ms, s.0, s.1),
        pid < MAX_PROCESS_COUNT,
        dispatch_post(s, t, pid, cr3, out),
    ensures
        kernel_consistent(ms, t.0, t.1),
{
    let ps = s.0;
    if ps[pid as int].state != ProcessState::Uninitialized && ps[pid as int].state != ProcessState::Blocked {
        lemma_unblocked_not_waiting(ms, ps, pid as int);
        assert forall|m: int, j: int| #[trigger] occupied(ms, m, j) implies t.0[waiter(ms, m, j)].state
            == ProcessState::Blocked by {
            assert(ps[waiter(ms, m, j)].state == ProcessState::Blocked);
        }
    }
}

/// Rescheduling keeps the kernel consistent.
pub proof fn lemma_schedule_keeps_consistency(ms: Seq<MutexEntry>, s: SchedState, t: SchedState, cr3: u64, out: Outcome)
    requires
        kernel_consistent(ms, s.0, s.1),
        slot_or_none(s.1.last_process),
        schedule_post(s, t, cr3, out),
    ensures
        kernel_consistent(ms, t.0, t.1),
{
    crate::scheduler::lemma_round_robin(s.0, s.1);
    if let Some(p) = next_runnable(s.0, s.1) {
        lemma_dispatch_keeps_consistency(ms, s, t, p, cr3, out);
    }
}

/// Taking a process off the processor keeps the kernel consistent.
pub proof fn lemma_dispatch_off_keeps_consistency(
    ms: Seq<MutexEntry>,
    s: SchedState,
    t: SchedState,
    ip: u64,
    sp: u64,
    ret: Result<(u32, u64), Fault>,
)
    requires
        kernel_consistent(ms, s.0, s.1),
        dispatch_off_post(s, t, ip, sp, ret),
    ensures
        kernel_consistent(ms, t.0, t.1),
{
    let ps = s.0;
    if s.1.current_process != NO_PROCESS_RUNNING {
        let pid = s.1.current_process as int;
        lemma_unblocked_not_waiting(ms, ps, pid);
        assert forall|m: int, j: int| #[trigger] occupied(ms, m, j) implies t.0[waiter(ms, m, j)].state
            == ProcessState::Blocked by {
            assert(ps[waiter(ms, m, j)].state == ProcessState::Blocked);
        }
    }
}

/// Letting the last waiter of mutex `i` take it keeps the queues consistent.
proof fn lemma_hand_over_keeps_consistency(ms: Seq<MutexEntry>, ps: Seq<PCB>, i: int)
    requires
        queues_consistent(ms, ps),
        0 <= i < MUTEX_COUNT,
        ms[i].waiting_count > 0,
    ensures
        queues_consistent(ms.update(i, hand_over(ms[i])), woken(ps, last_waiter(ms[i]))),
{
    let ms2 = ms.update(i, hand_over(ms[i]));
    let ps2 = woken(ps, last_waiter(ms[i]));
    let last = ms[i].waiting_count - 1;
    assert(occupied(ms, i, last));
    assert(ms[i].wf());
    assert forall|m: int| 0 <= m < MUTEX_COUNT implies (#[trigger] ms2[m]).wf() by {
        assert(ms[m].wf());
    }
    assert forall|m: int, j: int| #[trigger] occupied(ms2, m, j) implies ps2[waiter(ms2, m, j)].state
        == ProcessState::Blocked by {
        assert(occupied(ms, m, j));
        assert(waiter(ms2, m, j) == waiter(ms, m, j));
        assert(waiter(ms, m, j) != waiter(ms, i, last));
    }
    assert forall|m1: int, j1: int, m2: int, j2: int|
        #[trigger] occupied(ms2, m1, j1) && #[trigger] occupied(ms2, m2, j2) && (m1 != m2 || j1 != j2)
        implies waiter(ms2, m1, j1) != waiter(ms2, m2, j2) by {
        assert(occupied(ms, m1, j1) && occupied(ms, m2, j2));
        assert(waiter(ms2, m1, j1) == waiter(ms, m1, j1));
        assert(waiter(ms2, m2, j2) == waiter(ms, m2, j2));
    }
}

/// Freeing mutex `i`, whose queue is empty, keeps the queues consistent.
proof fn lemma_free_keeps_consistency(ms: Seq<MutexEntry>, ps: Seq<PCB>, i: int)
    requires
        queues_consistent(ms, ps),
        0 <= i < MUTEX_COUNT,
    ensures
        queues_consistent(ms.update(i, freed(ms[i])), ps),
{
    let ms2 = ms.update(i, freed(ms[i]));
    assert forall|m: int| 0 <= m < MUTEX_COUNT implies (#[trigger] ms2[m]).wf() by {
        assert(ms[m].wf());
    }
    assert forall|m: int, j: int| #[trigger] occupied(ms2, m, j) implies ps[waiter(ms2, m, j)].state
        == ProcessState::Blocked by {
        assert(occupied(ms, m, j));
    }
    assert forall|m1: int, j1: int, m2: int, j2: int|
        #[trigger] occupied(ms2, m1, j1) && #[trigger] occupied(ms2, m2, j2) && (m1 != m2 || j1 != j2)
        implies waiter(ms2, m1, j1) != waiter(ms2, m2, j2) by {
        assert(occupied(ms, m1, j1) && occupied(ms, m2, j2));
    }
}

/// Letting go of every mutex a process holds keeps the queues consistent and
/// blocks nobody.
proof fn lemma_release_all_keeps_consistency(ms: Seq<MutexEntry>, ps: Seq<PCB>, pid: u32, i: int)
    requires
        queues_consistent(ms, ps),
        0 <= i <= MUTEX_COUNT,
    ensures
        queues_consistent(release_all(ms, ps, pid, i).0, release_all(ms, ps, pid, i).1),
        forall|q: int| 0 <= q < MAX_PROCESS_COUNT && ps[q].state != ProcessState::Blocked
            ==> #[trigger] release_all(ms, ps, pid, i).1[q].state != ProcessState::Blocked,
        forall|q: int| 0 <= q < MAX_PROCESS_COUNT ==> (#[trigger] release_all(ms, ps, pid, i).1[q]).eip == ps[q].eip,
    decreases MUTEX_COUNT - i,
{
    if i < MUTEX_COUNT {
        if ms[i].acquired && ms[i].by == pid {
            if ms[i].waiting_count == 0 {
                lemma_free_keeps_consistency(ms, ps, i);
                lemma_release_all_keeps_consistency(ms.update(i, freed(ms[i])), ps, pid, i + 1);
            } else {
                lemma_hand_over_keeps_consistency(ms, ps, i);
                let ps2 = woken(ps, last_waiter(ms[i]));
                assert(ms[i].wf());
                assert(occupied(ms, i, ms[i].waiting_count - 1));
                lemma_release_all_keeps_consistency(ms.update(i, hand_over(ms[i])), ps2, pid, i + 1);
            }
        } else {
            lemma_release_all_keeps_consistency(ms, ps, pid, i + 1);
        }
    }
}

/// Every syscall handled in the kernel, while no process runs, for a process
/// that is not blocked, keeps the kernel consistent: queued processes stay
/// blocked, nobody waits twice, and the process it runs next is not blocked.
pub proof fn lemma_syscall_keeps_consistency(
    old: Kernel,
    oc: Seq<(u8, u8)>,
    new: Kernel,
    nc: Seq<(u8, u8)>,
    pid: u32,
    number: u64,
    arg: u64,
    cr3: u64,
    eff: crate::syscall::SyscallEffect,
)
    requires
        old.wf(),
        kernel_consistent(old.mutexes@, old.pcbs@, old.kcb),
        old.kcb.current_process == NO_PROCESS_RUNNING,
        pid < MAX_PROCESS_COUNT,
        old.pcbs[pid as int].state != ProcessState::Blocked,
        number == SYSCALL_ACQUIRE || number == SYSCALL_RELEASE ==> arg < MUTEX_COUNT,
        syscall_post(old, oc, new, nc, pid, number, arg, cr3, eff),
    ensures
        kernel_consistent(new.mutexes@, new.pcbs@, new.kcb),
{
    let ms = old.mutexes@;
    let ps = old.pcbs@;
    let row = old.trace_row as int;
    let t = sched_state(new, nc);
    if number == SYSCALL_ALLOC {
        let n = old.pcbs[pid as int].last_alloc_page + 1;
        let counted = ps.update(pid as int, PCB { last_alloc_page: n as u64, ..old.pcbs[pid as int] });
        assert forall|m: int, j: int| #[trigger] occupied(ms, m, j) implies counted[waiter(ms, m, j)].state
            == ProcessState::Blocked by {
            assert(ps[waiter(ms, m, j)].state == ProcessState::Blocked);
        }
        lemma_dispatch_keeps_consistency(ms, (counted, old.kcb, row, oc), t, pid, cr3, eff.outcome);
    } else if number == SYSCALL_TERMINATE {
        lemma_release_all_keeps_consistency(ms, ps, pid, 0);
        let (ms2, ps2) = release_all(ms, ps, pid, 0);
        let ps3 = ps2.update(pid as int, terminated_pcb(ps2[pid as int]));
        assert forall|m: int, j: int| #[trigger] occupied(ms2, m, j) implies ps3[waiter(ms2, m, j)].state
            == ProcessState::Blocked by {
            assert(ps2[waiter(ms2, m, j)].state == ProcessState::Blocked);
        }
        let shown = crate::traced(
            crate::handler_traced(oc, 14, "  handle terminate"@, pid),
            row,
            "  terminating."@,
            0x3f,
            pid,
        );
        lemma_schedule_keeps_consistency(ms2, (ps3, terminated_kcb(old.kcb, pid), row + 1, shown), t, cr3, eff.outcome);
    } else if number == SYSCALL_PAUSE {
        lemma_schedule_keeps_consistency(
            ms,
            (ps, old.kcb, row, crate::handler_traced(oc, 15, "  handle pause"@, pid)),
            t,
            cr3,
            eff.outcome,
        );
    } else if number == SYSCALL_ACQUIRE {
        let id = arg as int;
        let m = old.mutexes[id];
        let shown = crate::handler_traced(oc, 16, "  handle acquire"@, pid);
        if m.acquired && m.by == pid {
            lemma_dispatch_keeps_consistency(ms, (ps, old.kcb, row, shown), t, pid, cr3, eff.outcome);
        } else if !m.acquired {
            let ms2 = ms.update(id, MutexEntry { acquired: true, by: pid, ..m });
            assert forall|k: int| 0 <= k < MUTEX_COUNT implies (#[trigger] ms2[k]).wf() by {
                assert(ms[k].wf());
            }
            assert forall|k: int, j: int| #[trigger] occupied(ms2, k, j) implies ps[waiter(ms2, k, j)].state
                == ProcessState::Blocked by {
                assert(occupied(ms, k, j));
            }
            assert forall|m1: int, j1: int, m2: int, j2: int|
                #[trigger] occupied(ms2, m1, j1) && #[trigger] occupied(ms2, m2, j2) && (m1 != m2 || j1 != j2)
                implies waiter(ms2, m1, j1) != waiter(ms2, m2, j2) by {
                assert(occupied(ms, m1, j1) && occupied(ms, m2, j2));
            }
            lemma_dispatch_keeps_consistency(ms2, (ps, old.kcb, row, shown), t, pid, cr3, eff.outcome);
        } else {
            lemma_unblocked_not_waiting(ms, ps, pid as int);
            lemma_room_for_caller(ms, ps, pid as int, id);
            let ms2 = new.mutexes@;
            let ps2 = blocked(ps, pid);
            let c = m.waiting_count as int;
            assert(ms2[id].waiting_queue@ == m.waiting_queue@.update(c, pid));
            assert forall|k: int, j: int| #[trigger] occupied(ms2, k, j) && !(k == id && j == c)
                implies occupied(ms, k, j) && waiter(ms2, k, j) == waiter(ms, k, j) by {
                if k == id {
                    assert(ms2[id].waiting_queue@[j] == m.waiting_queue@[j]);
                }
            }
            assert(waiter(ms2, id, c) == pid as int) by {
                assert(ms2[id].waiting_queue@[c] == pid);
            }
            assert forall|k: int| 0 <= k < MUTEX_COUNT implies (#[trigger] ms2[k]).wf() by {
                assert(ms[k].wf());
                if k == id {
                    assert forall|j: int| 0 <= j < ms2[id].waiting_count implies #[trigger] ms2[id].waiting_queue[j]
                        < 10 by {
                        if j != c {
                            assert(occupied(ms2, id, j));
                            assert(occupied(ms, id, j));
                        }
                    }
                }
            }
            assert forall|k: int, j: int| #[trigger] occupied(ms2, k, j) implies ps2[waiter(ms2, k, j)].state
                == ProcessState::Blocked by {
                if !(k == id && j == c) {
                    assert(occupied(ms, k, j));
                    assert(ps[waiter(ms, k, j)].state == ProcessState::Blocked);
                }
            }
            assert forall|m1: int, j1: int, m2: int, j2: int|
                #[trigger] occupied(ms2, m1, j1) && #[trigger] occupied(ms2, m2, j2) && (m1 != m2 || j1 != j2)
                implies waiter(ms2, m1, j1) != waiter(ms2, m2, j2) by {
                if !(m1 == id && j1 == c) {
                    assert(occupied(ms, m1, j1));
                }
                if !(m2 == id && j2 == c) {
                    assert(occupied(ms, m2, j2));
                }
            }
            lemma_schedule_keeps_consistency(ms2, (ps2, old.kcb, row, shown), t, cr3, eff.outcome);
        }
    } else if number == SYSCALL_RELEASE {
        let id = arg as int;
        let m = old.mutexes[id];
        let shown = crate::handler_traced(oc, 16, "  handle release"@, pid);
        if m.waiting_count == 0 {
            lemma_free_keeps_consistency(ms, ps, id);
            lemma_dispatch_keeps_consistency(
                ms.update(id, freed(m)),
                (ps, old.kcb, row, shown),
                t,
                pid,
                cr3,
                eff.outcome,
            );
        } else {
            lemma_hand_over_keeps_consistency(ms, ps, id);
            assert(m.wf());
            assert(occupied(ms, id, m.waiting_count - 1));
            lemma_dispatch_keeps_consistency(
                ms.update(id, hand_over(m)),
                (woken(ps, last_waiter(m)), old.kcb, row, shown),
                t,
                last_waiter(m),
                cr3,
                eff.outcome,
            );
        }
    }
}

/// The kernel at boot, with every queue empty and no process running, is consistent.
pub proof fn lemma_boot_consistent(k: Kernel)
    requires
        k.kcb.current_process == NO_PROCESS_RUNNING,
        forall|m: int| 0 <= m < MUTEX_COUNT ==> (#[trigger] k.mutexes[m]).waiting_count == 0,
    ensures
        kernel_consistent(k.mutexes@, k.pcbs@, k.kcb),
{
    assert forall|m: int| 0 <= m < MUTEX_COUNT implies (#[trigger] k.mutexes@[m]).wf() by {
        assert(k.mutexes[m].waiting_count == 0);
    }
    assert forall|m: int, j: int| #[trigger] occupied(k.mutexes@, m, j) implies false by {
        assert(k.mutexes[m].waiting_count == 0);
    }
}

/// Creating a process that waits for no mutex keeps the kernel consistent.
pub proof fn lemma_create_keeps_consistency(
    ms: Seq<MutexEntry>,
    ps: Seq<PCB>,
    kcb: KernelBlock,
    id: u32,
    table: u64,
    code: u64,
)
    requires
        kernel_consistent(ms, ps, kcb),
        id < MAX_PROCESS_COUNT,
        ps[id as int].state != ProcessState::Blocked,
    ensures
        kernel_consistent(ms, ps.update(id as int, created_pcb(id, table, code)), kcb),
{
    lemma_unblocked_not_waiting(ms, ps, id as int);
    let ps2 = ps.update(id as int, created_pcb(id, table, code));
    assert forall|m: int, j: int| #[trigger] occupied(ms, m, j) implies ps2[waiter(ms, m, j)].state
        == ProcessState::Blocked by {
        assert(ps[waiter(ms, m, j)].state == ProcessState::Blocked);
    }
}

/// A process entering a consistent kernel always finds room in the queue of
/// any mutex it asks for.
pub proof fn lemma_kentry_has_room(k: Kernel, id: int)
    requires
        kernel_consistent(k.mutexes@, k.pcbs@, k.kcb),
        k.kcb.current_process != NO_PROCESS_RUNNING,
        0 <= id < MUTEX_COUNT,
    ensures
        acquire_has_room(k, k.kcb.current_process, id),
{
    lemma_room_for_caller(k.mutexes@, k.pcbs@, k.kcb.current_process as int, id);
}

/// Every entry into the kernel keeps it consistent.
pub proof fn lemma_kentry_keeps_consistency(
    old: Kernel,
    oc: Seq<(u8, u8)>,
    status: Seq<(u8, char)>,
    new: Kernel,
    nc: Seq<(u8, u8)>,
    ip: u64,
    sp: u64,
    number: u64,
    arg: u64,
    eff: crate::syscall::SyscallEffect,
)
    requires
        old.wf(),
        kernel_consistent(old.mutexes@, old.pcbs@, old.kcb),
        number == SYSCALL_ACQUIRE || number == SYSCALL_RELEASE ==> arg < MUTEX_COUNT,
        kentry_post(old, oc, status, new, nc, ip, sp, number, arg, eff),
    ensures
        kernel_consistent(new.mutexes@, new.pcbs@, new.kcb),
{
    if old.kcb.current_process != NO_PROCESS_RUNNING {
        let pid = old.kcb.current_process;
        let shown = crate::painted(oc, crate::cell_index(crate::STATUS_ROW as int, 0), crate::status_cells(status));
        let mid = choose|mid: Kernel|
            {
                &&& dispatch_off_post(sched_state(old, shown), sched_state(mid, shown), ip, sp, Ok((pid, old.kcb.page_table_addr)))
                &&& mid.apt == old.apt
                &&& mid.current_alloc_page == old.current_alloc_page
                &&& mid.mutexes == old.mutexes
                &&& #[trigger] syscall_post(mid, shown, new, nc, pid, number, arg, old.kcb.page_table_addr, eff)
            };
        lemma_dispatch_off_keeps_consistency(
            old.mutexes@,
            sched_state(old, shown),
            sched_state(mid, shown),
            ip,
            sp,
            Ok((pid, old.kcb.page_table_addr)),
        );
        assert(mid.wf());
        lemma_syscall_keeps_consistency(mid, shown, new, nc, pid, number, arg, old.kcb.page_table_addr, eff);
    }
}

/// Letting go of every mutex, for a process that waits for none, leaves no
/// mutex from `i` on held by it and the mutexes before `i` as they were.
proof fn lemma_release_all_frees(ms: Seq<MutexEntry>, ps: Seq<PCB>, pid: u32, i: int)
    requires
        queues_consistent(ms, ps),
        0 <= i <= MUTEX_COUNT,
        pid < MAX_PROCESS_COUNT,
        ps[pid as int].state != ProcessState::Blocked,
    ensures
        release_all(ms, ps, pid, i).0.len() == MUTEX_COUNT,
        forall|m: int| i <= m < MUTEX_COUNT ==> !((#[trigger] release_all(ms, ps, pid, i).0[m]).acquired
            && release_all(ms, ps, pid, i).0[m].by == pid),
        forall|m: int| 0 <= m < i ==> #[trigger] release_all(ms, ps, pid, i).0[m] == ms[m],
    decreases MUTEX_COUNT - i,
{
    if i < MUTEX_COUNT {
        if ms[i].acquired && ms[i].by == pid {
            if ms[i].waiting_count == 0 {
                lemma_free_keeps_consistency(ms, ps, i);
                lemma_release_all_frees(ms.update(i, freed(ms[i])), ps, pid, i + 1);
            } else {
                lemma_unblocked_not_waiting(ms, ps, pid as int);
                assert(ms[i].wf());
                assert(occupied(ms, i, ms[i].waiting_count - 1));
                lemma_hand_over_keeps_consistency(ms, ps, i);
                lemma_release_all_frees(ms.update(i, hand_over(ms[i])), woken(ps, last_waiter(ms[i])), pid, i + 1);
            }
        } else {
            lemma_release_all_frees(ms, ps, pid, i + 1);
        }
    }
}

/// A process that ends, waiting for no mutex, holds no mutex afterwards:
/// each passed to another process or became free. Its instruction pointer is
/// cleared, so the scheduler does not pick it, and it is not the running
/// process afterwards.
pub proof fn lemma_terminate_releases_all(
    old: Kernel,
    oc: Seq<(u8, u8)>,
    new: Kernel,
    nc: Seq<(u8, u8)>,
    pid: u32,
    cr3: u64,
    out: Outcome,
)
    requires
        old.wf(),
        queues_consistent(old.mutexes@, old.pcbs@),
        pid < MAX_PROCESS_COUNT,
        old.pcbs[pid as int].state != ProcessState::Blocked,
        crate::syscall::terminate_post(old, oc, new, nc, pid, cr3, out),
    ensures
        forall|m: int| 0 <= m < MUTEX_COUNT ==> !((#[trigger] new.mutexes[m]).acquired && new.mutexes[m].by == pid),
        new.pcbs[pid as int].eip == 0,
        new.kcb.current_process != pid,
{
    lemma_release_all_frees(old.mutexes@, old.pcbs@, pid, 0);
    lemma_release_all_keeps_consistency(old.mutexes@, old.pcbs@, pid, 0);
    let ps = release_all(old.mutexes@, old.pcbs@, pid, 0).1;
    let ps3 = ps.update(pid as int, terminated_pcb(ps[pid as int]));
    let kcb3 = terminated_kcb(old.kcb, pid);
    crate::scheduler::lemma_cleared_never_scheduled(ps3, kcb3, pid);
    crate::scheduler::lemma_round_robin(ps3, kcb3);
}

} // verus!
