use vstd::prelude::*;

use crate::memory::{alloc_fits, alloc_page, MemoryWrite};
use crate::process::{
    dispatch_on, dispatch_post, sched_state, terminate, terminated_kcb, terminated_pcb, Fault, Kernel, Outcome,
    ProcessState, MAX_PROCESS_COUNT, PCB,
};
use crate::scheduler::{lemma_picks_first_after_last, reschedule, scan_start, schedule_post};
use crate::{fault_cells, handler_trace, handler_traced, show_fault, traced, Console};

verus! {

/// Number of mutexes.
pub const MUTEX_COUNT: usize = 10;

/// Syscall numbers, passed in r13.
pub const SYSCALL_ALLOC: u64 = 1;
pub const SYSCALL_TERMINATE: u64 = 2;
pub const SYSCALL_PAUSE: u64 = 3;
pub const SYSCALL_ACQUIRE: u64 = 4;
pub const SYSCALL_RELEASE: u64 = 5;

/// A mutex: whether it is held and by whom, and the processes waiting for it,
/// the most recent last.
#[derive(Copy, Clone, Debug)]
pub struct MutexEntry {
    pub acquired: bool,
    pub by: u32,
    pub waiting_count: usize,
    pub waiting_queue: [u32; 10],
}

/// What the kernel does in answer to a syscall: the value it puts in r13 for
/// the process, a store into a page table, and where it goes next.
#[derive(Copy, Clone, Debug, PartialEq, Eq, Structural)]
pub struct SyscallEffect {
    pub reply: Option<u64>,
    pub page_write: Option<MemoryWrite>,
    pub outcome: Outcome,
}

impl MutexEntry {
    /// The queue fits its array and names process slots.
    pub open spec fn wf(&self) -> bool {
        &&& self.waiting_count <= 10
        &&& forall|k: int| 0 <= k < self.waiting_count ==> #[trigger] self.waiting_queue[k] < 10
    }

    /// A free mutex with nobody waiting.
    pub fn new() -> (m: MutexEntry)
        ensures
            m.wf(),
            !m.acquired,
            m.by == 0,
            m.waiting_count == 0,
            forall|k: int| 0 <= k < 10 ==> #[trigger] m.waiting_queue[k] == 0,
    {
        MutexEntry { acquired: false, by: 0, waiting_count: 0, waiting_queue: [0; 10] }
    }
}

/// The process that waited last for `m`.
pub open spec fn last_waiter(m: MutexEntry) -> u32 {
    m.waiting_queue[m.waiting_count - 1]
}

/// `m` after its holder lets go while processes wait: the last waiter leaves
/// the queue and holds the mutex.
pub open spec fn hand_over(m: MutexEntry) -> MutexEntry {
    MutexEntry { waiting_count: (m.waiting_count - 1) as usize, by: last_waiter(m), ..m }
}

/// `m` after its holder lets go while nobody waits.
pub open spec fn freed(m: MutexEntry) -> MutexEntry {
    MutexEntry { acquired: false, ..m }
}

/// `new` is `old` with process `pid` added at the end of the queue.
pub open spec fn enqueued(old: MutexEntry, new: MutexEntry, pid: u32) -> bool {
    &&& new.acquired == old.acquired
    &&& new.by == old.by
    &&& new.waiting_count == old.waiting_count + 1
    &&& new.waiting_queue@ == old.waiting_queue@.update(old.waiting_count as int, pid)
}

/// Process blocks `pcbs` with process `w` made ready.
pub open spec fn woken(pcbs: Seq<PCB>, w: u32) -> Seq<PCB> {
    pcbs.update(w as int, PCB { state: ProcessState::Ready, ..pcbs[w as int] })
}

/// Process blocks `pcbs` with process `pid` blocked.
pub open spec fn blocked(pcbs: Seq<PCB>, pid: u32) -> Seq<PCB> {
    pcbs.update(pid as int, PCB { state: ProcessState::Blocked, ..pcbs[pid as int] })
}

/// The mutexes and process blocks after process `pid` lets go of every mutex
/// it holds, from mutex `i` on: each passes to its last waiter, who becomes
/// ready, or becomes free when nobody waits.
pub open spec fn release_all(ms: Seq<MutexEntry>, ps: Seq<PCB>, pid: u32, i: int) -> (Seq<MutexEntry>, Seq<PCB>)
    decreases MUTEX_COUNT - i,
{
    if i < 0 || i >= MUTEX_COUNT {
        (ms, ps)
    } else if ms[i].acquired && ms[i].by == pid {
        if ms[i].waiting_count == 0 {
            release_all(ms.update(i, freed(ms[i])), ps, pid, i + 1)
        } else {
            release_all(ms.update(i, hand_over(ms[i])), woken(ps, last_waiter(ms[i])), pid, i + 1)
        }
    } else {
        release_all(ms, ps, pid, i + 1)
    }
}

/// The queue of mutex `mutex_id` has room for `pid` if the call would block.
pub open spec fn acquire_has_room(kernel: Kernel, pid: u32, mutex_id: int) -> bool {
    let m = kernel.mutexes[mutex_id];
    m.acquired && m.by != pid ==> m.waiting_count < 10
}

/// Trace lines each syscall prints at most.
pub open spec fn syscall_traces(number: u64) -> int {
    if number == SYSCALL_TERMINATE {
        2
    } else if SYSCALL_ALLOC <= number <= SYSCALL_RELEASE {
        1
    } else {
        0
    }
}

/// The most trace lines syscall `number` makes the kernel print.
pub fn syscall_trace_count(number: u64) -> (n: i32)
    ensures
        n == syscall_traces(number),
{
    if number == SYSCALL_TERMINATE {
        2
    } else if SYSCALL_ALLOC <= number && number <= SYSCALL_RELEASE {
        1
    } else {
        0
    }
}

/// Whether the queue of mutex `mutex_id` has room for `pid` should the call block.
pub fn queue_has_room(kernel: &Kernel, pid: u32, mutex_id: usize) -> (b: bool)
    requires
        mutex_id < MUTEX_COUNT,
    ensures
        b == acquire_has_room(*kernel, pid, mutex_id as int),
{
    let m = kernel.mutexes[mutex_id];
    !(m.acquired && m.by != pid) || m.waiting_count < 10
}

/// `handle_alloc(pid)` takes kernel `old` and screen `oc` to `new` and `nc`
/// with result `eff`.
pub open spec fn alloc_post(
    old: Kernel,
    oc: Seq<(u8, u8)>,
    new: Kernel,
    nc: Seq<(u8, u8)>,
    pid: u32,
    cr3: u64,
    eff: SyscallEffect,
) -> bool {
    let n = old.pcbs[pid as int].last_alloc_page + 1;
    let counted = old.pcbs@.update(pid as int, PCB { last_alloc_page: n as u64, ..old.pcbs[pid as int] });
    &&& eff.reply == Some(crate::memory::alloc_page_va(n))
    &&& eff.page_write == Some(crate::memory::alloc_page_write(old, pid, cr3))
    &&& dispatch_post((counted, old.kcb, old.trace_row as int, oc), sched_state(new, nc), pid, cr3, eff.outcome)
    &&& new.current_alloc_page == old.current_alloc_page + 2
    &&& new.mutexes == old.mutexes
    &&& new.apt == old.apt
}

/// `handle_terminate(pid)` takes kernel `old` and screen `oc` to `new` and
/// `nc` with outcome `out`.
pub open spec fn terminate_post(
    old: Kernel,
    oc: Seq<(u8, u8)>,
    new: Kernel,
    nc: Seq<(u8, u8)>,
    pid: u32,
    cr3: u64,
    out: Outcome,
) -> bool {
    let (ms, ps) = release_all(old.mutexes@, old.pcbs@, pid, 0);
    let shown = traced(
        handler_traced(oc, 14, "  handle terminate"@, pid),
        old.trace_row as int,
        "  terminating."@,
        0x3f,
        pid,
    );
    &&& new.mutexes@ == ms
    &&& schedule_post(
        (ps.update(pid as int, terminated_pcb(ps[pid as int])), terminated_kcb(old.kcb, pid), old.trace_row + 1, shown),
        sched_state(new, nc),
        cr3,
        out,
    )
    &&& new.current_alloc_page == old.current_alloc_page
    &&& new.apt == old.apt
}

/// `handle_pause(pid)` takes kernel `old` and screen `oc` to `new` and `nc`
/// with outcome `out`.
pub open spec fn pause_post(
    old: Kernel,
    oc: Seq<(u8, u8)>,
    new: Kernel,
    nc: Seq<(u8, u8)>,
    pid: u32,
    cr3: u64,
    out: Outcome,
) -> bool {
    &&& schedule_post(
        (old.pcbs@, old.kcb, old.trace_row as int, handler_traced(oc, 15, "  handle pause"@, pid)),
        sched_state(new, nc),
        cr3,
        out,
    )
    &&& new.mutexes == old.mutexes
    &&& new.current_alloc_page == old.current_alloc_page
    &&& new.apt == old.apt
}

/// `handle_acquire(pid, id)` takes kernel `old` and screen `oc` to `new` and
/// `nc` with outcome `out`.
pub open spec fn acquire_post(
    old: Kernel,
    oc: Seq<(u8, u8)>,
    new: Kernel,
    nc: Seq<(u8, u8)>,
    pid: u32,
    id: int,
    cr3: u64,
    out: Outcome,
) -> bool {
    let m = old.mutexes[id];
    let shown = handler_traced(oc, 16, "  handle acquire"@, pid);
    &&& new.current_alloc_page == old.current_alloc_page
    &&& new.apt == old.apt
    &&& if m.acquired && m.by == pid {
        // already held by the caller
        &&& new.mutexes == old.mutexes
        &&& dispatch_post((old.pcbs@, old.kcb, old.trace_row as int, shown), sched_state(new, nc), pid, cr3, out)
    } else if !m.acquired {
        &&& new.mutexes@ == old.mutexes@.update(id, MutexEntry { acquired: true, by: pid, ..m })
        &&& dispatch_post((old.pcbs@, old.kcb, old.trace_row as int, shown), sched_state(new, nc), pid, cr3, out)
    } else {
        // held by another process: wait in its queue
        &&& new.mutexes@ == old.mutexes@.update(id, new.mutexes[id])
        &&& enqueued(m, new.mutexes[id], pid)
        &&& schedule_post((blocked(old.pcbs@, pid), old.kcb, old.trace_row as int, shown), sched_state(new, nc), cr3, out)
    }
}

/// `handle_release(pid, id)` takes kernel `old` and screen `oc` to `new` and
/// `nc` with outcome `out`.
pub open spec fn release_post(
    old: Kernel,
    oc: Seq<(u8, u8)>,
    new: Kernel,
    nc: Seq<(u8, u8)>,
    pid: u32,
    id: int,
    cr3: u64,
    out: Outcome,
) -> bool {
    let m = old.mutexes[id];
    let shown = handler_traced(oc, 16, "  handle release"@, pid);
    &&& new.current_alloc_page == old.current_alloc_page
    &&& new.apt == old.apt
    &&& if m.waiting_count == 0 {
        &&& new.mutexes@ == old.mutexes@.update(id, freed(m))
        &&& dispatch_post((old.pcbs@, old.kcb, old.trace_row as int, shown), sched_state(new, nc), pid, cr3, out)
    } else {
        // the last waiter takes the mutex and runs
        &&& new.mutexes@ == old.mutexes@.update(id, hand_over(m))
        &&& dispatch_post(
            (woken(old.pcbs@, last_waiter(m)), old.kcb, old.trace_row as int, shown),
            sched_state(new, nc),
            last_waiter(m),
            cr3,
            out,
        )
    }
}

/// Allocates a page for process `pid`, hands its address back, and resumes the process.
pub fn handle_alloc(kernel: &mut Kernel, console: &mut Console, pid: u32, cr3: u64) -> (eff: SyscallEffect)
    requires
        old(kernel).wf(),
        pid < MAX_PROCESS_COUNT,
        alloc_fits(*old(kernel), pid, cr3),
        old(kernel).trace_room(1),
    ensures
        final(kernel).wf(),
        alloc_post(*old(kernel), old(console).cells@, *final(kernel), final(console).cells@, pid, cr3, eff),
        final(console).cursor == old(console).cursor,
        final(console).status_line == old(console).status_line,
{
    let (addr, write) = alloc_page(kernel, pid, cr3);
    // return to the program
    let outcome = dispatch_on(kernel, console, pid, cr3);
    SyscallEffect { reply: Some(addr), page_write: Some(write), outcome }
}

/// Ends process `pid`: every mutex it holds passes to its last waiter or is
/// freed, the process is terminated, and the scheduler picks the next one.
pub fn handle_terminate(kernel: &mut Kernel, console: &mut Console, pid: u32, cr3: u64) -> (out: Outcome)
    requires
        old(kernel).wf(),
        pid < MAX_PROCESS_COUNT,
        old(kernel).trace_room(2),
    ensures
        final(kernel).wf(),
        terminate_post(*old(kernel), old(console).cells@, *final(kernel), final(console).cells@, pid, cr3, out),
        final(console).cursor == old(console).cursor,
        final(console).status_line == old(console).status_line,
{
    proof {
        reveal_strlit("  handle terminate");
    }
    handler_trace(console, 14, "  handle terminate", pid);
    // release all mutexes
    for i in 0..MUTEX_COUNT
        invariant
            kernel.wf(),
            pid < MAX_PROCESS_COUNT,
            release_all(kernel.mutexes@, kernel.pcbs@, pid, i as int) == release_all(
                old(kernel).mutexes@,
                old(kernel).pcbs@,
                pid,
                0,
            ),
            kernel.kcb == old(kernel).kcb,
            kernel.apt == old(kernel).apt,
            kernel.current_alloc_page == old(kernel).current_alloc_page,
            kernel.trace_row == old(kernel).trace_row,
    {
        let m = kernel.mutexes[i];
        if m.acquired == true && m.by == pid {
            if m.waiting_count == 0 {
                let mut e = m;
                e.acquired = false;
                kernel.mutexes[i] = e;
            } else {
                let mut e = m;
                e.waiting_count -= 1;
                let pid_w = e.waiting_queue[e.waiting_count];
                e.by = pid_w;
                kernel.mutexes[i] = e;
                let mut p = kernel.pcbs[pid_w as usize];
                p.state = ProcessState::Ready;
                kernel.pcbs[pid_w as usize] = p;
            }
        }
    }
    terminate(kernel, console, pid);
    reschedule(kernel, console, cr3)
}

/// Lets process `pid` give up the processor: the scheduler picks the next process.
pub fn handle_pause(kernel: &mut Kernel, console: &mut Console, pid: u32, cr3: u64) -> (out: Outcome)
    requires
        old(kernel).wf(),
        pid < MAX_PROCESS_COUNT,
        old(kernel).trace_room(1),
    ensures
        final(kernel).wf(),
        pause_post(*old(kernel), old(console).cells@, *final(kernel), final(console).cells@, pid, cr3, out),
        final(console).cursor == old(console).cursor,
        final(console).status_line == old(console).status_line,
{
    proof {
        reveal_strlit("  handle pause");
    }
    handler_trace(console, 15, "  handle pause", pid);
    reschedule(kernel, console, cr3)
}

/// Process `pid` asks for mutex `mutex_id`: it keeps running if it holds the
/// mutex already or takes it when free; otherwise it joins the end of the
/// mutex's queue, is blocked, and the scheduler picks the next process.
pub fn handle_acquire(kernel: &mut Kernel, console: &mut Console, pid: u32, mutex_id: usize, cr3: u64) -> (out: Outcome)
    requires
        old(kernel).wf(),
        pid < MAX_PROCESS_COUNT,
        mutex_id < MUTEX_COUNT,
        acquire_has_room(*old(kernel), pid, mutex_id as int),
        old(kernel).trace_room(1),
    ensures
        final(kernel).wf(),
        acquire_post(
            *old(kernel),
            old(console).cells@,
            *final(kernel),
            final(console).cells@,
            pid,
            mutex_id as int,
            cr3,
            out,
        ),
        final(console).cursor == old(console).cursor,
        final(console).status_line == old(console).status_line,
{
    proof {
        reveal_strlit("  handle acquire");
    }
    handler_trace(console, 16, "  handle acquire", pid);
    let m = kernel.mutexes[mutex_id];
    if m.acquired == true && m.by == pid {
        dispatch_on(kernel, console, pid, cr3)
    } else if m.acquired == false {
        let mut e = m;
        e.acquired = true;
        e.by = pid;
        kernel.mutexes[mutex_id] = e;
        dispatch_on(kernel, console, pid, cr3)
    } else {
        let mut e = m;
        e.waiting_queue[e.waiting_count] = pid;
        e.waiting_count += 1;
        kernel.mutexes[mutex_id] = e;
        let mut p = kernel.pcbs[pid as usize];
        p.state = ProcessState::Blocked;
        kernel.pcbs[pid as usize] = p;
        assert(kernel.mutexes@ =~= old(kernel).mutexes@.update(mutex_id as int, kernel.mutexes[mutex_id as int]));
        reschedule(kernel, console, cr3)
    }
}

/// Process `pid` lets go of mutex `mutex_id`: with nobody waiting the mutex
/// becomes free and the process resumes; otherwise the last waiter takes the
/// mutex, becomes ready and runs.
pub fn handle_release(kernel: &mut Kernel, console: &mut Console, pid: u32, mutex_id: usize, cr3: u64) -> (out: Outcome)
    requires
        old(kernel).wf(),
        pid < MAX_PROCESS_COUNT,
        mutex_id < MUTEX_COUNT,
        old(kernel).trace_room(1),
    ensures
        final(kernel).wf(),
        release_post(
            *old(kernel),
            old(console).cells@,
            *final(kernel),
            final(console).cells@,
            pid,
            mutex_id as int,
            cr3,
            out,
        ),
        final(console).cursor == old(console).cursor,
        final(console).status_line == old(console).status_line,
{
    proof {
        reveal_strlit("  handle release");
    }
    handler_trace(console, 16, "  handle release", pid);
    let m = kernel.mutexes[mutex_id];
    if m.waiting_count == 0 {
        let mut e = m;
        e.acquired = false;
        kernel.mutexes[mutex_id] = e;
        dispatch_on(kernel, console, pid, cr3)
    } else {
        let mut e = m;
        e.waiting_count -= 1;
        let pid_w = e.waiting_queue[e.waiting_count];
        e.by = pid_w;
        kernel.mutexes[mutex_id] = e;
        let mut p = kernel.pcbs[pid_w as usize];
        p.state = ProcessState::Ready;
        kernel.pcbs[pid_w as usize] = p;
        dispatch_on(kernel, console, pid_w, cr3)
    }
}

/// `handle_syscall(pid, number, arg)` takes kernel `old` and screen `oc` to
/// `new` and `nc` with result `eff`.
pub open spec fn syscall_post(
    old: Kernel,
    oc: Seq<(u8, u8)>,
    new: Kernel,
    nc: Seq<(u8, u8)>,
    pid: u32,
    number: u64,
    arg: u64,
    cr3: u64,
    eff: SyscallEffect,
) -> bool {
    if number == SYSCALL_ALLOC {
        alloc_post(old, oc, new, nc, pid, cr3, eff)
    } else if number == SYSCALL_TERMINATE {
        eff.reply is None && eff.page_write is None && terminate_post(old, oc, new, nc, pid, cr3, eff.outcome)
    } else if number == SYSCALL_PAUSE {
        eff.reply is None && eff.page_write is None && pause_post(old, oc, new, nc, pid, cr3, eff.outcome)
    } else if number == SYSCALL_ACQUIRE {
        eff.reply is None && eff.page_write is None && acquire_post(old, oc, new, nc, pid, arg as int, cr3, eff.outcome)
    } else if number == SYSCALL_RELEASE {
        eff.reply is None && eff.page_write is None && release_post(old, oc, new, nc, pid, arg as int, cr3, eff.outcome)
    } else {
        &&& eff == (SyscallEffect { reply: None, page_write: None, outcome: Outcome::Halt(Fault::UnknownSyscall) })
        &&& new == old
        &&& nc == fault_cells(oc, Fault::UnknownSyscall)
    }
}

/// Handles syscall `number` (r13) of process `pid`, with `arg` (r12) naming
/// the mutex for acquire and release; an unknown number is reported and
/// stops the kernel.
pub fn handle_syscall(
    kernel: &mut Kernel,
    console: &mut Console,
    pid: u32,
    number: u64,
    arg: u64,
    cr3: u64,
) -> (eff: SyscallEffect)
    requires
        old(kernel).wf(),
        pid < MAX_PROCESS_COUNT,
        number == SYSCALL_ALLOC ==> alloc_fits(*old(kernel), pid, cr3),
        number == SYSCALL_ACQUIRE || number == SYSCALL_RELEASE ==> arg < MUTEX_COUNT,
        number == SYSCALL_ACQUIRE ==> acquire_has_room(*old(kernel), pid, arg as int),
        old(kernel).trace_room(syscall_traces(number)),
    ensures
        final(kernel).wf(),
        syscall_post(*old(kernel), old(console).cells@, *final(kernel), final(console).cells@, pid, number, arg, cr3, eff),
        final(console).cursor == old(console).cursor,
        final(console).status_line == old(console).status_line,
{
    match number {
        1 => handle_alloc(kernel, console, pid, cr3),
        2 => {
            let outcome = handle_terminate(kernel, console, pid, cr3);
            SyscallEffect { reply: None, page_write: None, outcome }
        },
        3 => {
            let outcome = handle_pause(kernel, console, pid, cr3);
            SyscallEffect { reply: None, page_write: None, outcome }
        },
        4 => {
            let outcome = handle_acquire(kernel, console, pid, arg as usize, cr3);
            SyscallEffect { reply: None, page_write: None, outcome }
        },
        5 => {
            let outcome = handle_release(kernel, console, pid, arg as usize, cr3);
            SyscallEffect { reply: None, page_write: None, outcome }
        },
        _ => {
            show_fault(console, Fault::UnknownSyscall);
            SyscallEffect { reply: None, page_write: None, outcome: Outcome::Halt(Fault::UnknownSyscall) }
        },
    }
}

/// A process that takes a free mutex with nobody waiting and later lets go of
/// it, while in between nobody joined its queue (the mutex may have been let
/// go of by others meanwhile), leaves it free with nobody waiting and its
/// queue as it was.
pub proof fn lemma_acquire_then_release_frees(
    k0: Kernel,
    c0: Seq<(u8, u8)>,
    k1: Kernel,
    c1: Seq<(u8, u8)>,
    k2: Kernel,
    c2: Seq<(u8, u8)>,
    k3: Kernel,
    c3: Seq<(u8, u8)>,
    pid: u32,
    id: int,
    cr3: u64,
    out1: Outcome,
    out2: Outcome,
)
    requires
        0 <= id < MUTEX_COUNT,
        !k0.mutexes[id].acquired,
        k0.mutexes[id].waiting_count == 0,
        acquire_post(k0, c0, k1, c1, pid, id, cr3, out1),
        k2.mutexes[id].waiting_count == 0,
        k2.mutexes[id].waiting_queue == k1.mutexes[id].waiting_queue,
        release_post(k2, c2, k3, c3, pid, id, cr3, out2),
    ensures
        k1.mutexes[id].acquired,
        k1.mutexes[id].by == pid,
        !k3.mutexes[id].acquired,
        k3.mutexes[id].waiting_count == 0,
        k3.mutexes[id].waiting_queue == k0.mutexes[id].waiting_queue,
{
    assert(k1.mutexes@[id] == k1.mutexes[id]);
    assert(k3.mutexes@[id] == k3.mutexes[id]);
}

/// Letting go of a mutex nobody waits for, by whichever process, frees it and
/// leaves its queue as it was.
pub proof fn lemma_release_without_waiters(
    k0: Kernel,
    c0: Seq<(u8, u8)>,
    k1: Kernel,
    c1: Seq<(u8, u8)>,
    pid: u32,
    id: int,
    cr3: u64,
    out: Outcome,
)
    requires
        0 <= id < MUTEX_COUNT,
        k0.mutexes[id].waiting_count == 0,
        release_post(k0, c0, k1, c1, pid, id, cr3, out),
    ensures
        !k1.mutexes[id].acquired,
        k1.mutexes[id].waiting_count == 0,
        k1.mutexes[id].waiting_queue == k0.mutexes[id].waiting_queue,
{
    assert(k1.mutexes@[id] == k1.mutexes[id]);
}

/// A process that asks again for a mutex it holds keeps running: the mutex
/// table is unchanged, and the process is dispatched again, neither queued
/// nor blocked.
pub proof fn lemma_reacquire_keeps_table(
    old: Kernel,
    oc: Seq<(u8, u8)>,
    new: Kernel,
    nc: Seq<(u8, u8)>,
    pid: u32,
    id: int,
    cr3: u64,
    out: Outcome,
)
    requires
        pid < MAX_PROCESS_COUNT,
        0 <= id < MUTEX_COUNT,
        old.mutexes[id].acquired,
        old.mutexes[id].by == pid,
        old.pcbs[pid as int].state != ProcessState::Blocked,
        old.pcbs[pid as int].state != ProcessState::Uninitialized,
        acquire_post(old, oc, new, nc, pid, id, cr3, out),
    ensures
        new.mutexes == old.mutexes,
        new.pcbs[pid as int].state == ProcessState::Running,
        new.kcb.current_process == pid,
        out is Run,
{
}

/// A process asking for a mutex that another process holds waits for it: it
/// joins the end of the mutex's queue, the holder keeps the mutex, the caller
/// is blocked, and the round-robin scheduler takes over from the state with
/// the caller blocked. So when slot `q`, another process that can run, is the
/// first slot with an instruction pointer after the process that ran last,
/// `q` runs; the caller itself is never the process that runs.
pub proof fn lemma_acquire_held_elsewhere_waits(
    old: Kernel,
    oc: Seq<(u8, u8)>,
    new: Kernel,
    nc: Seq<(u8, u8)>,
    pid: u32,
    id: int,
    cr3: u64,
    out: Outcome,
    q: int,
)
    requires
        old.wf(),
        pid < MAX_PROCESS_COUNT,
        0 <= id < MUTEX_COUNT,
        old.mutexes[id].acquired,
        old.mutexes[id].by != pid,
        acquire_has_room(old, pid, id),
        acquire_post(old, oc, new, nc, pid, id, cr3, out),
        0 <= q < MAX_PROCESS_COUNT,
        q != pid,
        old.pcbs[q].eip != 0,
        old.pcbs[q].state != ProcessState::Blocked,
        old.pcbs[q].state != ProcessState::Uninitialized,
        forall|k: int|
            0 <= k < (q - scan_start(old.kcb.last_process) + 10) % 10 ==> #[trigger] old.pcbs[(scan_start(
                old.kcb.last_process,
            ) + k) % 10].eip == 0,
    ensures
        new.pcbs[pid as int].state == ProcessState::Blocked,
        new.mutexes[id].acquired,
        new.mutexes[id].by == old.mutexes[id].by,
        new.mutexes[id].waiting_count == old.mutexes[id].waiting_count + 1,
        new.mutexes[id].waiting_queue[old.mutexes[id].waiting_count as int] == pid,
        out is Run,
        new.kcb.current_process == q,
        new.pcbs[q].state == ProcessState::Running,
{
    let shown = handler_traced(oc, 16, "  handle acquire"@, pid);
    let s = (blocked(old.pcbs@, pid), old.kcb, old.trace_row as int, shown);
    assert(new.mutexes@[id] == new.mutexes[id]);
    assert forall|k: int|
        0 <= k < (q - scan_start(old.kcb.last_process) + 10) % 10 implies #[trigger] s.0[(scan_start(
            old.kcb.last_process,
        ) + k) % 10].eip == 0 by {
        assert(old.pcbs[(scan_start(old.kcb.last_process) + k) % 10].eip == 0);
    }
    lemma_picks_first_after_last(s, sched_state(new, nc), cr3, out, q);
    crate::scheduler::lemma_round_robin(s.0, s.1);
    assert(new.mutexes[id].waiting_queue@[old.mutexes[id].waiting_count as int] == pid);
}

/// A process asking for a mutex that another process holds is never the one
/// that runs next: it is blocked, and if the scheduler reaches it first the
/// kernel stops.
pub proof fn lemma_acquire_held_elsewhere_never_runs_caller(
    old: Kernel,
    oc: Seq<(u8, u8)>,
    new: Kernel,
    nc: Seq<(u8, u8)>,
    pid: u32,
    id: int,
    cr3: u64,
    out: Outcome,
)
    requires
        old.wf(),
        pid < MAX_PROCESS_COUNT,
        0 <= id < MUTEX_COUNT,
        old.mutexes[id].acquired,
        old.mutexes[id].by != pid,
        acquire_post(old, oc, new, nc, pid, id, cr3, out),
    ensures
        new.pcbs[pid as int].state == ProcessState::Blocked,
        out is Run ==> new.kcb.current_process != pid,
{
    let shown = handler_traced(oc, 16, "  handle acquire"@, pid);
    let s = (blocked(old.pcbs@, pid), old.kcb, old.trace_row as int, shown);
    crate::scheduler::lemma_round_robin(s.0, s.1);
}

/// A terminating process lets go only of the mutexes it holds: every other
/// mutex is left exactly as it was.
pub proof fn lemma_terminate_keeps_other_mutexes(
    old: Kernel,
    oc: Seq<(u8, u8)>,
    new: Kernel,
    nc: Seq<(u8, u8)>,
    pid: u32,
    cr3: u64,
    out: Outcome,
)
    requires
        terminate_post(old, oc, new, nc, pid, cr3, out),
    ensures
        forall|i: int|
            0 <= i < MUTEX_COUNT && !(old.mutexes[i].acquired && old.mutexes[i].by == pid) ==> #[trigger] new.mutexes[i]
                == old.mutexes[i],
{
    lemma_release_all_keeps_others(old.mutexes@, old.pcbs@, pid, 0);
    assert forall|i: int|
        0 <= i < MUTEX_COUNT && !(old.mutexes[i].acquired && old.mutexes[i].by == pid) implies #[trigger] new.mutexes[i]
            == old.mutexes[i] by {
        assert(new.mutexes@[i] == new.mutexes[i]);
        assert(old.mutexes@[i] == old.mutexes[i]);
    }
}

/// `release_all` from mutex `i` on changes no mutex before `i` and none that
/// `pid` does not hold.
proof fn lemma_release_all_keeps_others(ms: Seq<MutexEntry>, ps: Seq<PCB>, pid: u32, i: int)
    requires
        ms.len() == MUTEX_COUNT,
        0 <= i <= MUTEX_COUNT,
    ensures
        release_all(ms, ps, pid, i).0.len() == MUTEX_COUNT,
        forall|m: int| 0 <= m < i ==> #[trigger] release_all(ms, ps, pid, i).0[m] == ms[m],
        forall|m: int|
            0 <= m < MUTEX_COUNT && !(ms[m].acquired && ms[m].by == pid) ==> #[trigger] release_all(ms, ps, pid, i).0[m]
                == ms[m],
    decreases MUTEX_COUNT - i,
{
    if i < MUTEX_COUNT {
        if ms[i].acquired && ms[i].by == pid {
            if ms[i].waiting_count == 0 {
                lemma_release_all_keeps_others(ms.update(i, freed(ms[i])), ps, pid, i + 1);
            } else {
                lemma_release_all_keeps_others(
                    ms.update(i, hand_over(ms[i])),
                    woken(ps, last_waiter(ms[i])),
                    pid,
                    i + 1,
                );
            }
        } else {
            lemma_release_all_keeps_others(ms, ps, pid, i + 1);
        }
    }
}

/// The alloc syscall answers with the linear address of the process's new
/// page, `64 MiB + 2 MiB * n` for its new page count `n`; that address is 2
/// MiB aligned and its page number is the directory entry the page write
/// fills; the count goes up by one.
pub proof fn lemma_alloc_reply(
    old: Kernel,
    oc: Seq<(u8, u8)>,
    new: Kernel,
    nc: Seq<(u8, u8)>,
    pid: u32,
    cr3: u64,
    eff: SyscallEffect,
)
    requires
        pid < MAX_PROCESS_COUNT,
        alloc_fits(old, pid, cr3),
        alloc_post(old, oc, new, nc, pid, cr3, eff),
    ensures
        eff.reply is Some,
        eff.page_write is Some,
        eff.reply->0 as int == 0x4000000 + 0x200000 * (old.pcbs[pid as int].last_alloc_page + 1),
        eff.reply->0 % 0x200000 == 0,
        eff.page_write->0.addr as int == cr3 + (3 + 3 * pid) * 4096 + 2 * 4096 + (eff.reply->0 as int / 0x200000)
            * 8,
        new.pcbs[pid as int].last_alloc_page == old.pcbs[pid as int].last_alloc_page + 1,
{
    let n = old.pcbs[pid as int].last_alloc_page + 1;
    let va = eff.reply->0;
    assert(va as int == 0x4000000 + 0x200000 * n);
    assert(va as int % 0x200000 == 0 && va as int / 0x200000 == 32 + n) by (nonlinear_arith)
        requires
            va as int == 0x4000000 + 0x200000 * n,
            n >= 0,
    ;
}

/// Two alloc syscalls of one process, with its page count left alone in
/// between, answer with consecutive pages: the second address is 2 MiB above
/// the first.
pub proof fn lemma_alloc_twice(
    k0: Kernel,
    c0: Seq<(u8, u8)>,
    k1: Kernel,
    c1: Seq<(u8, u8)>,
    k2: Kernel,
    c2: Seq<(u8, u8)>,
    k3: Kernel,
    c3: Seq<(u8, u8)>,
    pid: u32,
    cr3: u64,
    e1: SyscallEffect,
    e2: SyscallEffect,
)
    requires
        pid < MAX_PROCESS_COUNT,
        alloc_fits(k0, pid, cr3),
        alloc_post(k0, c0, k1, c1, pid, cr3, e1),
        k2.pcbs[pid as int].last_alloc_page == k1.pcbs[pid as int].last_alloc_page,
        alloc_fits(k2, pid, cr3),
        alloc_post(k2, c2, k3, c3, pid, cr3, e2),
    ensures
        e2.reply->0 as int == e1.reply->0 as int + 0x200000,
{
    lemma_alloc_reply(k0, c0, k1, c1, pid, cr3, e1);
    lemma_alloc_reply(k2, c2, k3, c3, pid, cr3, e2);
}

/// Letting go of a mutex that processes wait for hands it to the one that
/// waited last: it leaves the queue, holds the mutex, and runs; the others
/// keep waiting in order.
pub proof fn lemma_release_hands_to_last_waiter(
    old: Kernel,
    oc: Seq<(u8, u8)>,
    new: Kernel,
    nc: Seq<(u8, u8)>,
    pid: u32,
    id: int,
    cr3: u64,
    out: Outcome,
)
    requires
        old.wf(),
        0 <= id < MUTEX_COUNT,
        old.mutexes[id].waiting_count > 0,
        release_post(old, oc, new, nc, pid, id, cr3, out),
    ensures
        ({
            let c = old.mutexes[id].waiting_count - 1;
            let w = old.mutexes[id].waiting_queue[c];
            &&& new.mutexes[id].by == w
            &&& new.mutexes[id].acquired == old.mutexes[id].acquired
            &&& new.mutexes[id].waiting_count == c
            &&& new.mutexes[id].waiting_queue == old.mutexes[id].waiting_queue
            &&& out is Run
            &&& new.kcb.current_process == w
            &&& new.pcbs[w as int].state == ProcessState::Running
        }),
{
    assert(old.mutexes[id].wf());
    assert(new.mutexes@[id] == new.mutexes[id]);
}

/// A process asking for a free mutex takes it and runs on, if it can run.
pub proof fn lemma_acquire_free_takes_it(
    old: Kernel,
    oc: Seq<(u8, u8)>,
    new: Kernel,
    nc: Seq<(u8, u8)>,
    pid: u32,
    id: int,
    cr3: u64,
    out: Outcome,
)
    requires
        pid < MAX_PROCESS_COUNT,
        0 <= id < MUTEX_COUNT,
        !old.mutexes[id].acquired,
        old.pcbs[pid as int].state != ProcessState::Blocked,
        old.pcbs[pid as int].state != ProcessState::Uninitialized,
        acquire_post(old, oc, new, nc, pid, id, cr3, out),
    ensures
        new.mutexes[id].acquired,
        new.mutexes[id].by == pid,
        new.mutexes[id].waiting_count == old.mutexes[id].waiting_count,
        out is Run,
        new.kcb.current_process == pid,
{
    assert(new.mutexes@[id] == new.mutexes[id]);
}

} // verus!
