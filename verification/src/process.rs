use vstd::prelude::*;

use crate::memory::{
    dir_table_addr, frame_addr, init_super_dir_table, super_dir_writes, get_program_code_va,
    MemoryWrite, PROGRAM_CODE_VA, DIR_TABLE_SPAN,
};
use crate::syscall::MutexEntry;
use crate::{easy_print_line, fault_cells, line_cells, painted, cell_index, show_fault, trace, traced, Console};

verus! {

/// Number of process slots.
pub const MAX_PROCESS_COUNT: usize = 10;

/// The value of `current_process` and `last_process` while no process runs:
/// 15 (that is, `10 ^ 5`), beyond every process slot.
pub const NO_PROCESS_RUNNING: u32 = 15;

/// Bytes that the kernel pushes on a process's stack when the process enters
/// the kernel: seven registers (r12, r11, r10, r9, r8, rdi, rsi).
pub const SAVED_REGISTERS_SIZE: u64 = 56;

/// Length of the `sysenter` instruction, which a resumed process skips.
pub const SYSENTER_LEN: u64 = 2;

/// The row of the first trace line the kernel prints.
pub const FIRST_TRACE_ROW: i32 = 4;

/// The last row whose trace line the kernel can address: the digit's offset
/// `160 * row` into the text buffer must fit an `i32`.
pub const TRACE_ROW_LIMIT: i32 = 13_421_772;

/// 64-bit words of program code copied into a new process's code page.
pub const PROGRAM_COPY_WORDS: usize = 1000;

/// One entry of the table of all programs.
#[derive(Copy, Clone, Debug)]
pub struct AptEntry {
    pub pid: u32,
    pub start_addr: usize,
    /// Address of the program's entry function.
    pub entry_addr: u64,
    pub size: usize,
    pub name: [char; 10],
}

#[derive(Copy, Clone, Debug, PartialEq, Eq, Structural)]
pub enum ProcessState {
    Created,
    Ready,
    Blocked,
    Uninitialized,
    Running,
}

/// Process control block.
#[derive(Copy, Clone, Debug)]
pub struct PCB {
    pub pid: u32,
    pub ebp: u64,
    pub esp: u64,
    pub eip: u64,
    /// Page 1 is the stack, page 2 the program code.
    pub last_alloc_page: u64,
    pub page_table_addr: u64,
    /// Physical address of the program's code page.
    pub code_physical_addr: u64,
    pub state: ProcessState,
}

/// Kernel control block.
#[derive(Copy, Clone, Debug)]
pub struct KernelBlock {
    pub ebp: u64,
    pub current_process: u32,
    pub last_process: u32,
    /// The kernel's own page table, restored when a process enters the kernel.
    pub page_table_addr: u64,
}

/// Why the kernel stops: it prints a message and spins forever.
#[derive(Copy, Clone, Debug, PartialEq, Eq, Structural)]
pub enum Fault {
    UninitializedProcess,
    BlockedProcess,
    NoProcessRunning,
    UnknownSyscall,
    NothingToRun,
}

/// How the kernel leaves for a process (`sysexit`), after loading the
/// process's page table.
#[derive(Copy, Clone, Debug, PartialEq, Eq, Structural)]
pub enum Transfer {
    /// First run: enter the program at `ip` on the stack `sp`.
    Start { page_table_addr: u64, sp: u64, ip: u64 },
    /// Later runs: reload the saved registers from the stack at `sp`, then
    /// return to `ip` with frame pointer `bp` and stack pointer `sp` (the stack
    /// pointer is not moved past the saved registers).
    Resume { page_table_addr: u64, sp: u64, bp: u64, ip: u64 },
}

/// What the kernel does next.
#[derive(Copy, Clone, Debug, PartialEq, Eq, Structural)]
pub enum Outcome {
    Run(Transfer),
    Halt(Fault),
}

/// A copy of program code into a process's code page.
#[derive(Copy, Clone, Debug, PartialEq, Eq, Structural)]
pub struct CodeCopy {
    pub src: u64,
    pub dst: u64,
    pub words: usize,
}

/// The kernel's state: control block, program table, process control blocks,
/// the physical page allocator and the mutex table.
pub struct Kernel {
    pub kcb: KernelBlock,
    pub apt: [AptEntry; 10],
    pub pcbs: [PCB; 10],
    /// Number of 2 MiB frames handed out so far.
    pub current_alloc_page: u64,
    pub mutexes: [MutexEntry; 10],
    /// The row of the next trace line.
    pub trace_row: i32,
}

/// The part of the kernel's state that dispatching and scheduling read and
/// change: the process blocks, the control block, the next trace row, and the
/// screen's cells.
pub type SchedState = (Seq<PCB>, KernelBlock, int, Seq<(u8, u8)>);

/// The scheduling state of `k` with the screen `cells`.
pub open spec fn sched_state(k: Kernel, cells: Seq<(u8, u8)>) -> SchedState {
    (k.pcbs@, k.kcb, k.trace_row as int, cells)
}

/// `pid` names a process slot, or no process.
pub open spec fn slot_or_none(pid: u32) -> bool {
    pid == NO_PROCESS_RUNNING || pid < MAX_PROCESS_COUNT
}

/// The stack pointer saved for a process that entered the kernel with stack
/// pointer `sp`: below the registers pushed on its stack.
pub open spec fn saved_sp(sp: u64) -> u64 {
    vstd::wrapping::u64_specs::wrapping_sub(sp, SAVED_REGISTERS_SIZE)
}

/// The instruction pointer saved for a process that entered the kernel from
/// the `sysenter` at `ip`: the instruction after it.
pub open spec fn resume_ip(ip: u64) -> u64 {
    vstd::wrapping::u64_specs::wrapping_add(ip, SYSENTER_LEN)
}

/// The control block of a newly created process.
pub open spec fn created_pcb(id: u32, table: u64, code: u64) -> PCB {
    PCB {
        pid: id,
        ebp: PROGRAM_CODE_VA,
        esp: PROGRAM_CODE_VA,
        eip: PROGRAM_CODE_VA,
        last_alloc_page: 1,
        page_table_addr: table,
        code_physical_addr: code,
        state: ProcessState::Created,
    }
}

/// The control block of a terminated process: registers, page table and
/// allocation count cleared, state kept.
pub open spec fn terminated_pcb(p: PCB) -> PCB {
    PCB { ebp: 0, esp: 0, eip: 0, page_table_addr: 0, last_alloc_page: 0, ..p }
}

/// The kernel control block after process `pid` terminates.
pub open spec fn terminated_kcb(kcb: KernelBlock, pid: u32) -> KernelBlock {
    if pid == kcb.current_process {
        KernelBlock { current_process: NO_PROCESS_RUNNING, ..kcb }
    } else {
        kcb
    }
}

/// `dispatch_on(pid)` takes the state `s` to `t` with outcome `out`: a trace
/// line, then either the fault message or the switch to the process.
pub open spec fn dispatch_post(s: SchedState, t: SchedState, pid: u32, kernel_cr3: u64, out: Outcome) -> bool {
    let p = s.0[pid as int];
    let shown = traced(s.3, s.2, "  dispatching."@, 0xa1, pid);
    &&& t.2 == s.2 + 1
    &&& if p.state == ProcessState::Uninitialized {
        &&& t.0 == s.0
        &&& t.1 == s.1
        &&& t.3 == fault_cells(shown, Fault::UninitializedProcess)
        &&& out == Outcome::Halt(Fault::UninitializedProcess)
    } else if p.state == ProcessState::Blocked {
        &&& t.0 == s.0
        &&& t.1 == s.1
        &&& t.3 == fault_cells(shown, Fault::BlockedProcess)
        &&& out == Outcome::Halt(Fault::BlockedProcess)
    } else {
        &&& t.0 == s.0.update(pid as int, PCB { state: ProcessState::Running, ..p })
        &&& t.1 == KernelBlock { current_process: pid, page_table_addr: kernel_cr3, ..s.1 }
        &&& t.3 == shown
        &&& out == Outcome::Run(
            if p.state == ProcessState::Created {
                Transfer::Start { page_table_addr: p.page_table_addr, sp: p.esp, ip: p.eip }
            } else {
                Transfer::Resume { page_table_addr: p.page_table_addr, sp: p.esp, bp: p.ebp, ip: p.eip }
            },
        )
    }
}

/// `dispatch_off` with the process entering from `ip` with stack pointer `sp`
/// takes the state `s` to `t` and returns `ret`.
pub open spec fn dispatch_off_post(s: SchedState, t: SchedState, ip: u64, sp: u64, ret: Result<(u32, u64), Fault>) -> bool {
    &&& t.2 == s.2
    &&& if s.1.current_process == NO_PROCESS_RUNNING {
        &&& ret == Err::<(u32, u64), Fault>(Fault::NoProcessRunning)
        &&& t.0 == s.0
        &&& t.1 == s.1
        &&& t.3 == fault_cells(s.3, Fault::NoProcessRunning)
    } else {
        let pid = s.1.current_process;
        &&& ret == Ok::<(u32, u64), Fault>((pid, s.1.page_table_addr))
        &&& t.0 == s.0.update(
            pid as int,
            PCB { eip: resume_ip(ip), esp: saved_sp(sp), state: ProcessState::Ready, ..s.0[pid as int] },
        )
        &&& t.1 == KernelBlock { current_process: NO_PROCESS_RUNNING, last_process: pid, ..s.1 }
        &&& t.3 == s.3
    }
}

/// Where the round-robin scan starts: after the process that ran last.
pub open spec fn iterator_start(kcb: KernelBlock) -> int {
    if kcb.last_process == NO_PROCESS_RUNNING {
        0
    } else {
        (kcb.last_process + 1) % (MAX_PROCESS_COUNT as int)
    }
}

impl Kernel {
    /// Structural invariant: the control block names process slots, and every
    /// mutex queue fits its array and holds process slots.
    pub open spec fn wf(&self) -> bool {
        &&& slot_or_none(self.kcb.current_process)
        &&& slot_or_none(self.kcb.last_process)
        &&& forall|m: int| 0 <= m < 10 ==> (#[trigger] self.mutexes[m]).wf()
        &&& 0 <= self.trace_row
    }

    /// `n` more trace lines can be addressed.
    pub open spec fn trace_room(&self, n: int) -> bool {
        self.trace_row + n <= TRACE_ROW_LIMIT + 1
    }

    /// `n` more frames can be handed out without leaving the address space.
    pub open spec fn can_allocate(&self, n: int) -> bool {
        frame_addr(self.current_alloc_page + n) <= u64::MAX + 1
    }

    /// The kernel at boot: no process, every slot uninitialized, every mutex
    /// free; every program table entry points at `default_entry`.
    pub fn new(default_entry: u64) -> (k: Kernel)
        ensures
            k.wf(),
            k.kcb == (KernelBlock {
                ebp: 0,
                current_process: NO_PROCESS_RUNNING,
                last_process: NO_PROCESS_RUNNING,
                page_table_addr: 0,
            }),
            k.current_alloc_page == 0,
            k.trace_row == FIRST_TRACE_ROW,
            forall|i: int| 0 <= i < 10 ==> (#[trigger] k.pcbs[i]).state == ProcessState::Uninitialized
                && k.pcbs[i].eip == 0 && k.pcbs[i].esp == 0 && k.pcbs[i].ebp == 0
                && k.pcbs[i].pid == 0 && k.pcbs[i].last_alloc_page == 0
                && k.pcbs[i].page_table_addr == 0 && k.pcbs[i].code_physical_addr == 0,
            forall|i: int| 0 <= i < 10 ==> (#[trigger] k.apt[i]).entry_addr == default_entry
                && k.apt[i].pid == 0 && k.apt[i].size == 0 && k.apt[i].start_addr == 0,
            forall|m: int| 0 <= m < 10 ==> !(#[trigger] k.mutexes[m]).acquired
                && k.mutexes[m].waiting_count == 0 && k.mutexes[m].by == 0,
    {
        let pcb = PCB {
            pid: 0,
            ebp: 0,
            esp: 0,
            eip: 0,
            page_table_addr: 0,
            last_alloc_page: 0,
            code_physical_addr: 0,
            state: ProcessState::Uninitialized,
        };
        let entry = AptEntry { pid: 0, start_addr: 0, entry_addr: default_entry, size: 0, name: ['0'; 10] };
        let mutex = MutexEntry::new();
        Kernel {
            kcb: KernelBlock {
                page_table_addr: 0,
                ebp: 0,
                current_process: NO_PROCESS_RUNNING,
                last_process: NO_PROCESS_RUNNING,
            },
            apt: [entry; 10],
            pcbs: [pcb; 10],
            current_alloc_page: 0,
            mutexes: [mutex; 10],
            trace_row: FIRST_TRACE_ROW,
        }
    }
}

/// `new` is the program table `old` with the two programs, entered at
/// `program1_entry` and `program2_entry`, in its first two entries; both
/// entries carry pid 0, the second's copied from the first's slot number.
pub open spec fn apt_loaded(old: Seq<AptEntry>, new: Seq<AptEntry>, program1_entry: u64, program2_entry: u64) -> bool {
    &&& new == old.update(0, new[0]).update(1, new[1])
    &&& new[0].pid == 0
    &&& new[0].start_addr == 0
    &&& new[0].entry_addr == program1_entry
    &&& new[0].size == 4096
    &&& new[0].name@ == seq!['p', 'r', '0', 'g', 'r', 'a', 'm', '1', ' ', ' ']
    &&& new[1].pid == 0
    &&& new[1].start_addr == 0
    &&& new[1].entry_addr == program2_entry
    &&& new[1].size == 4096
    &&& new[1].name@ == seq!['p', 'r', '0', 'g', 'r', 'a', 'm', '2', ' ', ' ']
}

/// Whether `n` more trace lines can be addressed, so that the kernel may make
/// them.
pub fn has_trace_room(kernel: &Kernel, n: i32) -> (b: bool)
    ensures
        b == kernel.trace_room(n as int),
{
    (kernel.trace_row as i64) + (n as i64) <= (TRACE_ROW_LIMIT as i64) + 1
}

/// Registers the two programs in the program table, showing on row 2 that
/// it starts and that it is done.
pub fn load_apt(kernel: &mut Kernel, console: &mut Console, program1_entry: u64, program2_entry: u64)
    ensures
        apt_loaded(old(kernel).apt@, final(kernel).apt@, program1_entry, program2_entry),
        final(kernel).kcb == old(kernel).kcb,
        final(kernel).pcbs == old(kernel).pcbs,
        final(kernel).current_alloc_page == old(kernel).current_alloc_page,
        final(kernel).mutexes == old(kernel).mutexes,
        final(kernel).trace_row == old(kernel).trace_row,
        final(console).cells@ == painted(old(console).cells@, cell_index(2, 0), line_cells("load_apt !"@, 0x2f)),
        final(console).cursor == old(console).cursor,
        final(console).status_line == old(console).status_line,
{
    proof {
        reveal_strlit("load_apt .");
        reveal_strlit("load_apt !");
    }
    easy_print_line(console, 2, "load_apt .", 0x4f);
    assert(1usize << 12usize == 4096usize) by (bit_vector);
    // first program
    let id: usize = 0;
    kernel.apt[id] = AptEntry {
        pid: id as u32,
        start_addr: 0,
        entry_addr: program1_entry,
        size: 1 << 12usize,
        name: ['p', 'r', '0', 'g', 'r', 'a', 'm', '1', ' ', ' '],
    };
    // second program; its pid is written from the first program's slot number
    let id2: usize = 1;
    kernel.apt[id2] = AptEntry {
        pid: id as u32,
        start_addr: 0,
        entry_addr: program2_entry,
        size: 1 << 12usize,
        name: ['p', 'r', '0', 'g', 'r', 'a', 'm', '2', ' ', ' '],
    };
    assert(kernel.apt@ =~= old(kernel).apt@.update(0, kernel.apt[0]).update(1, kernel.apt[1]));
    easy_print_line(console, 2, "load_apt !", 0x2f);
    assert(console.cells@ =~= painted(old(console).cells@, cell_index(2, 0), line_cells("load_apt !"@, 0x2f)));
}

/// Creates process `id` from program `id` of the program table: builds its
/// page tables and sets its control block to run the program from the start.
/// Returns the stores that write the page tables and the copy of the
/// program's code into the process's code frame.
pub fn create_prcess(kernel: &mut Kernel, id: u32, kernel_cr3: u64) -> (ret: (Vec<MemoryWrite>, CodeCopy))
    requires
        id < MAX_PROCESS_COUNT,
        old(kernel).can_allocate(2),
        dir_table_addr(kernel_cr3 as int, id as int) + DIR_TABLE_SPAN <= u64::MAX,
    ensures
        ret.0@ == super_dir_writes(
            dir_table_addr(kernel_cr3 as int, id as int) as u64,
            frame_addr(old(kernel).current_alloc_page as int) as u64,
            frame_addr(old(kernel).current_alloc_page + 1) as u64,
        ),
        ret.1 == (CodeCopy {
            src: old(kernel).apt[id as int].entry_addr,
            dst: frame_addr(old(kernel).current_alloc_page + 1) as u64,
            words: PROGRAM_COPY_WORDS,
        }),
        final(kernel).pcbs@ == old(kernel).pcbs@.update(
            id as int,
            created_pcb(
                id,
                dir_table_addr(kernel_cr3 as int, id as int) as u64,
                frame_addr(old(kernel).current_alloc_page + 1) as u64,
            ),
        ),
        final(kernel).current_alloc_page == old(kernel).current_alloc_page + 2,
        final(kernel).kcb == old(kernel).kcb,
        final(kernel).apt == old(kernel).apt,
        final(kernel).mutexes == old(kernel).mutexes,
        final(kernel).trace_row == old(kernel).trace_row,
{
    let (super_dir, writes) = init_super_dir_table(kernel, id, kernel_cr3);
    let code_va = get_program_code_va();
    let mut pcb = kernel.pcbs[id as usize];
    pcb.pid = id;
    pcb.ebp = code_va;
    pcb.esp = code_va;
    pcb.eip = code_va;
    pcb.page_table_addr = super_dir;
    pcb.last_alloc_page = 1;
    pcb.state = ProcessState::Created;
    kernel.pcbs[id as usize] = pcb;
    // move the program's code to memory accessible from user space
    let copy = CodeCopy {
        src: kernel.apt[id as usize].entry_addr,
        dst: kernel.pcbs[id as usize].code_physical_addr,
        words: PROGRAM_COPY_WORDS,
    };
    assert(kernel.pcbs@ =~= old(kernel).pcbs@.update(
        id as int,
        created_pcb(id, super_dir, frame_addr(old(kernel).current_alloc_page + 1) as u64),
    ));
    (writes, copy)
}

/// Switches to process `pid` after a trace line: refuses a process that is
/// uninitialized or blocked, printing why; otherwise records it as running,
/// remembers the kernel's page table `kernel_cr3`, and says how to enter it.
pub fn dispatch_on(kernel: &mut Kernel, console: &mut Console, pid: u32, kernel_cr3: u64) -> (out: Outcome)
    requires
        old(kernel).wf(),
        pid < MAX_PROCESS_COUNT,
        old(kernel).trace_room(1),
    ensures
        final(kernel).wf(),
        dispatch_post(
            sched_state(*old(kernel), old(console).cells@),
            sched_state(*final(kernel), final(console).cells@),
            pid,
            kernel_cr3,
            out,
        ),
        final(kernel).apt == old(kernel).apt,
        final(kernel).current_alloc_page == old(kernel).current_alloc_page,
        final(kernel).mutexes == old(kernel).mutexes,
        final(console).cursor == old(console).cursor,
        final(console).status_line == old(console).status_line,
{
    proof {
        reveal_strlit("  dispatching.");
    }
    trace(console, kernel.trace_row, "  dispatching.", 0xa1, pid);
    kernel.trace_row += 1;
    let p = kernel.pcbs[pid as usize];
    if p.state == ProcessState::Uninitialized {
        show_fault(console, Fault::UninitializedProcess);
        return Outcome::Halt(Fault::UninitializedProcess);
    }
    if p.state == ProcessState::Blocked {
        show_fault(console, Fault::BlockedProcess);
        return Outcome::Halt(Fault::BlockedProcess);
    }
    kernel.kcb.current_process = pid;
    kernel.kcb.page_table_addr = kernel_cr3;
    let mut running = p;
    running.state = ProcessState::Running;
    kernel.pcbs[pid as usize] = running;
    if p.state != ProcessState::Created {
        // the process saved its registers on its stack when it left
        return Outcome::Run(
            Transfer::Resume { page_table_addr: p.page_table_addr, sp: p.esp, bp: p.ebp, ip: p.eip },
        );
    }
    Outcome::Run(Transfer::Start { page_table_addr: p.page_table_addr, sp: p.esp, ip: p.eip })
}

/// Takes the running process off the processor when it enters the kernel
/// from the `sysenter` at `user_ip` with stack pointer `user_sp`: saves where
/// it resumes, marks it ready and returns its pid with the kernel's page
/// table to switch back to; with no process running, prints so and refuses.
pub fn dispatch_off(kernel: &mut Kernel, console: &mut Console, user_ip: u64, user_sp: u64) -> (ret: Result<(u32, u64), Fault>)
    requires
        old(kernel).wf(),
    ensures
        final(kernel).wf(),
        dispatch_off_post(
            sched_state(*old(kernel), old(console).cells@),
            sched_state(*final(kernel), final(console).cells@),
            user_ip,
            user_sp,
            ret,
        ),
        old(kernel).kcb.current_process == NO_PROCESS_RUNNING ==> *final(kernel) == *old(kernel),
        final(kernel).apt == old(kernel).apt,
        final(kernel).current_alloc_page == old(kernel).current_alloc_page,
        final(kernel).mutexes == old(kernel).mutexes,
        final(console).cursor == old(console).cursor,
        final(console).status_line == old(console).status_line,
{
    if kernel.kcb.current_process == NO_PROCESS_RUNNING {
        show_fault(console, Fault::NoProcessRunning);
        return Err(Fault::NoProcessRunning);
    }
    let old_pid = kernel.kcb.current_process;
    let mut p = kernel.pcbs[old_pid as usize];
    // resume after the sysenter instruction, below the registers pushed on the stack
    p.eip = user_ip.wrapping_add(SYSENTER_LEN);
    p.esp = user_sp.wrapping_sub(SAVED_REGISTERS_SIZE);
    p.state = ProcessState::Ready;
    kernel.pcbs[old_pid as usize] = p;
    kernel.kcb.last_process = old_pid;
    kernel.kcb.current_process = NO_PROCESS_RUNNING;
    // back in the kernel's own page table
    Ok((old_pid, kernel.kcb.page_table_addr))
}

/// After a trace line, clears process `pid`'s registers, page table and
/// allocation count, so that the scheduler no longer picks it; if it was
/// running, no process runs now.
pub fn terminate(kernel: &mut Kernel, console: &mut Console, pid: u32)
    requires
        old(kernel).wf(),
        pid < MAX_PROCESS_COUNT,
        old(kernel).trace_room(1),
    ensures
        final(kernel).wf(),
        final(kernel).trace_row == old(kernel).trace_row + 1,
        final(console).cells@ == traced(old(console).cells@, old(kernel).trace_row as int, "  terminating."@, 0x3f, pid),
        final(console).cursor == old(console).cursor,
        final(console).status_line == old(console).status_line,
        final(kernel).pcbs@ == old(kernel).pcbs@.update(pid as int, terminated_pcb(old(kernel).pcbs[pid as int])),
        final(kernel).kcb == terminated_kcb(old(kernel).kcb, pid),
        final(kernel).apt == old(kernel).apt,
        final(kernel).current_alloc_page == old(kernel).current_alloc_page,
        final(kernel).mutexes == old(kernel).mutexes,
{
    proof {
        reveal_strlit("  terminating.");
    }
    trace(console, kernel.trace_row, "  terminating.", 0x3f, pid);
    kernel.trace_row += 1;
    let mut p = kernel.pcbs[pid as usize];
    p.ebp = 0;
    p.esp = 0;
    p.eip = 0;
    p.page_table_addr = 0;
    p.last_alloc_page = 0;
    kernel.pcbs[pid as usize] = p;
    if pid == kernel.kcb.current_process {
        kernel.kcb.current_process = NO_PROCESS_RUNNING;
    }
}

/// The slot where the round-robin scan for the next process starts: the one
/// after the process that ran last, or slot 0.
pub fn get_process_iterator_start(kernel: &Kernel) -> (start: usize)
    requires
        kernel.wf(),
    ensures
        start == iterator_start(kernel.kcb),
        start < MAX_PROCESS_COUNT,
        kernel.kcb.last_process == NO_PROCESS_RUNNING ==> start == 0,
        kernel.kcb.last_process < MAX_PROCESS_COUNT ==> start as int == (kernel.kcb.last_process + 1) % 10,
{
    if kernel.kcb.last_process == NO_PROCESS_RUNNING {
        return 0;
    }
    ((kernel.kcb.last_process + 1) % MAX_PROCESS_COUNT as u32) as usize
}

/// A process that enters the kernel from the `sysenter` at `ip` with stack
/// pointer `sp` and is dispatched again resumes at the instruction after the
/// `sysenter`, in its own page table and frame, with the stack pointer saved
/// below the registers it left on its stack (`sp` less their 56 bytes).
pub proof fn lemma_resume_after_sysenter(
    s: SchedState,
    ip: u64,
    sp: u64,
    mid: SchedState,
    pid: u32,
    kernel_cr3: u64,
    t: SchedState,
    out: Outcome,
)
    requires
        s.0.len() == MAX_PROCESS_COUNT,
        s.1.current_process != NO_PROCESS_RUNNING,
        s.1.current_process < MAX_PROCESS_COUNT,
        dispatch_off_post(s, mid, ip, sp, Ok((pid, s.1.page_table_addr))),
        dispatch_post(mid, t, pid, kernel_cr3, out),
    ensures
        pid == s.1.current_process,
        out == Outcome::Run(
            Transfer::Resume {
                page_table_addr: s.0[pid as int].page_table_addr,
                sp: saved_sp(sp),
                bp: s.0[pid as int].ebp,
                ip: resume_ip(ip),
            },
        ),
        vstd::wrapping::u64_specs::wrapping_add(saved_sp(sp), SAVED_REGISTERS_SIZE) == sp,
        resume_ip(ip) as int == (ip + SYSENTER_LEN) % 0x1_0000_0000_0000_0000,
        t.0[pid as int].state == ProcessState::Running,
        t.1.current_process == pid,
{
}

} // verus!
