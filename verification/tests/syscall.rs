use lib::idt::IdtEntry;
use lib::idt::IdtDescriptor;
use lib::memory::ALLOCATED_MASK;
use lib::process::{create_prcess, load_apt, Fault, Kernel, Outcome, ProcessState, Transfer, NO_PROCESS_RUNNING};
use lib::programs::program1;
use lib::programs::program2::main2;
use lib::programs::user::{
    acquire_resource, alloc_memory, putc, release_resource, terminate_process, yield_process, SyscallRequest,
};
use lib::memory::can_alloc_page;
use lib::syscall::{
    handle_acquire, handle_pause, handle_release, handle_syscall, handle_terminate, queue_has_room, syscall_trace_count,
    MutexEntry,
};
use lib::{kentry, kmain, Console};

const CR3: u64 = 0x0010_0000;

fn three_processes() -> Kernel {
    let mut k = Kernel::new(0x1000);
    let mut c = Console::new();
    load_apt(&mut k, &mut c, 0x1000, 0x2000);
    for id in 0..3 {
        let _ = create_prcess(&mut k, id, CR3);
    }
    k
}

#[test]
fn new_mutex_is_free() {
    let m = MutexEntry::new();
    assert!(!m.acquired);
    assert_eq!(m.waiting_count, 0);
}

#[test]
fn acquire_free_mutex() {
    let mut k = three_processes();
    let mut c = Console::new();
    let out = handle_acquire(&mut k, &mut c, 0, 3, CR3);
    assert!(k.mutexes[3].acquired);
    assert_eq!(k.mutexes[3].by, 0);
    assert_eq!(k.kcb.current_process, 0);
    assert!(matches!(out, Outcome::Run(Transfer::Start { .. })));
}

#[test]
fn acquire_again_by_holder() {
    let mut k = three_processes();
    let mut c = Console::new();
    let _ = handle_acquire(&mut k, &mut c, 0, 3, CR3);
    k.pcbs[0].state = ProcessState::Ready;
    let out = handle_acquire(&mut k, &mut c, 0, 3, CR3);
    assert_eq!(k.mutexes[3].waiting_count, 0);
    assert!(matches!(out, Outcome::Run(Transfer::Resume { .. })));
}

#[test]
fn acquire_held_mutex_waits() {
    let mut k = three_processes();
    let mut c = Console::new();
    let _ = handle_acquire(&mut k, &mut c, 0, 0, CR3);
    k.kcb.current_process = NO_PROCESS_RUNNING;
    let _ = handle_acquire(&mut k, &mut c, 1, 0, CR3);
    let _ = handle_acquire(&mut k, &mut c, 2, 0, CR3);
    let m = k.mutexes[0];
    assert_eq!(m.by, 0);
    assert_eq!(m.waiting_count, 2);
    assert_eq!(&m.waiting_queue[..2], &[1, 2]);
    assert_eq!(k.pcbs[1].state, ProcessState::Blocked);
    assert_eq!(k.pcbs[2].state, ProcessState::Blocked);
}

#[test]
fn release_hands_mutex_to_last_waiter() {
    let mut k = three_processes();
    let mut c = Console::new();
    let _ = handle_acquire(&mut k, &mut c, 0, 0, CR3);
    let _ = handle_acquire(&mut k, &mut c, 1, 0, CR3);
    let _ = handle_acquire(&mut k, &mut c, 2, 0, CR3);
    let out = handle_release(&mut k, &mut c, 0, 0, CR3);
    assert_eq!(k.mutexes[0].by, 2);
    assert!(k.mutexes[0].acquired);
    assert_eq!(k.mutexes[0].waiting_count, 1);
    assert_eq!(k.pcbs[2].state, ProcessState::Running);
    assert_eq!(k.kcb.current_process, 2);
    // woken from the queue it is ready, no longer created: it is resumed
    assert!(matches!(out, Outcome::Run(Transfer::Resume { page_table_addr: 0x10_9000, .. })));
    assert_eq!(k.pcbs[1].state, ProcessState::Blocked);
}

#[test]
fn release_without_waiters_frees() {
    let mut k = three_processes();
    let mut c = Console::new();
    let _ = handle_acquire(&mut k, &mut c, 0, 4, CR3);
    k.pcbs[0].state = ProcessState::Ready;
    let out = handle_release(&mut k, &mut c, 0, 4, CR3);
    assert!(!k.mutexes[4].acquired);
    assert!(matches!(out, Outcome::Run(Transfer::Resume { .. })));
}

#[test]
fn terminate_passes_mutexes_on() {
    let mut k = three_processes();
    let mut c = Console::new();
    let _ = handle_acquire(&mut k, &mut c, 2, 0, CR3);
    let _ = handle_acquire(&mut k, &mut c, 2, 1, CR3);
    let _ = handle_acquire(&mut k, &mut c, 1, 0, CR3);
    k.kcb.current_process = NO_PROCESS_RUNNING;
    let out = handle_terminate(&mut k, &mut c, 2, CR3);
    assert_eq!(k.mutexes[0].by, 1);
    assert_eq!(k.mutexes[0].waiting_count, 0);
    assert!(k.mutexes[0].acquired);
    assert!(!k.mutexes[1].acquired);
    assert_eq!(k.pcbs[2].eip, 0);
    // process 1 is ready again; the scan starts after the last process (none ran): process 0
    assert_eq!(k.kcb.current_process, 0);
    assert!(matches!(out, Outcome::Run(_)));
    assert_ne!(k.pcbs[1].state, ProcessState::Blocked);
}

#[test]
fn pause_reschedules() {
    let mut k = three_processes();
    let mut c = Console::new();
    k.kcb.last_process = 0;
    let out = handle_pause(&mut k, &mut c, 0, CR3);
    assert_eq!(k.kcb.current_process, 1);
    assert!(matches!(out, Outcome::Run(_)));
}

#[test]
fn alloc_syscall_replies_address() {
    let mut k = three_processes();
    let mut c = Console::new();
    let eff = handle_syscall(&mut k, &mut c, 1, 1, 0, CR3);
    assert_eq!(eff.reply, Some(0x440_0000));
    let w = eff.page_write.unwrap();
    assert_eq!(w.addr, 0x10_6000 + 8192 + 34 * 8);
    assert_eq!(w.value, (0x400_0000 + 7 * 0x20_0000) | ALLOCATED_MASK);
    assert_eq!(k.kcb.current_process, 1);
}

#[test]
fn unknown_syscall_stops() {
    let mut k = three_processes();
    let mut c = Console::new();
    let eff = handle_syscall(&mut k, &mut c, 0, 6, 0x1f41, CR3);
    assert_eq!(eff.outcome, Outcome::Halt(Fault::UnknownSyscall));
    assert_eq!(eff.reply, None);
    assert_eq!(k.kcb.current_process, NO_PROCESS_RUNNING);
}

#[test]
fn user_requests() {
    assert_eq!(alloc_memory(), SyscallRequest { number: 1, arg: None });
    assert_eq!(terminate_process(), SyscallRequest { number: 2, arg: None });
    assert_eq!(yield_process(), SyscallRequest { number: 3, arg: None });
    assert_eq!(acquire_resource(7), SyscallRequest { number: 4, arg: Some(7) });
    assert_eq!(release_resource(7), SyscallRequest { number: 5, arg: Some(7) });
    assert_eq!(putc((0x1f, 'A')), SyscallRequest { number: 6, arg: Some(0x1f41) });
}

#[test]
fn programs_requests() {
    assert_eq!(program1::main(), vec![SyscallRequest { number: 2, arg: None }]);
    assert_eq!(
        main2(),
        vec![
            SyscallRequest { number: 4, arg: Some(0) },
            SyscallRequest { number: 3, arg: None },
            SyscallRequest { number: 2, arg: None },
        ]
    );
}

#[test]
fn kentry_without_process() {
    let mut k = three_processes();
    let mut c = Console::new();
    let mut c = Console::new();
    let eff = kentry(&mut k, &mut c, 0, 0, 3, 0);
    assert_eq!(eff.outcome, Outcome::Halt(Fault::NoProcessRunning));
    assert_eq!(c.cells[24 * 80], (0x70, b'#'));
}

#[test]
fn boot_then_run_both_programs() {
    let mut k = Kernel::new(0x1000);
    let mut c = Console::new();
    let mut idt = [IdtEntry::empty(); 256];
    let mut idtr = IdtDescriptor::empty();
    let plan = kmain(&mut k, &mut c, &mut idt, &mut idtr, 0x08, 0x0020_1000, 0x0030_0000, 0x1000, 0x2000, CR3);
    assert_eq!(plan.page_writes.len(), 2 * 514);
    assert_eq!(plan.code_copies.len(), 2);
    assert_eq!(plan.code_copies[1].dst, 0x460_0000);
    assert_eq!(idtr.size, 4095);
    assert_eq!(idtr.offset, 0x0030_0000);
    assert_eq!(idt[0].attribute, 0b10001110);
    assert_eq!(idt[0].offsetl, 0x1000);
    assert_eq!(idt[0].offsetm, 0x0020);
    assert_eq!(c.cells[0], (0x4f, b'k'));
    assert_eq!(c.cells[80], (0x1f, b'8'));
    assert_eq!(c.cells[24 * 80 + 75], (0xfc, b'O'));
    assert_eq!(
        plan.outcome,
        Outcome::Run(Transfer::Start { page_table_addr: 0x10_3000, sp: 0x420_0000, ip: 0x420_0000 })
    );
    // program 1 ends itself
    let call = program1::main()[0];
    let eff = kentry(&mut k, &mut c, 0x420_0040, 0x420_0f00, call.number, 0);
    assert_eq!(eff.outcome, Outcome::Run(Transfer::Start { page_table_addr: 0x10_6000, sp: 0x420_0000, ip: 0x420_0000 }));
    // program 2: mutex 0, pause, end
    let calls = main2();
    let eff = kentry(&mut k, &mut c, 0x420_0010, 0x420_0f00, calls[0].number, calls[0].arg.unwrap());
    assert!(k.mutexes[0].acquired);
    assert_eq!(k.mutexes[0].by, 1);
    assert_eq!(
        eff.outcome,
        Outcome::Run(Transfer::Resume { page_table_addr: 0x10_6000, sp: 0x420_0ec8, bp: 0x420_0000, ip: 0x420_0012 })
    );
    let eff = kentry(&mut k, &mut c, 0x420_0020, 0x420_0f00, calls[1].number, 0);
    assert_eq!(k.kcb.current_process, 1);
    assert!(matches!(eff.outcome, Outcome::Run(Transfer::Resume { ip: 0x420_0022, .. })));
    let eff = kentry(&mut k, &mut c, 0x420_0030, 0x420_0f00, calls[2].number, 0);
    assert!(!k.mutexes[0].acquired);
    assert_eq!(eff.outcome, Outcome::Halt(Fault::NothingToRun));
}

#[test]
fn queue_holds_every_other_process() {
    let mut k = Kernel::new(0x1000);
    let mut c = Console::new();
    for id in 0..10 {
        let _ = create_prcess(&mut k, id, CR3);
    }
    let _ = handle_acquire(&mut k, &mut c, 0, 9, CR3);
    k.kcb.current_process = NO_PROCESS_RUNNING;
    for pid in 1..10 {
        let _ = handle_acquire(&mut k, &mut c, pid, 9, CR3);
    }
    let m = k.mutexes[9];
    assert_eq!(m.waiting_count, 9);
    assert_eq!(&m.waiting_queue[..9], &[1, 2, 3, 4, 5, 6, 7, 8, 9]);
    assert!((1..10).all(|pid| k.pcbs[pid].state == ProcessState::Blocked));
    // releasing wakes them from the last to the first
    for expected in (1..10).rev() {
        let _ = handle_release(&mut k, &mut c, 0, 9, CR3);
        assert_eq!(k.mutexes[9].by, expected);
    }
    assert_eq!(k.mutexes[9].waiting_count, 0);
}

#[test]
fn acquire_then_release_frees_mutex() {
    let mut k = three_processes();
    let mut c = Console::new();
    let queue_before = k.mutexes[5].waiting_queue;
    let _ = handle_acquire(&mut k, &mut c, 1, 5, CR3);
    k.kcb.current_process = NO_PROCESS_RUNNING;
    k.pcbs[1].state = ProcessState::Ready;
    let _ = handle_pause(&mut k, &mut c, 1, CR3);
    k.kcb.current_process = NO_PROCESS_RUNNING;
    let _ = handle_release(&mut k, &mut c, 1, 5, CR3);
    assert!(!k.mutexes[5].acquired);
    assert_eq!(k.mutexes[5].waiting_count, 0);
    assert_eq!(k.mutexes[5].waiting_queue, queue_before);
}

#[test]
fn paused_holder_hands_over_to_blocked_waiter_and_stops() {
    let mut k = Kernel::new(0x1000);
    let mut c = Console::new();
    load_apt(&mut k, &mut c, 0x1000, 0x2000);
    let _ = create_prcess(&mut k, 0, CR3);
    let _ = create_prcess(&mut k, 1, CR3);
    // process 0 takes mutex 0 and leaves the processor
    let _ = handle_acquire(&mut k, &mut c, 0, 0, CR3);
    k.kcb.current_process = NO_PROCESS_RUNNING;
    k.kcb.last_process = 0;
    k.pcbs[0].state = ProcessState::Ready;
    // process 1 blocks on it
    let _ = handle_acquire(&mut k, &mut c, 1, 0, CR3);
    assert_eq!(k.pcbs[1].state, ProcessState::Blocked);
    k.kcb.current_process = NO_PROCESS_RUNNING;
    k.pcbs[0].state = ProcessState::Ready;
    // process 0 pauses: the scan from slot 1 reaches the blocked process first
    let out = handle_pause(&mut k, &mut c, 0, CR3);
    assert_eq!(out, Outcome::Halt(Fault::BlockedProcess));
    let row: String = (0..14).map(|i| c.cells[15 * 80 + i].1 as char).collect();
    assert_eq!(row, "0 handle pause");
    assert_eq!(c.cells[15 * 80], (0x1f, b'0'));
}

#[test]
fn syscall_checkers() {
    let mut k = three_processes();
    assert_eq!(syscall_trace_count(2), 2);
    assert_eq!(syscall_trace_count(4), 1);
    assert_eq!(syscall_trace_count(6), 0);
    assert!(can_alloc_page(&k, 0, CR3));
    assert!(!can_alloc_page(&k, 0, u64::MAX - 100));
    k.pcbs[0].last_alloc_page = u64::MAX;
    assert!(!can_alloc_page(&k, 0, CR3));
    assert!(queue_has_room(&k, 1, 0));
    k.mutexes[0].acquired = true;
    k.mutexes[0].by = 2;
    k.mutexes[0].waiting_count = 10;
    assert!(!queue_has_room(&k, 1, 0));
    assert!(queue_has_room(&k, 2, 0));
}
