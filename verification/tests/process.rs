use lib::memory::MemoryWrite;
use lib::process::{
    create_prcess, dispatch_off, dispatch_on, get_process_iterator_start, has_trace_room, load_apt, terminate, CodeCopy,
    Fault, Kernel, Outcome, ProcessState, Transfer, NO_PROCESS_RUNNING, TRACE_ROW_LIMIT,
};
use lib::scheduler::reschedule;
use lib::Console;

const CR3: u64 = 0x0010_0000;

fn booted() -> Kernel {
    let mut k = Kernel::new(0x1000);
    let mut c = Console::new();
    load_apt(&mut k, &mut c, 0x1000, 0x2000);
    let _ = create_prcess(&mut k, 0, CR3);
    let _ = create_prcess(&mut k, 1, CR3);
    k
}

#[test]
fn new_kernel_has_no_process() {
    let k = Kernel::new(0x1000);
    assert_eq!(k.kcb.current_process, NO_PROCESS_RUNNING);
    assert_eq!(NO_PROCESS_RUNNING, 10 ^ 5);
    assert!(k.pcbs.iter().all(|p| p.state == ProcessState::Uninitialized && p.eip == 0));
    assert!(k.apt.iter().all(|a| a.entry_addr == 0x1000));
}

#[test]
fn load_apt_registers_programs() {
    let mut k = Kernel::new(0);
    let mut c = Console::new();
    load_apt(&mut k, &mut c, 0x1000, 0x2000);
    assert_eq!(k.apt[0].entry_addr, 0x1000);
    assert_eq!(k.apt[1].entry_addr, 0x2000);
    assert_eq!(k.apt[0].size, 4096);
    assert_eq!(k.apt[0].pid, 0);
    // the second entry's pid is written from the first slot's number
    assert_eq!(k.apt[1].pid, 0);
    assert_eq!(k.apt[0].name.iter().collect::<String>(), "pr0gram1  ");
    assert_eq!(k.apt[1].name.iter().collect::<String>(), "pr0gram2  ");
    assert_eq!(k.apt[2].entry_addr, 0);
}

#[test]
fn create_process_sets_control_block() {
    let mut k = Kernel::new(0);
    let mut c = Console::new();
    load_apt(&mut k, &mut c, 0x1000, 0x2000);
    let (writes, copy) = create_prcess(&mut k, 1, CR3);
    assert_eq!(writes.len(), 514);
    assert_eq!(writes[0], MemoryWrite { addr: 0x10_6000, value: 0x10_7007 });
    assert_eq!(copy, CodeCopy { src: 0x2000, dst: 0x420_0000, words: 1000 });
    let p = k.pcbs[1];
    assert_eq!(p.pid, 1);
    assert_eq!(p.state, ProcessState::Created);
    assert_eq!((p.eip, p.esp, p.ebp), (0x420_0000, 0x420_0000, 0x420_0000));
    assert_eq!(p.page_table_addr, 0x10_6000);
    assert_eq!(p.last_alloc_page, 1);
    assert_eq!(p.code_physical_addr, 0x420_0000);
}

#[test]
fn dispatch_refuses_uninitialized() {
    let mut k = booted();
    let mut c = Console::new();
    assert_eq!(dispatch_on(&mut k, &mut c, 5, CR3), Outcome::Halt(Fault::UninitializedProcess));
    assert_eq!(k.kcb.current_process, NO_PROCESS_RUNNING);
}

#[test]
fn dispatch_refuses_blocked() {
    let mut k = booted();
    let mut c = Console::new();
    k.pcbs[1].state = ProcessState::Blocked;
    assert_eq!(dispatch_on(&mut k, &mut c, 1, CR3), Outcome::Halt(Fault::BlockedProcess));
    assert_eq!(k.pcbs[1].state, ProcessState::Blocked);
}

#[test]
fn dispatch_starts_created_process() {
    let mut k = booted();
    let mut c = Console::new();
    let out = dispatch_on(&mut k, &mut c, 0, 0x9000);
    assert_eq!(out, Outcome::Run(Transfer::Start { page_table_addr: 0x10_3000, sp: 0x420_0000, ip: 0x420_0000 }));
    assert_eq!(k.pcbs[0].state, ProcessState::Running);
    assert_eq!(k.kcb.current_process, 0);
    assert_eq!(k.kcb.page_table_addr, 0x9000);
}

#[test]
fn dispatch_off_then_on_resumes_after_sysenter() {
    let mut k = booted();
    let mut c = Console::new();
    let _ = dispatch_on(&mut k, &mut c, 0, CR3);
    assert_eq!(dispatch_off(&mut k, &mut c, 0x420_0010, 0x420_0800), Ok((0, CR3)));
    assert_eq!(k.pcbs[0].eip, 0x420_0012);
    assert_eq!(k.pcbs[0].esp, 0x420_0800 - 56);
    assert_eq!(k.pcbs[0].state, ProcessState::Ready);
    assert_eq!(k.kcb.current_process, NO_PROCESS_RUNNING);
    assert_eq!(k.kcb.last_process, 0);
    let out = dispatch_on(&mut k, &mut c, 0, CR3);
    assert_eq!(
        out,
        Outcome::Run(Transfer::Resume { page_table_addr: 0x10_3000, sp: 0x420_07c8, bp: 0x420_0000, ip: 0x420_0012 })
    );
}

#[test]
fn dispatch_off_wraps_registers() {
    let mut k = booted();
    let mut c = Console::new();
    let _ = dispatch_on(&mut k, &mut c, 1, CR3);
    assert_eq!(dispatch_off(&mut k, &mut c, u64::MAX - 1, 16), Ok((1, CR3)));
    assert_eq!(k.pcbs[1].eip, 0);
    assert_eq!(k.pcbs[1].esp, u64::MAX - 39);
}

#[test]
fn dispatch_off_without_process() {
    let mut k = booted();
    let mut c = Console::new();
    assert_eq!(dispatch_off(&mut k, &mut c, 1, 2), Err(Fault::NoProcessRunning));
    assert_eq!(k.pcbs[0].eip, 0x420_0000);
}

#[test]
fn terminate_clears_process() {
    let mut k = booted();
    let mut c = Console::new();
    let _ = dispatch_on(&mut k, &mut c, 1, CR3);
    terminate(&mut k, &mut c, 1);
    let p = k.pcbs[1];
    assert_eq!((p.ebp, p.esp, p.eip, p.page_table_addr, p.last_alloc_page), (0, 0, 0, 0, 0));
    assert_eq!(p.state, ProcessState::Running);
    assert_eq!(p.code_physical_addr, 0x460_0000);
    assert_eq!(k.kcb.current_process, NO_PROCESS_RUNNING);
}

#[test]
fn terminate_other_keeps_current() {
    let mut k = booted();
    let mut c = Console::new();
    let _ = dispatch_on(&mut k, &mut c, 1, CR3);
    terminate(&mut k, &mut c, 0);
    assert_eq!(k.kcb.current_process, 1);
    assert_eq!(k.pcbs[0].eip, 0);
}

#[test]
fn iterator_start_follows_last_process() {
    let mut k = booted();
    let mut c = Console::new();
    assert_eq!(get_process_iterator_start(&k), 0);
    k.kcb.last_process = 3;
    assert_eq!(get_process_iterator_start(&k), 4);
    k.kcb.last_process = 9;
    assert_eq!(get_process_iterator_start(&k), 0);
}

#[test]
fn reschedule_round_robin() {
    let mut k = booted();
    let mut c = Console::new();
    assert_eq!(
        reschedule(&mut k, &mut c, CR3),
        Outcome::Run(Transfer::Start { page_table_addr: 0x10_3000, sp: 0x420_0000, ip: 0x420_0000 })
    );
    assert_eq!(k.kcb.current_process, 0);
    assert_eq!(dispatch_off(&mut k, &mut c, 0x420_0100, 0x420_0f00), Ok((0, CR3)));
    let out = reschedule(&mut k, &mut c, CR3);
    assert_eq!(k.kcb.current_process, 1);
    assert_eq!(out, Outcome::Run(Transfer::Start { page_table_addr: 0x10_6000, sp: 0x420_0000, ip: 0x420_0000 }));
    assert_eq!(dispatch_off(&mut k, &mut c, 0x420_0200, 0x420_0e00), Ok((1, CR3)));
    // slots 2..9 have no instruction pointer: back to process 0
    let out = reschedule(&mut k, &mut c, CR3);
    assert_eq!(k.kcb.current_process, 0);
    assert_eq!(
        out,
        Outcome::Run(Transfer::Resume { page_table_addr: 0x10_3000, sp: 0x420_0ec8, bp: 0x420_0000, ip: 0x420_0102 })
    );
}

#[test]
fn reschedule_skips_terminated() {
    let mut k = booted();
    let mut c = Console::new();
    terminate(&mut k, &mut c, 0);
    let _ = reschedule(&mut k, &mut c, CR3);
    assert_eq!(k.kcb.current_process, 1);
}

#[test]
fn reschedule_with_nothing_to_run() {
    let mut k = booted();
    let mut c = Console::new();
    terminate(&mut k, &mut c, 0);
    terminate(&mut k, &mut c, 1);
    assert_eq!(reschedule(&mut k, &mut c, CR3), Outcome::Halt(Fault::NothingToRun));
    assert_eq!(k.kcb.current_process, NO_PROCESS_RUNNING);
}

#[test]
fn reschedule_dispatches_blocked_process_and_stops() {
    let mut k = booted();
    let mut c = Console::new();
    k.pcbs[0].state = ProcessState::Blocked;
    assert_eq!(reschedule(&mut k, &mut c, CR3), Outcome::Halt(Fault::BlockedProcess));
    assert_eq!(k.pcbs[0].state, ProcessState::Blocked);
    assert_eq!(k.kcb.current_process, NO_PROCESS_RUNNING);
    let msg = "Cant dispatch blocked process";
    let shown: String = (0..msg.len()).map(|i| c.cells[80 + i].1 as char).collect();
    assert_eq!(shown, msg);
}

#[test]
fn trace_room_checker() {
    let mut k = booted();
    assert!(has_trace_room(&k, 2));
    k.trace_row = TRACE_ROW_LIMIT;
    assert!(has_trace_room(&k, 1));
    assert!(!has_trace_room(&k, 2));
}

#[test]
fn dispatch_prints_trace_lines() {
    let mut k = booted();
    let mut c = Console::new();
    assert_eq!(k.trace_row, 4);
    let _ = dispatch_on(&mut k, &mut c, 1, CR3);
    assert_eq!(k.trace_row, 5);
    let row: String = (0..14).map(|i| c.cells[4 * 80 + i].1 as char).collect();
    assert_eq!(row, "1 dispatching.");
    assert_eq!(c.cells[4 * 80], (0xc8, b'1'));
    assert_eq!(c.cells[4 * 80 + 5].0, 0xa1);
    terminate(&mut k, &mut c, 1);
    assert_eq!(k.trace_row, 6);
    assert_eq!(c.cells[5 * 80], (0xc8, b'1'));
    assert_eq!(c.cells[5 * 80 + 2], (0x3f, b't'));
}

#[test]
fn dispatch_refusal_is_printed() {
    let mut k = booted();
    let mut c = Console::new();
    let _ = dispatch_on(&mut k, &mut c, 7, CR3);
    let msg = "Cant dispatch uninicialized process";
    let shown: String = (0..msg.len()).map(|i| c.cells[80 + i].1 as char).collect();
    assert_eq!(shown, msg);
    assert_eq!(c.cells[4 * 80], (0xc8, b'7'));
}

#[test]
fn trace_rows_past_the_screen_are_not_shown() {
    let mut k = booted();
    let mut c = Console::new();
    k.trace_row = 30;
    let before = c.cells;
    let _ = dispatch_on(&mut k, &mut c, 0, CR3);
    assert_eq!(k.trace_row, 31);
    assert_eq!(c.cells, before);
}

#[test]
fn load_apt_shows_row_2() {
    let mut k = Kernel::new(0);
    let mut c = Console::new();
    load_apt(&mut k, &mut c, 1, 2);
    let row: String = (0..10).map(|i| c.cells[2 * 80 + i].1 as char).collect();
    assert_eq!(row, "load_apt !");
    assert_eq!(c.cells[2 * 80].0, 0x2f);
    assert_eq!(c.cells[2 * 80 + 79], (0x2f, b' '));
}
