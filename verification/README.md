# corrOSion kernel logic, verified

The decisions of a small x86-64 teaching kernel, as a library proved with Verus:

- `src/lib.rs`: the VGA text console (printing lines, `putc` with its cursor
  rules, the status line and logo, fault messages), the kernel entry on
  `sysenter` (`kentry`) and the boot sequence (`kmain`).
- `src/idt.rs`: interrupt descriptor entries and the `lidt` operand.
- `src/memory.rs`: the 2 MiB frame allocator, the per-process page tables
  (as the stores that write them) and page allocation for processes.
- `src/process.rs`: process control blocks, dispatching a process on and off
  the processor, termination.
- `src/scheduler.rs`: round-robin choice of the next process.
- `src/syscall.rs`: the mutex table and the syscall handlers.
- `src/consistency.rs`: the invariant linking mutex queues to process states,
  kept by every kernel entry, and why a waiting queue never overflows.
- `src/programs/`: the syscalls the user programs make.

Everything that touches the hardware (CR3, model-specific registers, `lidt`,
`sysexit`, physical memory, the screen's memory) is done by `app/main.rs`,
which here plays the machine on a host and prints the screen.
