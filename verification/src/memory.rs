use vstd::prelude::*;

use crate::process::{Kernel, PCB};

verus! {

/// Size of a (huge) page: 2 MiB.
pub const PAGE_SIZE: u64 = 0x200000;

/// End of the kernel's memory: 64 MiB. Frames for processes are taken from here on.
pub const KERNEL_END_ADDR: u64 = 0x4000000;

/// Pages of the kernel's identity mapping (`KERNEL_END_ADDR / PAGE_SIZE`).
pub const KERNEL_PAGES_COUNT: u64 = 32;

/// Bytes of one page table.
pub const TABLE_SIZE: u64 = 4096;

/// Entries of one page table.
pub const TABLE_ENTRIES: u64 = 512;

/// Bytes of a process's three page tables (PML4, PDPT, page directory).
pub const DIR_TABLE_SPAN: u64 = 12288;

/// Linear address where a program's code starts: the page after the kernel's 64 MiB
/// and the stack page (66 MiB).
pub const PROGRAM_CODE_VA: u64 = 0x4200000;

/// PML4 entry: present, writable, user accessible (a PML4 entry cannot be huge).
pub const MPL4_MASK: u64 = 0b00000111;

/// PDPT entry: present, writable, user accessible.
pub const MPL3_MASK: u64 = 0b00000111;

/// Kernel page: huge, present, writable, not accessible from ring 3.
pub const KERNEL_MASK: u64 = 0b10000011;

/// Allocated process page: huge, present, writable, accessible from ring 3.
pub const ALLOCATED_MASK: u64 = 0b10000111;

/// Page not given to the process: present and dirty bits, not accessible from ring 3.
pub const NOT_PRESENT_MASK: u64 = 0b1000001;

/// A 64-bit store into physical memory that the kernel performs.
#[derive(Copy, Clone, Debug, PartialEq, Eq, Structural)]
pub struct MemoryWrite {
    pub addr: u64,
    pub value: u64,
}

/// Physical address of the `n`-th frame handed out.
pub open spec fn frame_addr(n: int) -> int {
    n * PAGE_SIZE + KERNEL_END_ADDR
}

/// Physical address of the page tables of process `pid`, given the kernel's
/// page table at `cr3` (which is followed by its own three tables).
pub open spec fn dir_table_addr(cr3: int, pid: int) -> int {
    cr3 + (3 + 3 * pid) * TABLE_SIZE
}

/// Physical address of entry `i` of the page directory among the tables at `table`.
pub open spec fn pd_entry_addr(table: int, i: int) -> int {
    table + 2 * TABLE_SIZE + i * 8
}

/// Entry `i` of a new process's page directory whose stack and code pages are
/// the frames at `stack` and `code`.
pub open spec fn pd_entry(i: int, stack: u64, code: u64) -> u64 {
    if i < KERNEL_PAGES_COUNT {
        ((i * PAGE_SIZE) as u64) | KERNEL_MASK
    } else if i == KERNEL_PAGES_COUNT {
        stack | ALLOCATED_MASK
    } else if i == KERNEL_PAGES_COUNT + 1 {
        code | ALLOCATED_MASK
    } else {
        NOT_PRESENT_MASK
    }
}

/// The stores that set up a new process's page tables at `table`: the PML4
/// entry, the PDPT entry, then the page directory's entries in order.
pub open spec fn super_dir_writes(table: u64, stack: u64, code: u64) -> Seq<MemoryWrite> {
    seq![
        MemoryWrite { addr: table, value: ((table + TABLE_SIZE) as u64) | MPL4_MASK },
        MemoryWrite {
            addr: (table + TABLE_SIZE) as u64,
            value: ((table + 2 * TABLE_SIZE) as u64) | MPL3_MASK,
        },
    ] + Seq::new(
        TABLE_ENTRIES as nat,
        |i: int| MemoryWrite { addr: pd_entry_addr(table as int, i) as u64, value: pd_entry(i, stack, code) },
    )
}

/// Hands out the next 2 MiB frame above the kernel.
pub fn allocate_page(kernel: &mut Kernel) -> (addr: u64)
    requires
        old(kernel).can_allocate(1),
    ensures
        addr == frame_addr(old(kernel).current_alloc_page as int),
        final(kernel).current_alloc_page == old(kernel).current_alloc_page + 1,
        final(kernel).kcb == old(kernel).kcb,
        final(kernel).apt == old(kernel).apt,
        final(kernel).pcbs == old(kernel).pcbs,
        final(kernel).mutexes == old(kernel).mutexes,
        final(kernel).trace_row == old(kernel).trace_row,
{
    let addr = kernel.current_alloc_page * PAGE_SIZE + KERNEL_END_ADDR;
    kernel.current_alloc_page += 1;
    addr
}

/// Linear address where every program's code starts.
pub fn get_program_code_va() -> (va: u64)
    ensures
        va == PROGRAM_CODE_VA,
        va == (KERNEL_PAGES_COUNT + 1) * PAGE_SIZE,
{
    (KERNEL_PAGES_COUNT + 1) * PAGE_SIZE
}

/// Physical address of the page tables of process `pid`, given the kernel's
/// page table at `cr3`.
pub fn get_program_dir_table_addr(cr3: u64, pid: u32) -> (addr: u64)
    requires
        dir_table_addr(cr3 as int, pid as int) <= u64::MAX,
    ensures
        addr == dir_table_addr(cr3 as int, pid as int),
{
    cr3 + (3 + 3 * pid as u64) * TABLE_SIZE
}

/// Builds the page tables of process `pid`: one PML4 and one PDPT entry, the
/// kernel's first 64 MiB mapped one to one, two fresh frames (stack, then
/// code) mapped for the process, every other page marked unavailable to it.
/// Records the code frame in the process's control block. Returns the
/// tables' address and the stores that write them.
pub fn init_super_dir_table(kernel: &mut Kernel, pid: u32, cr3: u64) -> (ret: (u64, Vec<MemoryWrite>))
    requires
        pid < 10,
        old(kernel).can_allocate(2),
        dir_table_addr(cr3 as int, pid as int) + DIR_TABLE_SPAN <= u64::MAX,
    ensures
        ret.0 == dir_table_addr(cr3 as int, pid as int),
        ret.1@ == super_dir_writes(
            ret.0,
            frame_addr(old(kernel).current_alloc_page as int) as u64,
            frame_addr(old(kernel).current_alloc_page + 1) as u64,
        ),
        final(kernel).current_alloc_page == old(kernel).current_alloc_page + 2,
        final(kernel).pcbs@ == old(kernel).pcbs@.update(
            pid as int,
            PCB {
                code_physical_addr: frame_addr(old(kernel).current_alloc_page + 1) as u64,
                ..old(kernel).pcbs[pid as int]
            },
        ),
        final(kernel).kcb == old(kernel).kcb,
        final(kernel).apt == old(kernel).apt,
        final(kernel).mutexes == old(kernel).mutexes,
        final(kernel).trace_row == old(kernel).trace_row,
{
    let ghost stack = frame_addr(old(kernel).current_alloc_page as int) as u64;
    let ghost code = frame_addr(old(kernel).current_alloc_page + 1) as u64;
    let start_addr = get_program_dir_table_addr(cr3, pid);
    let ghost all = super_dir_writes(start_addr, stack, code);
    let mut writes: Vec<MemoryWrite> = Vec::new();
    // the first PML4 entry points at the PDPT, whose first entry points at the directory
    writes.push(MemoryWrite { addr: start_addr, value: (start_addr + TABLE_SIZE) | MPL4_MASK });
    writes.push(
        MemoryWrite { addr: start_addr + TABLE_SIZE, value: (start_addr + 2 * TABLE_SIZE) | MPL3_MASK },
    );
    assert(writes@ =~= all.take(2));
    // map the first 64 MiB one to one (kernel space)
    for i in 0..KERNEL_PAGES_COUNT
        invariant
            start_addr as int + DIR_TABLE_SPAN <= u64::MAX,
            all == super_dir_writes(start_addr, stack, code),
            writes@ == all.take(2 + i),
    {
        let offset = i * 8;
        writes.push(MemoryWrite { addr: 2 * TABLE_SIZE + start_addr + offset, value: (PAGE_SIZE * i) | KERNEL_MASK });
        assert(writes@ =~= all.take(2 + i + 1));
    }
    let mut code_addr: u64 = 0;
    // two pages for the process: its stack and its code
    for i in KERNEL_PAGES_COUNT..KERNEL_PAGES_COUNT + 2
        invariant
            start_addr as int + DIR_TABLE_SPAN <= u64::MAX,
            all == super_dir_writes(start_addr, stack, code),
            writes@ == all.take(2 + i),
            kernel.current_alloc_page == old(kernel).current_alloc_page + (i - KERNEL_PAGES_COUNT),
            old(kernel).can_allocate(2),
            stack == frame_addr(old(kernel).current_alloc_page as int) as u64,
            code == frame_addr(old(kernel).current_alloc_page + 1) as u64,
            i == KERNEL_PAGES_COUNT + 1 ==> code_addr == stack,
            i == KERNEL_PAGES_COUNT + 2 ==> code_addr == code,
            kernel.kcb == old(kernel).kcb,
            kernel.apt == old(kernel).apt,
            kernel.pcbs == old(kernel).pcbs,
            kernel.mutexes == old(kernel).mutexes,
            kernel.trace_row == old(kernel).trace_row,
    {
        code_addr = allocate_page(kernel);
        let offset = i * 8;
        writes.push(MemoryWrite { addr: 2 * TABLE_SIZE + start_addr + offset, value: code_addr | ALLOCATED_MASK });
        assert(writes@ =~= all.take(2 + i + 1));
    }
    // the program's code lies in the second of them
    let mut pcb = kernel.pcbs[pid as usize];
    pcb.code_physical_addr = code_addr;
    kernel.pcbs[pid as usize] = pcb;
    // the rest of the directory is not available to the process
    for i in KERNEL_PAGES_COUNT + 2..TABLE_ENTRIES
        invariant
            start_addr as int + DIR_TABLE_SPAN <= u64::MAX,
            all == super_dir_writes(start_addr, stack, code),
            writes@ == all.take(2 + i),
    {
        let offset = i * 8;
        writes.push(MemoryWrite { addr: 2 * TABLE_SIZE + start_addr + offset, value: NOT_PRESENT_MASK });
        assert(writes@ =~= all.take(2 + i + 1));
    }
    assert(all.take(2 + TABLE_ENTRIES) =~= all);
    (start_addr, writes)
}


/// The linear address of the `n`-th page allocated to a process: the page
/// after the kernel's and the process's first `n - 1` pages.
pub open spec fn alloc_page_va(n: int) -> u64 {
    (KERNEL_END_ADDR + PAGE_SIZE * n) as u64
}

/// The store by which `alloc_page(pid)` maps a fresh frame for process `pid`.
pub open spec fn alloc_page_write(kernel: Kernel, pid: u32, cr3: u64) -> MemoryWrite {
    let n = kernel.pcbs[pid as int].last_alloc_page + 1;
    MemoryWrite {
        addr: pd_entry_addr(dir_table_addr(cr3 as int, pid as int), KERNEL_PAGES_COUNT + n) as u64,
        value: (frame_addr(kernel.current_alloc_page + 1) as u64) | ALLOCATED_MASK,
    }
}

/// The stores and sums of `alloc_page(pid)` stay inside 64 bits: two more frames,
/// the page count, the directory entry's address and the returned address.
pub open spec fn alloc_fits(kernel: Kernel, pid: u32, cr3: u64) -> bool {
    let n = kernel.pcbs[pid as int].last_alloc_page + 1;
    &&& kernel.can_allocate(2)
    &&& n <= u64::MAX
    &&& pd_entry_addr(dir_table_addr(cr3 as int, pid as int), KERNEL_PAGES_COUNT + n) <= u64::MAX
    &&& KERNEL_END_ADDR + PAGE_SIZE * n <= u64::MAX
}

/// Whether `alloc_page(pid)` stays inside 64 bits, so that the kernel may
/// call it.
pub fn can_alloc_page(kernel: &Kernel, pid: u32, cr3: u64) -> (b: bool)
    requires
        pid < 10,
    ensures
        b == alloc_fits(*kernel, pid, cr3),
{
    let last = kernel.pcbs[pid as usize].last_alloc_page;
    if last == u64::MAX {
        return false;
    }
    let n = last as u128 + 1;
    let frames = (kernel.current_alloc_page as u128 + 2) * (PAGE_SIZE as u128) + KERNEL_END_ADDR as u128;
    let entry = cr3 as u128 + (3 + 3 * pid as u128) * (TABLE_SIZE as u128) + 2 * (TABLE_SIZE as u128) + (
    KERNEL_PAGES_COUNT as u128 + n) * 8;
    let va = KERNEL_END_ADDR as u128 + (PAGE_SIZE as u128) * n;
    frames <= u64::MAX as u128 + 1 && entry <= u64::MAX as u128 && va <= u64::MAX as u128
}

/// Gives process `pid` one more 2 MiB page: counts it in the process's
/// control block, maps a fresh frame at the next entry of its page directory,
/// and returns the linear address of the new page. A frame is taken from the
/// allocator and left unused before the mapped one is taken.
pub fn alloc_page(kernel: &mut Kernel, pid: u32, cr3: u64) -> (ret: (u64, MemoryWrite))
    requires
        pid < 10,
        alloc_fits(*old(kernel), pid, cr3),
    ensures
        ({
            let n = old(kernel).pcbs[pid as int].last_alloc_page + 1;
            &&& ret.0 == KERNEL_END_ADDR + PAGE_SIZE * n
            &&& ret.0 == (KERNEL_PAGES_COUNT + n) * PAGE_SIZE
            &&& ret.0 == alloc_page_va(n)
            &&& ret.1 == alloc_page_write(*old(kernel), pid, cr3)
            &&& final(kernel).pcbs@ == old(kernel).pcbs@.update(
                pid as int,
                PCB { last_alloc_page: n as u64, ..old(kernel).pcbs[pid as int] },
            )
        }),
        final(kernel).current_alloc_page == old(kernel).current_alloc_page + 2,
        final(kernel).kcb == old(kernel).kcb,
        final(kernel).apt == old(kernel).apt,
        final(kernel).mutexes == old(kernel).mutexes,
        final(kernel).trace_row == old(kernel).trace_row,
{
    let _unused = allocate_page(kernel);
    let super_table = get_program_dir_table_addr(cr3, pid);
    let mut pcb = kernel.pcbs[pid as usize];
    pcb.last_alloc_page += 1;
    kernel.pcbs[pid as usize] = pcb;
    let allocated_no = kernel.pcbs[pid as usize].last_alloc_page;
    let offset = (KERNEL_PAGES_COUNT + allocated_no) * 8;
    let frame = allocate_page(kernel);
    let write = MemoryWrite { addr: 2 * TABLE_SIZE + super_table + offset, value: frame | ALLOCATED_MASK };
    (KERNEL_END_ADDR + PAGE_SIZE * allocated_no, write)
}

/// Bits of a page-table entry: present.
pub open spec fn entry_present(v: u64) -> bool {
    v & 1 == 1
}

/// Bits of a page-table entry: accessible from ring 3.
pub open spec fn entry_user(v: u64) -> bool {
    v & 4 == 4
}

/// Bits of a page-table entry: maps a 2 MiB page rather than a table.
pub open spec fn entry_huge(v: u64) -> bool {
    v & 0x80 == 0x80
}

/// The 2 MiB frame a huge page-directory entry maps.
pub open spec fn entry_frame(v: u64) -> u64 {
    v & 0xffff_ffff_ffe0_0000
}

/// The 4 KiB-aligned table an entry of an upper level points at.
pub open spec fn entry_table(v: u64) -> u64 {
    v & 0xffff_ffff_ffff_f000
}

/// Frames handed out one after the other are distinct, lie above the
/// kernel's memory and are 2 MiB aligned.
pub proof fn lemma_frames(i: int, j: int)
    requires
        0 <= i,
        0 <= j,
        frame_addr(i) <= u64::MAX,
        frame_addr(j) <= u64::MAX,
    ensures
        i != j ==> frame_addr(i) != frame_addr(j),
        KERNEL_END_ADDR <= frame_addr(i),
        (frame_addr(i) as u64) & 0x1f_ffff == 0,
{
    let x = frame_addr(i) as u64;
    assert(x as int % 0x200000 == 0) by (nonlinear_arith)
        requires
            x as int == i * 0x200000 + 0x4000000,
    ;
    assert(x & 0x1f_ffff == 0) by (bit_vector)
        requires
            x % 0x200000 == 0,
    ;
}

/// A new process's page directory maps the kernel's first 64 MiB one to one
/// as huge pages out of reach of ring 3, its stack and code frames as huge
/// pages that ring 3 may use, and leaves every other page out of ring 3's reach.
pub proof fn lemma_process_page_directory(i: int, stack: u64, code: u64)
    requires
        0 <= i < TABLE_ENTRIES,
        stack & 0x1f_ffff == 0,
        code & 0x1f_ffff == 0,
    ensures
        i < KERNEL_PAGES_COUNT ==> {
            let v = pd_entry(i, stack, code);
            &&& entry_present(v)
            &&& entry_huge(v)
            &&& !entry_user(v)
            &&& entry_frame(v) == i * PAGE_SIZE
        },
        i == KERNEL_PAGES_COUNT ==> {
            let v = pd_entry(i, stack, code);
            entry_present(v) && entry_huge(v) && entry_user(v) && entry_frame(v) == stack
        },
        i == KERNEL_PAGES_COUNT + 1 ==> {
            let v = pd_entry(i, stack, code);
            entry_present(v) && entry_huge(v) && entry_user(v) && entry_frame(v) == code
        },
        i > KERNEL_PAGES_COUNT + 1 ==> !entry_user(pd_entry(i, stack, code)) && !entry_huge(
            pd_entry(i, stack, code),
        ),
{
    if i < KERNEL_PAGES_COUNT {
        let k = i as u64;
        assert(((k * 0x200000) as u64 | 0x83u64) & 1 == 1 && ((k * 0x200000) as u64 | 0x83u64) & 0x80 == 0x80
            && ((k * 0x200000) as u64 | 0x83u64) & 4 != 4
            && ((k * 0x200000) as u64 | 0x83u64) & 0xffff_ffff_ffe0_0000 == k * 0x200000) by (bit_vector)
            requires
                k < 32,
        ;
    } else if i == KERNEL_PAGES_COUNT {
        assert((stack | 0x87u64) & 1 == 1 && (stack | 0x87u64) & 0x80 == 0x80 && (stack | 0x87u64) & 4 == 4
            && (stack | 0x87u64) & 0xffff_ffff_ffe0_0000 == stack) by (bit_vector)
            requires
                stack & 0x1f_ffff == 0,
        ;
    } else if i == KERNEL_PAGES_COUNT + 1 {
        assert((code | 0x87u64) & 1 == 1 && (code | 0x87u64) & 0x80 == 0x80 && (code | 0x87u64) & 4 == 4
            && (code | 0x87u64) & 0xffff_ffff_ffe0_0000 == code) by (bit_vector)
            requires
                code & 0x1f_ffff == 0,
        ;
    } else {
        assert(0x41u64 & 4 != 4 && 0x41u64 & 0x80 != 0x80) by (bit_vector);
    }
}

/// The stores of a new process's page tables at a 4 KiB-aligned `table`
/// chain them: the PML4 entry points at the PDPT right after it, the PDPT
/// entry at the page directory after that, both present and open to ring 3;
/// store `2 + i` writes entry `i` of the page directory.
pub proof fn lemma_table_chain(table: u64, stack: u64, code: u64)
    requires
        table & 0xfff == 0,
        table + DIR_TABLE_SPAN <= u64::MAX,
    ensures
        super_dir_writes(table, stack, code).len() == 2 + TABLE_ENTRIES,
        super_dir_writes(table, stack, code)[0].addr == table,
        entry_table(super_dir_writes(table, stack, code)[0].value) == table + TABLE_SIZE,
        entry_present(super_dir_writes(table, stack, code)[0].value),
        entry_user(super_dir_writes(table, stack, code)[0].value),
        super_dir_writes(table, stack, code)[1].addr == table + TABLE_SIZE,
        entry_table(super_dir_writes(table, stack, code)[1].value) == table + 2 * TABLE_SIZE,
        entry_present(super_dir_writes(table, stack, code)[1].value),
        entry_user(super_dir_writes(table, stack, code)[1].value),
        forall|i: int|
            0 <= i < TABLE_ENTRIES ==> #[trigger] super_dir_writes(table, stack, code)[2 + i] == (MemoryWrite {
                addr: pd_entry_addr(table as int, i) as u64,
                value: pd_entry(i, stack, code),
            }),
{
    let t1 = (table + TABLE_SIZE) as u64;
    let t2 = (table + 2 * TABLE_SIZE) as u64;
    assert((t1 | 7u64) & 0xffff_ffff_ffff_f000 == t1 && (t1 | 7u64) & 1 == 1 && (t1 | 7u64) & 4 == 4)
        by (bit_vector)
        requires
            t1 == table + 4096,
            table & 0xfff == 0,
            table <= 0xffff_ffff_ffff_cfff,
    ;
    assert((t2 | 7u64) & 0xffff_ffff_ffff_f000 == t2 && (t2 | 7u64) & 1 == 1 && (t2 | 7u64) & 4 == 4)
        by (bit_vector)
        requires
            t2 == table + 8192,
            table & 0xfff == 0,
            table <= 0xffff_ffff_ffff_cfff,
    ;
}

/// The page that `alloc_page` hands to a process is the one that its store
/// maps: the store writes the directory entry for the returned address, and
/// that entry maps a fresh frame as a huge page that ring 3 may use.
pub proof fn lemma_alloc_page_mapping(kernel: Kernel, pid: u32, cr3: u64)
    requires
        pid < 10,
        alloc_fits(kernel, pid, cr3),
    ensures
        ({
            let n = kernel.pcbs[pid as int].last_alloc_page + 1;
            let w = alloc_page_write(kernel, pid, cr3);
            &&& alloc_page_va(n) % PAGE_SIZE == 0
            &&& w.addr == pd_entry_addr(dir_table_addr(cr3 as int, pid as int), alloc_page_va(n) as int / PAGE_SIZE as int)
            &&& entry_present(w.value)
            &&& entry_huge(w.value)
            &&& entry_user(w.value)
            &&& entry_frame(w.value) == frame_addr(kernel.current_alloc_page + 1)
            &&& frame_addr(kernel.current_alloc_page + 1) > frame_addr(kernel.current_alloc_page as int)
            &&& forall|j: int| 0 <= j <= kernel.current_alloc_page ==> #[trigger] frame_addr(j) < entry_frame(w.value)
        }),
{
    let n = kernel.pcbs[pid as int].last_alloc_page + 1;
    let va = alloc_page_va(n);
    assert(va as int == (KERNEL_PAGES_COUNT + n) * PAGE_SIZE);
    assert(va as int % PAGE_SIZE as int == 0 && va as int / PAGE_SIZE as int == KERNEL_PAGES_COUNT + n)
        by (nonlinear_arith)
        requires
            va as int == (32 + n) * 0x200000,
            n >= 0,
    ;
    lemma_frames(kernel.current_alloc_page + 1, kernel.current_alloc_page as int);
    assert forall|j: int| 0 <= j <= kernel.current_alloc_page implies #[trigger] frame_addr(j) < frame_addr(
        kernel.current_alloc_page + 1,
    ) by {
        assert(j * PAGE_SIZE <= kernel.current_alloc_page * PAGE_SIZE) by (nonlinear_arith)
            requires
                0 <= j <= kernel.current_alloc_page,
        ;
    }
    let f = frame_addr(kernel.current_alloc_page + 1) as u64;
    assert((f | 0x87u64) & 1 == 1 && (f | 0x87u64) & 0x80 == 0x80 && (f | 0x87u64) & 4 == 4
        && (f | 0x87u64) & 0xffff_ffff_ffe0_0000 == f) by (bit_vector)
        requires
            f & 0x1f_ffff == 0,
    ;
}

/// The page tables of different processes, and the kernel's own three tables
/// at `cr3`, lie in disjoint ranges.
pub proof fn lemma_tables_disjoint(cr3: int, p: int, q: int)
    requires
        0 <= p,
        0 <= q,
        p != q,
    ensures
        dir_table_addr(cr3, p) + DIR_TABLE_SPAN <= dir_table_addr(cr3, q) || dir_table_addr(cr3, q)
            + DIR_TABLE_SPAN <= dir_table_addr(cr3, p),
        cr3 + DIR_TABLE_SPAN <= dir_table_addr(cr3, p),
{
}

/// Every store that sets up a process's page tables at `table` lands inside
/// those tables: the 8 bytes it writes lie in `[table, table + DIR_TABLE_SPAN)`.
pub proof fn lemma_stores_in_own_tables(table: u64, stack: u64, code: u64)
    requires
        table + DIR_TABLE_SPAN <= u64::MAX,
    ensures
        forall|i: int|
            0 <= i < super_dir_writes(table, stack, code).len() ==> table <= (
            #[trigger] super_dir_writes(table, stack, code)[i]).addr && super_dir_writes(table, stack, code)[i].addr
                + 8 <= table + DIR_TABLE_SPAN,
{
    let w = super_dir_writes(table, stack, code);
    assert forall|i: int| 0 <= i < w.len() implies table <= (#[trigger] w[i]).addr && w[i].addr + 8 <= table
        + DIR_TABLE_SPAN by {
        if i >= 2 {
            assert(w[i].addr == pd_entry_addr(table as int, i - 2));
        }
    }
}

} // verus!
