use lib::memory::{
    alloc_page, allocate_page, get_program_code_va, get_program_dir_table_addr, init_super_dir_table,
    MemoryWrite, ALLOCATED_MASK, KERNEL_MASK, NOT_PRESENT_MASK,
};
use lib::process::{create_prcess, Kernel, ProcessState};

const CR3: u64 = 0x0010_0000;

#[test]
fn program_code_va_is_66_mib() {
    assert_eq!(get_program_code_va(), 0x420_0000);
}

#[test]
fn dir_table_addr_per_process() {
    assert_eq!(get_program_dir_table_addr(CR3, 0), CR3 + 3 * 4096);
    assert_eq!(get_program_dir_table_addr(CR3, 2), CR3 + 9 * 4096);
}

#[test]
fn frames_follow_each_other() {
    let mut k = Kernel::new(0);
    assert_eq!(allocate_page(&mut k), 0x400_0000);
    assert_eq!(allocate_page(&mut k), 0x420_0000);
    assert_eq!(allocate_page(&mut k), 0x440_0000);
    assert_eq!(k.current_alloc_page, 3);
}

#[test]
fn super_dir_table_layout() {
    let mut k = Kernel::new(0);
    let (table, writes) = init_super_dir_table(&mut k, 0, CR3);
    assert_eq!(table, 0x10_3000);
    assert_eq!(writes.len(), 514);
    assert_eq!(writes[0], MemoryWrite { addr: 0x10_3000, value: 0x10_4007 });
    assert_eq!(writes[1], MemoryWrite { addr: 0x10_4000, value: 0x10_5007 });
    assert_eq!(writes[2], MemoryWrite { addr: 0x10_5000, value: KERNEL_MASK });
    assert_eq!(writes[2 + 31], MemoryWrite { addr: 0x10_5000 + 31 * 8, value: 31 * 0x20_0000 | KERNEL_MASK });
    assert_eq!(writes[2 + 32], MemoryWrite { addr: 0x10_5100, value: 0x400_0000 | ALLOCATED_MASK });
    assert_eq!(writes[2 + 33], MemoryWrite { addr: 0x10_5108, value: 0x420_0000 | ALLOCATED_MASK });
    assert_eq!(writes[2 + 34], MemoryWrite { addr: 0x10_5110, value: NOT_PRESENT_MASK });
    assert_eq!(writes[513], MemoryWrite { addr: 0x10_5ff8, value: NOT_PRESENT_MASK });
    assert_eq!(k.pcbs[0].code_physical_addr, 0x420_0000);
    assert_eq!(k.current_alloc_page, 2);
    assert_eq!(k.pcbs[0].state, ProcessState::Uninitialized);
}

#[test]
fn kernel_entries_are_supervisor_huge_pages() {
    let mut k = Kernel::new(0);
    let (_, writes) = init_super_dir_table(&mut k, 1, CR3);
    for i in 0..32u64 {
        let v = writes[2 + i as usize].value;
        assert_eq!(v & 0xffff_ffff_ffe0_0000, i * 0x20_0000);
        assert_eq!(v & 1, 1);
        assert_eq!(v & 0x80, 0x80);
        assert_eq!(v & 4, 0);
    }
    for i in 34..512usize {
        assert_eq!(writes[2 + i].value & 4, 0);
    }
}

#[test]
fn alloc_page_maps_returned_address() {
    let mut k = Kernel::new(0);
    let _ = create_prcess(&mut k, 0, CR3);
    let _ = create_prcess(&mut k, 1, CR3);
    assert_eq!(k.current_alloc_page, 4);
    let (va, w) = alloc_page(&mut k, 0, CR3);
    // the process's second page; one frame is skipped, the next one is mapped
    assert_eq!(va, 0x440_0000);
    assert_eq!(w, MemoryWrite { addr: 0x10_5000 + (va / 0x20_0000) * 8, value: 0x4a0_0000 | ALLOCATED_MASK });
    assert_eq!(k.pcbs[0].last_alloc_page, 2);
    assert_eq!(k.current_alloc_page, 6);
    let (va2, w2) = alloc_page(&mut k, 0, CR3);
    assert_eq!(va2, 0x460_0000);
    assert_eq!(w2.addr, 0x10_5118);
    assert_eq!(w2.value, 0x4e0_0000 | ALLOCATED_MASK);
}

#[test]
fn page_table_stores_stay_in_own_tables() {
    let mut k = Kernel::new(0);
    for pid in 0..3u32 {
        let (table, writes) = init_super_dir_table(&mut k, pid, CR3);
        assert!(table >= CR3 + 3 * 4096);
        for w in &writes {
            assert!(w.addr >= table && w.addr + 8 <= table + 3 * 4096);
        }
    }
}
