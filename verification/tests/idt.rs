use lib::idt::{IdtDescriptor, IdtEntry};

fn reassemble(e: &IdtEntry) -> u64 {
    (e.offsetl as u64) | ((e.offsetm as u64) << 16) | ((e.offseth as u64) << 32)
}

#[test]
fn set_offset_splits_address() {
    let mut e = IdtEntry::empty();
    e.set_offset(0x08, 0x1234_5678_9abc_def0usize);
    assert_eq!(e.selector, 0x08);
    assert_eq!(e.offsetl, 0xdef0);
    assert_eq!(e.offsetm, 0x9abc);
    assert_eq!(e.offseth, 0x1234_5678);
    assert_eq!(reassemble(&e), 0x1234_5678_9abc_def0);
    assert_eq!(e.attribute, 0);
    assert_eq!(e.zero, 0);
    assert_eq!(e.zero2, 0);
}

#[test]
fn set_offset_keeps_flags() {
    let mut e = IdtEntry::empty();
    e.set_flags(0b10001110);
    e.set_offset(0x10, 0x0010_2030);
    assert_eq!(e.attribute, 0b10001110);
    assert_eq!(reassemble(&e), 0x0010_2030);
    assert_eq!(e.offseth, 0);
}

#[test]
fn set_func_points_at_handler() {
    let mut e = IdtEntry::empty();
    e.set_func(0x28, 0xffff_8000_0000_1000usize);
    assert_eq!(e.selector, 0x28);
    assert_eq!(reassemble(&e), 0xffff_8000_0000_1000);
}

#[test]
fn set_flags_sets_attribute_only() {
    let mut e = IdtEntry::empty();
    e.set_offset(1, 0xabcd);
    e.set_flags(0x8e);
    assert_eq!(e.attribute, 0x8e);
    assert_eq!(e.offsetl, 0xabcd);
    assert_eq!(e.selector, 1);
}

#[test]
fn set_slice_full_table() {
    let table = [IdtEntry::empty(); 256];
    let mut d = IdtDescriptor::empty();
    d.set_slice(&table, 0x0010_0000);
    assert_eq!(d.size, 4095);
    assert_eq!(d.offset, 0x0010_0000);
}

#[test]
fn set_slice_single_entry() {
    let table = [IdtEntry::empty(); 1];
    let mut d = IdtDescriptor::empty();
    d.set_slice(&table, 7);
    assert_eq!(d.size, 15);
    assert_eq!(d.offset, 7);
}

#[test]
fn set_slice_limit_truncates_to_16_bits() {
    let table = vec![IdtEntry::empty(); 4097];
    let mut d = IdtDescriptor::empty();
    d.set_slice(&table, 0);
    // 4097 * 16 - 1 = 65551, kept modulo 65536
    assert_eq!(d.size, 15);
}
