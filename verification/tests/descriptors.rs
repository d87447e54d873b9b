use kernel::dtables::interrupts::IdtEntry as GateEntry;
use kernel::dtables::ldt::{encode_descriptor, SegmentDescriptor};
use kernel::dtables::{DescriptorTable, TableDescriptor, TablePointer};
use kernel::gdt::create_descriptor;
use kernel::interrupts::idt::{Exceptions, Idt, IdtEntry, KernelHandlers, SYSCALL_GATE};
use kernel::interrupts::{general_protection_fault_source, FaultSource};

#[test]
fn table_descriptor_gives_size_minus_one() {
    let mut table: DescriptorTable<u64> = DescriptorTable::new();
    let absent = TableDescriptor::new(&table, 0x5000);
    assert_eq!((absent.limit, absent.ptr), (0, 0));
    table.init_with_length(7);
    let d = TableDescriptor::new(&table, 0x5000);
    assert_eq!((d.limit, d.ptr), (55, 0x5000));
    let e = TableDescriptor::empty();
    assert_eq!((e.limit, e.ptr), (0, 0));
}

#[test]
fn table_pointer_gives_size_minus_one() {
    let entries = [0u64; 256];
    let p = TablePointer::new(&entries, 0x8000);
    assert_eq!((p.limit, p.ptr), (2047, 0x8000));
}

#[test]
fn descriptor_table_insert_and_length() {
    let mut table: DescriptorTable<u64> = DescriptorTable::new();
    assert!(table.as_ref().is_none());
    table.init_with_length(4);
    assert_eq!(table.as_ref().unwrap(), &[0u64; 4][..]);
    table.insert(2, kernel::memory::segmentation::SegmentDescriptor::new(0, 0xffffffff, 0x9A, 0xC));
    assert_eq!(table.as_ref().unwrap(), &[0, 0, 0x00CF_9A00_0000_FFFF, 0][..]);
}

#[test]
fn descriptor_flag_words_carry_access_byte_and_flags() {
    assert_eq!(encode_descriptor(0x1000, 0x2000, 0x00FA), 0x0000_FA00_1000_2000);
    // the top four bits of the flags word are g, d/b, l and avl
    assert_eq!(encode_descriptor(0x1000, 0x2000, 0xC0FA), 0x00C0_FA00_1000_2000);
    // bits 8 to 11 of the flags word give way to the limit
    assert_eq!(encode_descriptor(0, 0x2000, 0x0F92), 0x0000_9200_0000_2000);
    assert_eq!(SegmentDescriptor::new(0, 0xFFFFF, 0x92).0, 0x000F_9200_0000_FFFF);
    assert_eq!(create_descriptor(0x12345678, 0x000ABCDE, 0x9A).0, 0x120A_9A34_5678_BCDE);
    // the flat ring-0 code segment: access 10011010b, flags/limit 11001111b
    assert_eq!(create_descriptor(0, 0xFFFFF, 0xC09A).0, 0x00CF_9A00_0000_FFFF);
    assert_eq!(create_descriptor(0, 0xFFFFF, 0xC092).0, 0x00CF_9200_0000_FFFF);
}

#[test]
fn kernel_gates_are_ring_zero_interrupt_gates() {
    let g = GateEntry::new(0x12345678);
    assert_eq!(
        format!("{:?}", g),
        "IdtEntry { base_low: 22136, selector: 8, zero: 0, flags: 142, base_high: 4660 }"
    );
    let m = GateEntry::missing();
    assert_eq!(
        format!("{:?}", m),
        "IdtEntry { base_low: 0, selector: 0, zero: 0, flags: 0, base_high: 0 }"
    );
}

#[test]
fn idt_gates_may_be_raised_from_ring_three() {
    let g = IdtEntry::new(0xC0DE0010);
    assert_eq!(
        format!("{:?}", g),
        "IdtEntry { base_low: 16, selector: 8, zero: 0, flags: 238, base_high: 49374 }"
    );
}

#[test]
fn a_new_idt_is_empty_and_takes_hardware_gates() {
    let missing = format!("{:?}", IdtEntry::missing());
    let exceptions = Exceptions::new();
    assert_eq!(format!("{:?}", exceptions.page_fault), missing);
    assert_eq!(format!("{:?}", exceptions.reserved3[1]), missing);
    let mut idt = Idt::new();
    assert_eq!(format!("{:?}", idt.interrupts[190]), missing);
    let gate = IdtEntry::new(0x1000);
    idt.set_hardware_interrupt(1, gate);
    let shown = format!("{:?}", idt);
    assert!(shown.contains(&format!("{:?}", gate)));
    // past the hardware gates nothing changes
    let before = format!("{:?}", idt);
    idt.set_hardware_interrupt(40, IdtEntry::new(0x2000));
    assert_eq!(format!("{:?}", idt), before);
}

#[test]
fn general_protection_fault_error_codes() {
    assert_eq!(general_protection_fault_source(0), None);
    assert_eq!(
        general_protection_fault_source((5 << 3) | (1 << 1)),
        Some(FaultSource { in_idt: true, index: 5 })
    );
    assert_eq!(
        general_protection_fault_source(3 << 3),
        Some(FaultSource { in_idt: false, index: 3 })
    );
    assert_eq!(
        general_protection_fault_source(4),
        Some(FaultSource { in_idt: false, index: 0 })
    );
}

#[test]
fn the_kernel_table_has_its_handlers_and_nothing_else() {
    let h = KernelHandlers {
        double_fault: 0x1008,
        general_protection_fault: 0x100d,
        invalid_opcode: 0x1006,
        invalid_tss: 0x100a,
        keyboard: 0x2001,
        primary_ata_controller: 0x200e,
        syscall: 0x3080,
    };
    let idt = Idt::with_kernel_handlers(&h);
    let gate = |a: u32| format!("{:?}", IdtEntry::new(a));
    let missing = format!("{:?}", IdtEntry::missing());
    assert_eq!(format!("{:?}", idt.exceptions.double_fault), gate(0x1008));
    assert_eq!(format!("{:?}", idt.exceptions.general_protection_fault), gate(0x100d));
    assert_eq!(format!("{:?}", idt.exceptions.invalid_opcode), gate(0x1006));
    assert_eq!(format!("{:?}", idt.exceptions.invalid_tss), gate(0x100a));
    assert_eq!(format!("{:?}", idt.exceptions.page_fault), missing);
    assert_eq!(format!("{:?}", idt.interrupts[SYSCALL_GATE]), gate(0x3080));
    assert_eq!(format!("{:?}", idt.interrupts[SYSCALL_GATE + 1]), missing);
    let shown = format!("{:?}", idt);
    assert!(shown.contains(&gate(0x2001)));
    assert!(shown.contains(&gate(0x200e)));
}
