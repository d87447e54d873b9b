use vstd::prelude::*;
use crate::memory::gdt::{DescriptorType, Gdt, GDT_LENGTH, SegmentDescriptorTable, gdt_ready};
use crate::memory::segmentation::{AccessFlags, Flags, SegmentDescriptor, packed_descriptor};

pub mod gdt;
pub mod memory_map;
pub mod segmentation;

verus! {

/// Limit of the kernel's code and data segments.
pub const KERNEL_SEGMENT_LIMIT: u32 = 0x13e9a3;

/// The packed kernel code segment: base 0, 32-bit, present, privilege level 0,
/// executable and readable.
pub open spec fn kernel_code_descriptor() -> u64 {
    packed_descriptor(0, KERNEL_SEGMENT_LIMIT, 0x9A, 0x4)
}

/// The packed kernel data segment: base 0, 32-bit, present, privilege level 0, writable.
pub open spec fn kernel_data_descriptor() -> u64 {
    packed_descriptor(0, KERNEL_SEGMENT_LIMIT, 0x92, 0x4)
}

/// Fills the global descriptor table with the kernel's code and data segments
/// (the other slots empty) and returns the selectors that the segment
/// registers are loaded with: the data selector, then the code selector.
pub fn setup_descriptors(gdt: &mut SegmentDescriptorTable) -> (r: (u32, u32))
    ensures
        gdt_ready(final(gdt).gdt_entries()),
        final(gdt).gdt_entries()->0 == seq![
            0u64,
            kernel_code_descriptor(),
            kernel_data_descriptor(),
            0,
            0,
            0,
            0,
        ],
        r == (0x10u32, 0x08u32),
{
    gdt.init();
    // the limit is counted in bytes: the granularity flag stays clear
    let flags = Flags::Size.bits();
    let limit = KERNEL_SEGMENT_LIMIT;

    let access_byte = AccessFlags::PL0.bits() | AccessFlags::ReadWrite.bits()
        | AccessFlags::Executable.bits() | AccessFlags::AlwaysOne.bits()
        | AccessFlags::Present.bits();
    assert(0u8 | 0x02u8 | 0x08u8 | 0x10u8 | 0x80u8 == 0x9Au8) by (bit_vector);
    let kernel_code = SegmentDescriptor::new(0, limit, access_byte, flags);
    gdt.set_descriptor(DescriptorType::KernelCode, kernel_code);

    let access_byte = AccessFlags::PL0.bits() | AccessFlags::ReadWrite.bits()
        | AccessFlags::Present.bits() | AccessFlags::AlwaysOne.bits();
    assert(0u8 | 0x02u8 | 0x80u8 | 0x10u8 == 0x92u8) by (bit_vector);
    let kernel_data = SegmentDescriptor::new(0, limit, access_byte, flags);
    gdt.set_descriptor(DescriptorType::KernelData, kernel_data);

    let data = gdt.get_selector(DescriptorType::KernelData, 0);
    let code = gdt.get_selector(DescriptorType::KernelCode, 0);
    assert((((2usize << 3usize) | 0usize) as u16) as u32 == 0x10u32) by (bit_vector);
    assert((((1usize << 3usize) | 0usize) as u16) as u32 == 0x08u32) by (bit_vector);
    assert(gdt.gdt_entries()->0 =~= seq![
        0u64,
        kernel_code_descriptor(),
        kernel_data_descriptor(),
        0,
        0,
        0,
        0,
    ]);
    (data, code)
}

/// Stores the packed form of `entry` in slot `index` of a five-slot table.
pub fn encode_entry_at(table: &mut [u64; 5], index: usize, entry: SegmentDescriptor)
    requires
        index < 5,
    ensures
        final(table)@ == old(table)@.update(
            index as int,
            packed_descriptor(entry.base, entry.limit, entry.access_byte, entry.flags),
        ),
{
    table[index] = entry.encode();
}

} // verus!
