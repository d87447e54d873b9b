use vstd::prelude::*;
use crate::dtables::{DescriptorTable, TableDescriptor, table_limit};
use crate::memory::segmentation::{SegmentDescriptor, SegmentSelector, TableType, packed_descriptor};

verus! {

/// The slots of the global descriptor table, in order.
#[derive(PartialEq, Eq, Structural, Clone, Copy, Debug)]
pub enum DescriptorType {
    NullDescriptor,
    KernelCode,
    KernelData,
    TssDescriptor,
    LdtDescriptor,
    UserCode,
    UserData,
}

impl DescriptorType {
    pub open spec fn index_spec(self) -> usize {
        match self {
            DescriptorType::NullDescriptor => 0,
            DescriptorType::KernelCode => 1,
            DescriptorType::KernelData => 2,
            DescriptorType::TssDescriptor => 3,
            DescriptorType::LdtDescriptor => 4,
            DescriptorType::UserCode => 5,
            DescriptorType::UserData => 6,
        }
    }

    /// The slot's index in the table.
    pub fn index(&self) -> (r: usize)
        ensures
            r == self.index_spec(),
    {
        match self {
            DescriptorType::NullDescriptor => 0,
            DescriptorType::KernelCode => 1,
            DescriptorType::KernelData => 2,
            DescriptorType::TssDescriptor => 3,
            DescriptorType::LdtDescriptor => 4,
            DescriptorType::UserCode => 5,
            DescriptorType::UserData => 6,
        }
    }
}

pub type SegmentDescriptorEntry = u64;

pub type SegmentDescriptorTable = DescriptorTable<SegmentDescriptorEntry>;

/// Number of slots in the global descriptor table.
pub const GDT_LENGTH: usize = 7;

/// The table exists and has every slot.
pub open spec fn gdt_ready(entries: Option<Seq<u64>>) -> bool {
    entries is Some && entries->0.len() == GDT_LENGTH
}

/// A global descriptor table: null, kernel code and data (privilege level 0),
/// TSS, LDT, user code and data (privilege level 3).
pub trait Gdt {
    /// The table's entries, when it exists.
    spec fn gdt_entries(&self) -> Option<Seq<u64>>;

    /// Gives the table its seven empty slots.
    fn init(&mut self)
        ensures
            gdt_ready(final(self).gdt_entries()),
            forall|i: int| 0 <= i < GDT_LENGTH ==> #[trigger] final(self).gdt_entries()->0[i] == 0,
    ;

    /// Describes the task-state segment of `tss_size` bytes at `tss_address`.
    fn set_tss(&mut self, tss_address: u32, tss_size: u32)
        requires
            gdt_ready(old(self).gdt_entries()),
            tss_address + tss_size <= u32::MAX,
        ensures
            final(self).gdt_entries() == Some(
                old(self).gdt_entries()->0.update(
                    3,
                    packed_descriptor(
                        tss_address,
                        (tss_address + tss_size) as u32,
                        0b10001001,
                        0b0100,
                    ),
                ),
            ),
    ;

    /// Describes the local descriptor table `ldt`, which lies at `ldt_address`.
    fn set_ldt(&mut self, ldt: &SegmentDescriptorTable, ldt_address: u32)
        requires
            gdt_ready(old(self).gdt_entries()),
            ldt.entries() is Some ==> 1 <= 8 * ldt.entries()->0.len() <= usize::MAX,
            ldt.entries() is Some ==> ldt_address + table_limit(8, ldt.entries()->0.len() as int)
                + 1 <= u32::MAX,
        ensures
            final(self).gdt_entries() == Some(
                old(self).gdt_entries()->0.update(
                    4,
                    match ldt.entries() {
                        Some(e) => packed_descriptor(
                            ldt_address,
                            (ldt_address + table_limit(8, e.len() as int) + 1) as u32,
                            0b11100010,
                            0b0100,
                        ),
                        None => packed_descriptor(0, 1, 0b11100010, 0b0100),
                    },
                ),
            ),
    ;

    /// The selector of a slot, for the given requested privilege level.
    fn get_selector(&self, segment_type: DescriptorType, privilege_level: usize) -> (r: u32)
        ensures
            r == ((((segment_type.index_spec() << 3usize) | privilege_level) as u16) as u32),
    ;

    /// Stores `descriptor` in its slot.
    fn set_descriptor(&mut self, segment_type: DescriptorType, descriptor: SegmentDescriptor)
        requires
            gdt_ready(old(self).gdt_entries()),
        ensures
            final(self).gdt_entries() == Some(
                old(self).gdt_entries()->0.update(
                    segment_type.index_spec() as int,
                    packed_descriptor(
                        descriptor.base,
                        descriptor.limit,
                        descriptor.access_byte,
                        descriptor.flags,
                    ),
                ),
            ),
    ;
}

impl Gdt for SegmentDescriptorTable {
    open spec fn gdt_entries(&self) -> Option<Seq<u64>> {
        self.entries()
    }

    fn init(&mut self) {
        self.init_with_length(GDT_LENGTH);
    }

    fn set_tss(&mut self, tss_address: u32, tss_size: u32) {
        let base = tss_address;
        let size = tss_size;
        let limit = base + size;
        self.insert(
            DescriptorType::TssDescriptor.index(),
            SegmentDescriptor::new(base, limit, 0b10001001, 0b0100),
        );
    }

    fn set_ldt(&mut self, ldt: &SegmentDescriptorTable, ldt_address: u32) {
        proof {
            broadcast use vstd::layout::layout_of_primitives;

        }
        let table_descriptor = TableDescriptor::new(ldt, ldt_address);
        let base = table_descriptor.ptr;
        let size = table_descriptor.limit as u32 + 1;
        let limit = base + size;
        self.insert(
            DescriptorType::LdtDescriptor.index(),
            SegmentDescriptor::new(base, limit, 0b11100010, 0b0100),
        );
    }

    fn set_descriptor(&mut self, segment_type: DescriptorType, descriptor: SegmentDescriptor) {
        self.insert(segment_type.index(), descriptor);
    }

    fn get_selector(&self, segment_type: DescriptorType, privilege_level: usize) -> (r: u32) {
        let selector = SegmentSelector::new(segment_type.index(), TableType::GDT, privilege_level);
        proof {
            let i = segment_type.index_spec();
            assert((i << 3usize) | (0usize << 2usize) | privilege_level == (i << 3usize)
                | privilege_level) by (bit_vector);
        }
        selector as u32
    }
}

} // verus!
