use vstd::prelude::*;
use crate::dtables::Encodable;

verus! {

/// Bits of a segment descriptor's access byte.
#[derive(PartialEq, Eq, Structural, Clone, Copy, Debug)]
pub enum AccessFlags {
    Present,
    PL0,
    PL3,
    Executable,
    Direction,
    ReadWrite,
    Accessed,
    AlwaysOne,
}

impl AccessFlags {
    pub open spec fn bits_spec(self) -> u8 {
        match self {
            AccessFlags::Present => 0x80,
            AccessFlags::PL0 => 0,
            AccessFlags::PL3 => 0x60,
            AccessFlags::Executable => 0x08,
            AccessFlags::Direction => 0x04,
            AccessFlags::ReadWrite => 0x02,
            AccessFlags::Accessed => 0x01,
            AccessFlags::AlwaysOne => 0x10,
        }
    }

    /// The bit pattern of the flag within the access byte.
    pub fn bits(&self) -> (r: u8)
        ensures
            r == self.bits_spec(),
    {
        match self {
            AccessFlags::Present => 0x80,
            AccessFlags::PL0 => 0,
            AccessFlags::PL3 => 0x60,
            AccessFlags::Executable => 0x08,
            AccessFlags::Direction => 0x04,
            AccessFlags::ReadWrite => 0x02,
            AccessFlags::Accessed => 0x01,
            AccessFlags::AlwaysOne => 0x10,
        }
    }
}

/// Bits of a segment descriptor's flags nibble.
#[derive(PartialEq, Eq, Structural, Clone, Copy, Debug)]
pub enum Flags {
    Granularity,
    Size,
}

impl Flags {
    pub open spec fn bits_spec(self) -> u8 {
        match self {
            Flags::Granularity => 0x08,
            Flags::Size => 0x04,
        }
    }

    /// The bit pattern of the flag within the flags nibble.
    pub fn bits(&self) -> (r: u8)
        ensures
            r == self.bits_spec(),
    {
        match self {
            Flags::Granularity => 0x08,
            Flags::Size => 0x04,
        }
    }
}

/// The descriptor table that a selector points into.
#[derive(PartialEq, Eq, Structural, Clone, Copy, Debug)]
pub enum TableType {
    GDT,
    LDT,
}

impl TableType {
    pub open spec fn bit_spec(self) -> usize {
        match self {
            TableType::GDT => 0,
            TableType::LDT => 1,
        }
    }

    /// The table-indicator bit of a selector.
    pub fn bit(&self) -> (r: usize)
        ensures
            r == self.bit_spec(),
    {
        match self {
            TableType::GDT => 0,
            TableType::LDT => 1,
        }
    }
}

pub struct SegmentSelector;

impl SegmentSelector {
    /// The 16-bit selector: the table index from bit 3, the table indicator in
    /// bit 2 and the requested privilege level in bits 0-1.
    pub fn new(index: usize, table: TableType, protection_level: usize) -> (r: u16)
        ensures
            r == (((index << 3usize) | (table.bit_spec() << 2usize) | protection_level) as u16),
            index < 0x2000 && protection_level < 4 ==> r == index * 8 + table.bit_spec() * 4
                + protection_level,
    {
        let t = table.bit();
        let r = ((index << 3) | (t << 2) | protection_level) as u16;
        proof {
            if index < 0x2000 && protection_level < 4 {
                assert(t <= 1);
                assert(((index << 3usize) | (t << 2usize) | protection_level) as u16 == index * 8
                    + t * 4 + protection_level) by (bit_vector)
                    requires
                        index < 0x2000,
                        protection_level < 4,
                        t <= 1,
                ;
            }
        }
        r
    }
}

/// A segment described by its fields, before it is packed into the 8-byte
/// form that the processor reads.
#[derive(Clone, Copy, Debug)]
pub struct SegmentDescriptor {
    pub base: u32,
    pub limit: u32,
    pub access_byte: u8,
    pub flags: u8,
}

/// The packed descriptor: limit bits 0-15 in bits 0-15, base bits 0-23 in
/// bits 16-39, the access byte in bits 40-47, limit bits 16-19 in bits 48-51,
/// the flags from bit 52, and base bits 24-31 in bits 56-63. A flags value
/// above 0xF spills into the base's top byte.
pub open spec fn packed_descriptor(base: u32, limit: u32, access_byte: u8, flags: u8) -> u64 {
    ((limit & 0xFFFF) as u64) | (((base & 0xFF_FFFF) as u64) << 16u64) | ((access_byte as u64)
        << 40u64) | ((((limit >> 16u32) & 0xF) as u64) << 48u64) | ((flags as u64) << 52u64) | (((
    base >> 24u32) as u64) << 56u64)
}

impl SegmentDescriptor {
    pub fn new(base: u32, limit: u32, access_byte: u8, flags: u8) -> (r: SegmentDescriptor)
        ensures
            r.base == base,
            r.limit == limit,
            r.access_byte == access_byte,
            r.flags == flags,
    {
        SegmentDescriptor { base, limit, access_byte, flags }
    }

    /// Packs the descriptor into its 8-byte form.
    pub fn encode(&self) -> (r: u64)
        ensures
            r == packed_descriptor(self.base, self.limit, self.access_byte, self.flags),
    {
        let base = self.base;
        let limit = self.limit;
        let access_byte = self.access_byte;
        let flags = self.flags;
        let mut descriptor_high: u32;
        // the high 32 bits
        descriptor_high = (base & 0x00FF0000) >> 16;
        descriptor_high = descriptor_high | ((access_byte as u32) << 8);
        descriptor_high = descriptor_high | (limit & 0x000F0000);
        descriptor_high = descriptor_high | ((flags as u32) << 20);
        descriptor_high = descriptor_high | (base & 0xFF000000);

        let mut descriptor_low: u32 = 0;
        // the low 32 bits
        descriptor_low = descriptor_low | (base << 16);  // base bits 15:0
        descriptor_low = descriptor_low | (limit & 0xFFFF);  // limit bits 15:0

        let mut descriptor: u64 = (descriptor_high as u64) << 32;
        descriptor = descriptor | (descriptor_low as u64);
        assert(descriptor == packed_descriptor(base, limit, access_byte, flags)) by (bit_vector)
            requires
                descriptor_high == ((base & 0x00FF0000) >> 16u32) | ((access_byte as u32) << 8u32)
                    | (limit & 0x000F0000) | ((flags as u32) << 20u32) | (base & 0xFF000000),
                descriptor_low == (0u32 | (base << 16u32)) | (limit & 0xFFFF),
                descriptor == ((descriptor_high as u64) << 32u64) | (descriptor_low as u64),
        ;
        descriptor
    }
}

impl Encodable<u64> for SegmentDescriptor {
    open spec fn encoding(&self) -> u64 {
        packed_descriptor(self.base, self.limit, self.access_byte, self.flags)
    }

    fn encode(&self) -> (r: u64) {
        SegmentDescriptor::encode(self)
    }
}

/// The fields of a packed descriptor read back what was packed, when the
/// flags fit in their nibble.
pub proof fn lemma_packed_descriptor_fields(base: u32, limit: u32, access_byte: u8, flags: u8)
    requires
        flags <= 0xF,
    ensures
        ({
            let d = packed_descriptor(base, limit, access_byte, flags);
            &&& d & 0xFFFF == (limit & 0xFFFF) as u64
            &&& (d >> 48u64) & 0xF == ((limit >> 16u32) & 0xF) as u64
            &&& (d >> 16u64) & 0xFF_FFFF == (base & 0xFF_FFFF) as u64
            &&& d >> 56u64 == (base >> 24u32) as u64
            &&& (d >> 40u64) & 0xFF == access_byte as u64
            &&& (d >> 52u64) & 0xF == flags as u64
        }),
{
    let d = packed_descriptor(base, limit, access_byte, flags);
    assert(d & 0xFFFF == (limit & 0xFFFF) as u64 && (d >> 48u64) & 0xF == ((limit >> 16u32) & 0xF)
        as u64 && (d >> 16u64) & 0xFF_FFFF == (base & 0xFF_FFFF) as u64 && d >> 56u64 == (base
        >> 24u32) as u64 && (d >> 40u64) & 0xFF == access_byte as u64 && (d >> 52u64) & 0xF
        == flags as u64) by (bit_vector)
        requires
            flags <= 0xF,
            d == ((limit & 0xFFFF) as u64) | (((base & 0xFF_FFFF) as u64) << 16u64) | ((
            access_byte as u64) << 40u64) | ((((limit >> 16u32) & 0xF) as u64) << 48u64) | ((
            flags as u64) << 52u64) | (((base >> 24u32) as u64) << 56u64),
    ;
}

} // verus!
