use vstd::prelude::*;
use crate::memory::segmentation::packed_descriptor;

verus! {

/// A segment descriptor in its packed 8-byte form.
#[derive(Clone, Copy, Debug)]
pub struct SegmentDescriptor(pub u64);

/// Packs base, limit and a 16-bit flags word into a descriptor. The low byte
/// of `flags` is the access byte (type, s, dpl, p); its top four bits are the
/// g, d/b, l and avl flags; bits 8 to 11 are where the limit's bits 16 to 19
/// go, and are taken from `limit` instead.
pub fn encode_descriptor(base: u32, limit: u32, flags: u16) -> (r: u64)
    ensures
        r == packed_descriptor(base, limit, (flags & 0xFF) as u8, ((flags >> 12u16) & 0xF) as u8),
{
    let mut descriptor_high: u32;
    // the high 32 bits
    descriptor_high = limit & 0x000F0000;  // limit bits 19:16
    descriptor_high = descriptor_high | (((flags as u32) << 8) & 0x00F0FF00);  // type, p, dpl, s, g, d/b, l and avl
    descriptor_high = descriptor_high | ((base >> 16) & 0x000000FF);  // base bits 23:16
    descriptor_high = descriptor_high | (base & 0xFF000000);  // base bits 31:24

    let mut descriptor_low: u32 = 0;
    // the low 32 bits
    descriptor_low = descriptor_low | (base << 16);  // base bits 15:0
    descriptor_low = descriptor_low | (limit & 0x0000FFFF);  // limit bits 15:0

    let mut descriptor: u64 = (descriptor_high as u64) << 32;
    descriptor = descriptor | (descriptor_low as u64);
    let access = (flags & 0xFF) as u8;
    let high_flags = ((flags >> 12) & 0xF) as u8;
    assert(descriptor == packed_descriptor(base, limit, access, high_flags)) by (bit_vector)
        requires
            access == (flags & 0xFF) as u8,
            high_flags == ((flags >> 12u16) & 0xF) as u8,
            descriptor_high == (limit & 0x000F0000) | (((flags as u32) << 8u32) & 0x00F0FF00) | ((
            base >> 16u32) & 0x000000FF) | (base & 0xFF000000),
            descriptor_low == (0u32 | (base << 16u32)) | (limit & 0x0000FFFF),
            descriptor == ((descriptor_high as u64) << 32u64) | (descriptor_low as u64),
    ;
    descriptor
}

impl SegmentDescriptor {
    pub fn new(base: u32, limit: u32, flags: u16) -> (r: SegmentDescriptor)
        ensures
            r.0 == packed_descriptor(base, limit, (flags & 0xFF) as u8, ((flags >> 12u16) & 0xF) as u8),
    {
        SegmentDescriptor(encode_descriptor(base, limit, flags))
    }
}

} // verus!
