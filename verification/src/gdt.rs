use vstd::prelude::*;
use crate::dtables::ldt::encode_descriptor;
use crate::memory::segmentation::packed_descriptor;

verus! {

/// A global-descriptor-table entry in its packed 8-byte form.
#[derive(Clone, Copy, Debug)]
pub struct GDTDescriptor(pub u64);

/// Packs base, limit and a 16-bit flags word into a descriptor (see
/// `encode_descriptor`): the low byte of `flags` is the access byte, its top
/// four bits the g, d/b, l and avl flags.
pub fn create_descriptor(base: u32, limit: u32, flags: u16) -> (r: GDTDescriptor)
    ensures
        r.0 == packed_descriptor(base, limit, (flags & 0xFF) as u8, ((flags >> 12u16) & 0xF) as u8),
{
    GDTDescriptor(encode_descriptor(base, limit, flags))
}

} // verus!
