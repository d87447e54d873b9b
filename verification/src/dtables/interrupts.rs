use vstd::prelude::*;

verus! {

/// An interrupt gate in the descriptor table.
#[derive(Copy, Clone, Debug)]
pub struct IdtEntry {
    base_low: u16,  // lower address of the handler
    selector: u16,
    zero: u8,
    flags: u8,
    base_high: u16,  // higher address of the handler
}

impl IdtEntry {
    /// The handler's address.
    pub closed spec fn handler(&self) -> u32 {
        ((self.base_high as u32) << 16u32) | (self.base_low as u32)
    }

    /// The code-segment selector.
    pub closed spec fn segment(&self) -> u16 {
        self.selector
    }

    /// Type and attribute byte.
    pub closed spec fn attributes(&self) -> u8 {
        self.flags
    }

    /// The reserved byte.
    pub closed spec fn reserved(&self) -> u8 {
        self.zero
    }

    /// The empty gate.
    pub fn missing() -> (r: IdtEntry)
        ensures
            r.handler() == 0,
            r.segment() == 0,
            r.attributes() == 0,
            r.reserved() == 0,
    {
        let r = IdtEntry { base_low: 0, selector: 0, zero: 0, flags: 0, base_high: 0 };
        assert(((0u16 as u32) << 16u32) | (0u16 as u32) == 0u32) by (bit_vector);
        r
    }

    /// A present 32-bit interrupt gate of privilege level 0 for the handler at
    /// `isr`, in the kernel's code segment.
    pub fn new(isr: u32) -> (r: IdtEntry)
        ensures
            r.handler() == isr,
            r.segment() == 0x08,
            r.attributes() == 0x8E,
            r.reserved() == 0,
    {
        let base_low = (isr & 0xFFFF) as u16;
        let selector: u16 = 0x08;  // the kernel's code segment
        let zero: u8 = 0;
        let flags: u8 = 0x80 | 0x00 | 0x0E;  // present, privilege level 0, 32-bit interrupt gate
        assert(0x80u8 | 0x00u8 | 0x0Eu8 == 0x8Eu8) by (bit_vector);
        let base_high: u16 = ((isr >> 16) & 0xFFFF) as u16;
        assert(((base_high as u32) << 16u32) | (base_low as u32) == isr) by (bit_vector)
            requires
                base_low == (isr & 0xFFFF) as u16,
                base_high == ((isr >> 16u32) & 0xFFFF) as u16,
        ;
        IdtEntry { base_low, selector, zero, flags, base_high }
    }
}

} // verus!
