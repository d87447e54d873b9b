use vstd::prelude::*;

verus! {

/// An interrupt gate of the interrupt descriptor table.
#[derive(Copy, Clone, Debug)]
pub struct IdtEntry {
    base_low: u16,  // lower address of the handler
    selector: u16,
    zero: u8,
    flags: u8,
    base_high: u16,  // higher address of the handler
}

/// What the processor pushes when it enters an exception handler.
#[derive(Copy, Clone, Debug)]
pub struct ExceptionStackFrame {
    pub instruction_pointer: u32,
    pub code_segment: u32,
    pub cpu_flags: u32,
    pub stack_pointer: u32,
    pub stack_segment: u32,
}

impl IdtEntry {
    /// The handler's address.
    pub closed spec fn handler(&self) -> u32 {
        ((self.base_high as u32) << 16u32) | (self.base_low as u32)
    }

    /// The code-segment selector.
    pub closed spec fn segment(&self) -> u16 {
        self.selector
    }

    /// Type and attribute byte.
    pub closed spec fn attributes(&self) -> u8 {
        self.flags
    }

    /// The reserved byte.
    pub closed spec fn reserved(&self) -> u8 {
        self.zero
    }

    /// No handler is installed: all four fields are zero.
    pub open spec fn is_missing(&self) -> bool {
        &&& self.handler() == 0
        &&& self.segment() == 0
        &&& self.attributes() == 0
        &&& self.reserved() == 0
    }

    /// The empty gate.
    pub fn missing() -> (r: IdtEntry)
        ensures
            r.is_missing(),
    {
        let r = IdtEntry { base_low: 0, selector: 0, zero: 0, flags: 0, base_high: 0 };
        assert(((0u16 as u32) << 16u32) | (0u16 as u32) == 0u32) by (bit_vector);
        r
    }

    /// A present 32-bit interrupt gate that code of privilege level 3 may
    /// raise, for the handler at `isr`, in the kernel's code segment.
    pub fn new(isr: u32) -> (r: Self)
        ensures
            r.handler() == isr,
            r.segment() == 0x08,
            r.attributes() == 0xEE,
            r.reserved() == 0,
    {
        let base_low = (isr & 0xFFFF) as u16;
        let selector: u16 = 0x08;  // the kernel's code segment
        let zero: u8 = 0;
        let flags: u8 = 0x80 | 0x60 | 0x0E;  // present, privilege level 3, 32-bit interrupt gate
        assert(0x80u8 | 0x60u8 | 0x0Eu8 == 0xEEu8) by (bit_vector);
        let base_high: u16 = ((isr >> 16) & 0xFFFF) as u16;
        assert(((base_high as u32) << 16u32) | (base_low as u32) == isr) by (bit_vector)
            requires
                base_low == (isr & 0xFFFF) as u16,
                base_high == ((isr >> 16u32) & 0xFFFF) as u16,
        ;
        IdtEntry { base_low, selector, zero, flags, base_high }
    }
}

/// The gates of the processor's exceptions, in vector order.
#[derive(Copy, Clone, Debug)]
pub struct Exceptions {
    pub divide_by_zero: IdtEntry,
    pub debug: IdtEntry,
    pub non_maskable_interrupt: IdtEntry,
    pub breakpoint: IdtEntry,
    pub overflow: IdtEntry,
    pub bound_range_exceeded: IdtEntry,
    pub invalid_opcode: IdtEntry,
    pub device_not_available: IdtEntry,
    pub double_fault: IdtEntry,
    pub invalid_tss: IdtEntry,
    pub segment_not_present: IdtEntry,
    pub stack_segment_fault: IdtEntry,
    pub general_protection_fault: IdtEntry,
    pub page_fault: IdtEntry,
    reserved1: IdtEntry,
    pub x87_floating_point: IdtEntry,
    pub alignment_check: IdtEntry,
    pub machine_check: IdtEntry,
    pub simd_floating_point: IdtEntry,
    pub virtualization: IdtEntry,
    pub reserved2: [IdtEntry; 9],
    pub security_exception: IdtEntry,
    pub reserved3: [IdtEntry; 2],
}

impl Exceptions {
    /// Every gate, in vector order.
    pub closed spec fn gates(&self) -> Seq<IdtEntry> {
        seq![
            self.divide_by_zero,
            self.debug,
            self.non_maskable_interrupt,
            self.breakpoint,
            self.overflow,
            self.bound_range_exceeded,
            self.invalid_opcode,
            self.device_not_available,
            self.double_fault,
            self.invalid_tss,
            self.segment_not_present,
            self.stack_segment_fault,
            self.general_protection_fault,
            self.page_fault,
            self.reserved1,
            self.x87_floating_point,
            self.alignment_check,
            self.machine_check,
            self.simd_floating_point,
            self.virtualization,
        ] + self.reserved2@ + seq![self.security_exception] + self.reserved3@
    }

    /// A table in which every exception gate is empty.
    pub fn new() -> (r: Self)
        ensures
            r.gates().len() == 32,
            forall|i: int| 0 <= i < 32 ==> #[trigger] r.gates()[i].is_missing(),
    {
        let m = IdtEntry::missing();
        let r = Exceptions {
            divide_by_zero: m,
            debug: m,
            non_maskable_interrupt: m,
            breakpoint: m,
            overflow: m,
            bound_range_exceeded: m,
            invalid_opcode: m,
            device_not_available: m,
            double_fault: m,
            invalid_tss: m,
            segment_not_present: m,
            stack_segment_fault: m,
            general_protection_fault: m,
            page_fault: m,
            reserved1: m,
            x87_floating_point: m,
            alignment_check: m,
            machine_check: m,
            simd_floating_point: m,
            virtualization: m,
            reserved2: [m;9],
            security_exception: m,
            reserved3: [m;2],
        };
        assert forall|i: int| 0 <= i < 32 implies #[trigger] r.gates()[i].is_missing() by {
            assert(r.gates()[i] == m);
        }
        r
    }
}

/// The interrupt descriptor table: the exceptions, the hardware interrupts
/// and the software interrupts, 256 gates in all.
#[derive(Copy, Clone, Debug)]
pub struct Idt {
    pub exceptions: Exceptions,
    hardware_interrupts: [IdtEntry; 32],
    pub interrupts: [IdtEntry; 191],
}

impl Idt {
    /// The gates of the hardware interrupts.
    pub closed spec fn hardware(&self) -> Seq<IdtEntry> {
        self.hardware_interrupts@
    }

    /// The gates of the exceptions.
    pub closed spec fn exception_gates(&self) -> Seq<IdtEntry> {
        self.exceptions.gates()
    }

    /// The gates of the software interrupts.
    pub closed spec fn software(&self) -> Seq<IdtEntry> {
        self.interrupts@
    }

    /// A table in which every gate is empty.
    pub fn new() -> (r: Self)
        ensures
            r.exception_gates().len() == 32,
            forall|i: int| 0 <= i < 32 ==> #[trigger] r.exception_gates()[i].is_missing(),
            r.hardware().len() == 32,
            forall|i: int| 0 <= i < 32 ==> #[trigger] r.hardware()[i].is_missing(),
            r.software().len() == 191,
            forall|i: int| 0 <= i < 191 ==> #[trigger] r.software()[i].is_missing(),
    {
        let m = IdtEntry::missing();
        Idt { exceptions: Exceptions::new(), hardware_interrupts: [m;32], interrupts: [m;191] }
    }

    /// Installs `idt` as hardware interrupt `index`; an index past the 32
    /// hardware interrupts changes nothing.
    pub fn set_hardware_interrupt(&mut self, index: usize, idt: IdtEntry)
        ensures
            final(self).hardware() == (if index < 32 {
                old(self).hardware().update(index as int, idt)
            } else {
                old(self).hardware()
            }),
            final(self).exception_gates() == old(self).exception_gates(),
            final(self).software() == old(self).software(),
    {
        if index < self.hardware_interrupts.len() {
            self.hardware_interrupts[index] = idt;
        }
    }
}

/// `e` points at the handler at `isr`, in the kernel code segment, present and raisable from privilege level 3.
pub open spec fn is_gate_for(e: IdtEntry, isr: u32) -> bool {
    &&& e.handler() == isr
    &&& e.segment() == 0x08
    &&& e.attributes() == 0xEE
    &&& e.reserved() == 0
}

/// The addresses of the kernel's interrupt handlers.
#[derive(Copy, Clone, PartialEq, Eq, Structural, Debug)]
pub struct KernelHandlers {
    pub double_fault: u32,
    pub general_protection_fault: u32,
    pub invalid_opcode: u32,
    pub invalid_tss: u32,
    pub keyboard: u32,
    pub primary_ata_controller: u32,
    pub syscall: u32,
}

/// Where the system-call gate lies among the software interrupts (vector
/// 0x80, after the 32 exceptions and 32 hardware interrupts).
pub const SYSCALL_GATE: usize = 0x40;

impl Idt {
    /// The kernel's table: gates for the double fault, general-protection
    /// fault, invalid opcode and invalid TSS exceptions, for hardware
    /// interrupts 1 (the keyboard) and 14 (the primary ATA controller), and
    /// for the system call; every other gate empty. The exceptions lie in the
    /// order of `Exceptions`, where the invalid TSS follows the double fault.
    pub fn with_kernel_handlers(handlers: &KernelHandlers) -> (r: Idt)
        ensures
            r.exception_gates().len() == 32,
            forall|i: int|
                0 <= i < 32 ==> if i == 6 {
                    is_gate_for(#[trigger] r.exception_gates()[i], handlers.invalid_opcode)
                } else if i == 8 {
                    is_gate_for(r.exception_gates()[i], handlers.double_fault)
                } else if i == 9 {
                    is_gate_for(r.exception_gates()[i], handlers.invalid_tss)
                } else if i == 12 {
                    is_gate_for(r.exception_gates()[i], handlers.general_protection_fault)
                } else {
                    r.exception_gates()[i].is_missing()
                },
            r.hardware().len() == 32,
            forall|i: int|
                0 <= i < 32 ==> if i == 1 {
                    is_gate_for(#[trigger] r.hardware()[i], handlers.keyboard)
                } else if i == 14 {
                    is_gate_for(r.hardware()[i], handlers.primary_ata_controller)
                } else {
                    r.hardware()[i].is_missing()
                },
            r.software().len() == 191,
            forall|i: int|
                0 <= i < 191 ==> if i == SYSCALL_GATE {
                    is_gate_for(#[trigger] r.software()[i], handlers.syscall)
                } else {
                    r.software()[i].is_missing()
                },
    {
        let mut idt = Idt::new();
        let ghost before = idt.exceptions.gates();
        idt.exceptions.double_fault = IdtEntry::new(handlers.double_fault);
        idt.exceptions.general_protection_fault = IdtEntry::new(handlers.general_protection_fault);
        idt.exceptions.invalid_opcode = IdtEntry::new(handlers.invalid_opcode);
        idt.exceptions.invalid_tss = IdtEntry::new(handlers.invalid_tss);
        proof {
            assert forall|i: int| 0 <= i < 32 && i != 6 && i != 8 && i != 9 && i != 12 implies #[trigger] idt.exceptions.gates()[i] == before[i] by {}
        }
        idt.set_hardware_interrupt(1, IdtEntry::new(handlers.keyboard));
        idt.set_hardware_interrupt(14, IdtEntry::new(handlers.primary_ata_controller));
        idt.interrupts[SYSCALL_GATE] = IdtEntry::new(handlers.syscall);
        idt
    }
}

} // verus!
