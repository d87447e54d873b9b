use vstd::prelude::*;
use crate::drivers::utils::PortWrite;

verus! {

/// A programmable interrupt controller, by its command and data ports.
#[derive(Copy, Clone, PartialEq, Eq, Structural, Debug)]
pub struct PIC {
    command_port: u16,
    data_port: u16,
}

/// The end-of-interrupt command.
pub const EOI_COMMAND: u8 = 0x20;

/// The initialisation command (ICW1 with ICW4 to follow).
pub const INIT_COMMAND: u8 = 0x11;

/// 8086 mode (ICW4).
pub const MODE_8086: u8 = 0x01;

/// Bit `b` of `v` is set.
pub open spec fn bit_set(v: u8, b: u8) -> bool {
    (v >> b) & 1u8 == 1u8
}

impl PIC {
    pub closed spec fn command(&self) -> u16 {
        self.command_port
    }

    pub closed spec fn data(&self) -> u16 {
        self.data_port
    }

    pub fn new(command_port: u16, data_port: u16) -> (r: PIC)
        ensures
            r.command() == command_port,
            r.data() == data_port,
    {
        PIC { command_port, data_port }
    }

    /// The master controller.
    pub fn master() -> (r: PIC)
        ensures
            r.command() == 0x20,
            r.data() == 0x21,
    {
        PIC::new(0x20, 0x21)
    }

    /// The slave controller.
    pub fn slave() -> (r: PIC)
        ensures
            r.command() == 0xA0,
            r.data() == 0xA1,
    {
        PIC::new(0xA0, 0xA1)
    }

    /// Unmasks line `irq_line` (taken modulo 8): given the mask read from the
    /// data port, the write that clears the line's bit and keeps the others.
    pub fn enable_irq(&self, mask: u8, irq_line: u8) -> (r: PortWrite)
        ensures
            r.port == self.data(),
            r.value == mask & !(1u8 << (irq_line % 8)),
            forall|b: u8|
                b < 8 ==> #[trigger] bit_set(r.value, b) == (b != irq_line % 8 && bit_set(mask, b)),
    {
        let irq_line = irq_line % 8;
        let value = mask & !(1u8 << irq_line);
        assert forall|b: u8| b < 8 implies #[trigger] bit_set(value, b) == (b != irq_line && bit_set(
            mask,
            b,
        )) by {
            assert(((mask & !(1u8 << irq_line)) >> b) & 1u8 == 1u8 <==> (b != irq_line && (mask
                >> b) & 1u8 == 1u8)) by (bit_vector)
                requires
                    b < 8,
                    irq_line < 8,
            ;
        }
        PortWrite { port: self.data_port, value }
    }

    /// Masks line `irq_line` (taken modulo 8): given the mask read from the
    /// data port, the write that sets the line's bit and keeps the others.
    pub fn disable_irq(&self, mask: u8, irq_line: u8) -> (r: PortWrite)
        ensures
            r.port == self.data(),
            r.value == mask | (1u8 << (irq_line % 8)),
            forall|b: u8|
                b < 8 ==> #[trigger] bit_set(r.value, b) == (b == irq_line % 8 || bit_set(mask, b)),
    {
        let irq_line = irq_line % 8;
        let value = mask | (1u8 << irq_line);
        assert forall|b: u8| b < 8 implies #[trigger] bit_set(value, b) == (b == irq_line || bit_set(
            mask,
            b,
        )) by {
            assert(((mask | (1u8 << irq_line)) >> b) & 1u8 == 1u8 <==> (b == irq_line || (mask
                >> b) & 1u8 == 1u8)) by (bit_vector)
                requires
                    b < 8,
                    irq_line < 8,
            ;
        }
        PortWrite { port: self.data_port, value }
    }

    /// The end-of-interrupt command, which lets the controller raise further interrupts.
    pub fn send_eoi(&self) -> (r: PortWrite)
        ensures
            r == (PortWrite { port: self.command(), value: EOI_COMMAND }),
    {
        PortWrite { port: self.command_port, value: EOI_COMMAND }
    }

    /// The initialisation sequence, given the mask read from the data port
    /// beforehand: the init command, the vector offset, the cascade wiring
    /// (a slave on line 2 for the master, cascade identity 2 for the slave),
    /// 8086 mode, and the saved mask back. A short wait follows each of the
    /// first four writes.
    pub fn init(&self, offset: u8, is_master: bool, mask: u8) -> (r: Vec<PortWrite>)
        ensures
            r@ == seq![
                PortWrite { port: self.command(), value: INIT_COMMAND },
                PortWrite { port: self.data(), value: offset },
                PortWrite {
                    port: self.data(),
                    value: if is_master {
                        4
                    } else {
                        2
                    },
                },
                PortWrite { port: self.data(), value: MODE_8086 },
                PortWrite { port: self.data(), value: mask },
            ],
    {
        let mut writes: Vec<PortWrite> = Vec::new();
        writes.push(PortWrite { port: self.command_port, value: INIT_COMMAND });
        writes.push(PortWrite { port: self.data_port, value: offset });
        writes.push(
            PortWrite {
                port: self.data_port,
                value: if is_master {
                    4
                } else {
                    2
                },
            },
        );
        writes.push(PortWrite { port: self.data_port, value: MODE_8086 });
        writes.push(PortWrite { port: self.data_port, value: mask });
        assert(writes@ =~= seq![
            PortWrite { port: self.command_port, value: INIT_COMMAND },
            PortWrite { port: self.data_port, value: offset },
            PortWrite {
                port: self.data_port,
                value: if is_master {
                    4
                } else {
                    2
                },
            },
            PortWrite { port: self.data_port, value: MODE_8086 },
            PortWrite { port: self.data_port, value: mask },
        ]);
        writes
    }
}

/// End of interrupt: to the slave first when the interrupt came through it,
/// then always to the master.
pub fn send_eoi(slave_irq: bool) -> (r: Vec<PortWrite>)
    ensures
        r@ == if slave_irq {
            seq![
                PortWrite { port: 0xA0, value: EOI_COMMAND },
                PortWrite { port: 0x20, value: EOI_COMMAND },
            ]
        } else {
            seq![PortWrite { port: 0x20, value: EOI_COMMAND }]
        },
{
    let mut writes: Vec<PortWrite> = Vec::new();
    if slave_irq {
        writes.push(PIC::slave().send_eoi());
    }
    writes.push(PIC::master().send_eoi());
    proof {
        if slave_irq {
            assert(writes@ =~= seq![
                PortWrite { port: 0xA0, value: EOI_COMMAND },
                PortWrite { port: 0x20, value: EOI_COMMAND },
            ]);
        } else {
            assert(writes@ =~= seq![PortWrite { port: 0x20, value: EOI_COMMAND }]);
        }
    }
    writes
}

/// The two controllers of a PC.
#[derive(Copy, Clone, PartialEq, Eq, Structural, Debug)]
pub enum Controller {
    Master,
    Slave,
}

impl Controller {
    /// The controller's command port.
    pub open spec fn command_spec(self) -> u16 {
        match self {
            Controller::Master => 0x20,
            Controller::Slave => 0xA0,
        }
    }

    /// The controller's data port.
    pub open spec fn data_spec(self) -> u16 {
        match self {
            Controller::Master => 0x21,
            Controller::Slave => 0xA1,
        }
    }

    pub fn pic(&self) -> (r: PIC)
        ensures
            r.command() == self.command_spec(),
            r.data() == self.data_spec(),
    {
        match self {
            Controller::Master => PIC::master(),
            Controller::Slave => PIC::slave(),
        }
    }
}

/// One step of setting the controllers up. Each step reads the controller's
/// mask from its data port first, then writes what `PicStep::writes` gives.
#[derive(Copy, Clone, PartialEq, Eq, Structural, Debug)]
pub enum PicStep {
    Init { controller: Controller, offset: u8, is_master: bool },
    Enable { controller: Controller, irq_line: u8 },
    Disable { controller: Controller, irq_line: u8 },
}

/// Line `irq_line` (modulo 8) cleared in `mask`.
pub open spec fn unmasked(mask: u8, irq_line: u8) -> u8 {
    mask & !(1u8 << (irq_line % 8))
}

/// Line `irq_line` (modulo 8) set in `mask`.
pub open spec fn masked(mask: u8, irq_line: u8) -> u8 {
    mask | (1u8 << (irq_line % 8))
}

/// The initialisation sequence of the controller whose ports are `command`
/// and `data`, given its saved mask.
pub open spec fn init_writes(command: u16, data: u16, offset: u8, is_master: bool, mask: u8) -> Seq<
    PortWrite,
> {
    seq![
        PortWrite { port: command, value: INIT_COMMAND },
        PortWrite { port: data, value: offset },
        PortWrite {
            port: data,
            value: if is_master {
                4
            } else {
                2
            },
        },
        PortWrite { port: data, value: MODE_8086 },
        PortWrite { port: data, value: mask },
    ]
}

impl PicStep {
    pub open spec fn controller_spec(self) -> Controller {
        match self {
            PicStep::Init { controller, .. } => controller,
            PicStep::Enable { controller, .. } => controller,
            PicStep::Disable { controller, .. } => controller,
        }
    }

    /// What the step writes, given the mask it read.
    pub open spec fn writes_spec(self, mask: u8) -> Seq<PortWrite> {
        match self {
            PicStep::Init { controller, offset, is_master } => init_writes(
                controller.command_spec(),
                controller.data_spec(),
                offset,
                is_master,
                mask,
            ),
            PicStep::Enable { controller, irq_line } => seq![
                PortWrite { port: controller.data_spec(), value: unmasked(mask, irq_line) },
            ],
            PicStep::Disable { controller, irq_line } => seq![
                PortWrite { port: controller.data_spec(), value: masked(mask, irq_line) },
            ],
        }
    }

    /// The port the step reads the mask from.
    pub fn mask_port(&self) -> (r: u16)
        ensures
            r == self.controller_spec().data_spec(),
    {
        match self {
            PicStep::Init { controller, .. } => controller.pic().data_port,
            PicStep::Enable { controller, .. } => controller.pic().data_port,
            PicStep::Disable { controller, .. } => controller.pic().data_port,
        }
    }

    /// The writes of the step, given the mask read from `mask_port`.
    pub fn writes(&self, mask: u8) -> (r: Vec<PortWrite>)
        ensures
            r@ == self.writes_spec(mask),
    {
        match self {
            PicStep::Init { controller, offset, is_master } => {
                controller.pic().init(*offset, *is_master, mask)
            },
            PicStep::Enable { controller, irq_line } => {
                let mut writes: Vec<PortWrite> = Vec::new();
                writes.push(controller.pic().enable_irq(mask, *irq_line));
                writes
            },
            PicStep::Disable { controller, irq_line } => {
                let mut writes: Vec<PortWrite> = Vec::new();
                writes.push(controller.pic().disable_irq(mask, *irq_line));
                writes
            },
        }
    }
}

/// Masking a line that was unmasked gives the mask back, when the line was
/// masked before.
pub proof fn lemma_disable_undoes_enable(mask: u8, irq_line: u8)
    requires
        bit_set(mask, irq_line % 8),
    ensures
        masked(unmasked(mask, irq_line), irq_line) == mask,
{
    let b = irq_line % 8;
    assert((mask & !(1u8 << b)) | (1u8 << b) == mask) by (bit_vector)
        requires
            b < 8,
            (mask >> b) & 1u8 == 1u8,
    ;
}

/// The steps that set the controllers up: both initialised (the master at
/// vector 0x20, the slave at 0x28), then on the master the timer line
/// masked and the keyboard and cascade lines unmasked.
pub fn configure() -> (r: Vec<PicStep>)
    ensures
        r@ == seq![
            PicStep::Init { controller: Controller::Master, offset: 0x20, is_master: true },
            PicStep::Init { controller: Controller::Slave, offset: 0x28, is_master: false },
            PicStep::Disable { controller: Controller::Master, irq_line: 0 },
            PicStep::Enable { controller: Controller::Master, irq_line: 1 },
            PicStep::Enable { controller: Controller::Master, irq_line: 2 },
        ],
{
    let mut steps: Vec<PicStep> = Vec::new();
    steps.push(PicStep::Init { controller: Controller::Master, offset: 0x20, is_master: true });
    steps.push(PicStep::Init { controller: Controller::Slave, offset: 0x28, is_master: false });
    steps.push(PicStep::Disable { controller: Controller::Master, irq_line: 0 });
    steps.push(PicStep::Enable { controller: Controller::Master, irq_line: 1 });
    steps.push(PicStep::Enable { controller: Controller::Master, irq_line: 2 });
    assert(steps@ =~= seq![
        PicStep::Init { controller: Controller::Master, offset: 0x20, is_master: true },
        PicStep::Init { controller: Controller::Slave, offset: 0x28, is_master: false },
        PicStep::Disable { controller: Controller::Master, irq_line: 0 },
        PicStep::Enable { controller: Controller::Master, irq_line: 1 },
        PicStep::Enable { controller: Controller::Master, irq_line: 2 },
    ]);
    steps
}

} // verus!
