use vstd::prelude::*;
use crate::drivers::pic::{Controller, EOI_COMMAND, PIC, PicStep};
use crate::drivers::utils::PortWrite;

pub mod ata;
pub mod cursor;
pub mod disk;
pub mod keyboard;
pub mod pic;
pub mod utils;

verus! {

/// End of interrupt: always to the master, then to the slave when the
/// interrupt came through it.
pub fn send_eoi(slave_irq: bool) -> (r: Vec<PortWrite>)
    ensures
        r@ == if slave_irq {
            seq![
                PortWrite { port: 0x20, value: EOI_COMMAND },
                PortWrite { port: 0xA0, value: EOI_COMMAND },
            ]
        } else {
            seq![PortWrite { port: 0x20, value: EOI_COMMAND }]
        },
{
    let mut writes: Vec<PortWrite> = Vec::new();
    writes.push(PIC::master().send_eoi());  // the master always needs it
    if slave_irq {
        writes.push(PIC::slave().send_eoi());
    }
    proof {
        if slave_irq {
            assert(writes@ =~= seq![
                PortWrite { port: 0x20, value: EOI_COMMAND },
                PortWrite { port: 0xA0, value: EOI_COMMAND },
            ]);
        } else {
            assert(writes@ =~= seq![PortWrite { port: 0x20, value: EOI_COMMAND }]);
        }
    }
    writes
}

/// The steps that set the controllers up: both initialised (the master at
/// vector 0x20, the slave at 0x28), then on the master the timer, keyboard
/// and cascade lines masked.
pub fn configure() -> (r: Vec<PicStep>)
    ensures
        r@ == seq![
            PicStep::Init { controller: Controller::Master, offset: 0x20, is_master: true },
            PicStep::Init { controller: Controller::Slave, offset: 0x28, is_master: false },
            PicStep::Disable { controller: Controller::Master, irq_line: 0 },
            PicStep::Disable { controller: Controller::Master, irq_line: 1 },
            PicStep::Disable { controller: Controller::Master, irq_line: 2 },
        ],
{
    let mut steps: Vec<PicStep> = Vec::new();
    steps.push(PicStep::Init { controller: Controller::Master, offset: 0x20, is_master: true });
    steps.push(PicStep::Init { controller: Controller::Slave, offset: 0x28, is_master: false });
    steps.push(PicStep::Disable { controller: Controller::Master, irq_line: 0 });
    steps.push(PicStep::Disable { controller: Controller::Master, irq_line: 1 });
    steps.push(PicStep::Disable { controller: Controller::Master, irq_line: 2 });
    assert(steps@ =~= seq![
        PicStep::Init { controller: Controller::Master, offset: 0x20, is_master: true },
        PicStep::Init { controller: Controller::Slave, offset: 0x28, is_master: false },
        PicStep::Disable { controller: Controller::Master, irq_line: 0 },
        PicStep::Disable { controller: Controller::Master, irq_line: 1 },
        PicStep::Disable { controller: Controller::Master, irq_line: 2 },
    ]);
    steps
}

} // verus!
