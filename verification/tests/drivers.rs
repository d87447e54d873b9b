use kernel::drivers::ata::{
    Ata, DeviceType, Drive, IdentifyAction, IdentifyState, RegisterType, IDENTIFY_COMMAND,
};
use kernel::drivers::cursor::Cursor;
use kernel::drivers::keyboard::{
    get_scancode, getc, KeyboardState, RawScanCode, ScanCode, ScanCodeError, ScanCodeType,
    BACKSPACE_VALUE,
};
use kernel::drivers::pic::{Controller, PicStep, EOI_COMMAND, PIC};
use kernel::drivers::utils::{PortRange, PortWrite};
use kernel::drivers::{configure, send_eoi};

fn w(port: u16, value: u8) -> PortWrite {
    PortWrite { port, value }
}

#[test]
fn port_ranges() {
    let r = PortRange::new(0x1F0, 0x1F7);
    assert_eq!(r.get(0), 0x1F0);
    assert_eq!(r.get(7), 0x1F7);
}

#[test]
fn pic_masks_and_commands() {
    let master = PIC::master();
    assert_eq!(master.enable_irq(0xFF, 1), w(0x21, 0xFD));
    assert_eq!(master.enable_irq(0xFF, 9), w(0x21, 0xFD));
    assert_eq!(master.disable_irq(0x00, 0), w(0x21, 0x01));
    assert_eq!(master.disable_irq(0xF0, 3), w(0x21, 0xF8));
    assert_eq!(PIC::slave().send_eoi(), w(0xA0, EOI_COMMAND));
    assert_eq!(
        PIC::new(0x20, 0x21).init(0x20, true, 0xAB),
        vec![w(0x20, 0x11), w(0x21, 0x20), w(0x21, 4), w(0x21, 1), w(0x21, 0xAB)]
    );
    assert_eq!(
        PIC::slave().init(0x28, false, 0x0F),
        vec![w(0xA0, 0x11), w(0xA1, 0x28), w(0xA1, 2), w(0xA1, 1), w(0xA1, 0x0F)]
    );
}

#[test]
fn enable_then_disable_restores_a_masked_line() {
    let master = PIC::master();
    for mask in [0xFFu8, 0x04, 0x80, 0x5A] {
        for line in 0u8..8 {
            if mask & (1 << line) != 0 {
                let enabled = master.enable_irq(mask, line).value;
                assert_eq!(master.disable_irq(enabled, line).value, mask);
            }
        }
    }
}

#[test]
fn end_of_interrupt_orders() {
    assert_eq!(send_eoi(false), vec![w(0x20, 0x20)]);
    assert_eq!(send_eoi(true), vec![w(0x20, 0x20), w(0xA0, 0x20)]);
    assert_eq!(kernel::drivers::pic::send_eoi(true), vec![w(0xA0, 0x20), w(0x20, 0x20)]);
    assert_eq!(kernel::drivers::pic::send_eoi(false), vec![w(0x20, 0x20)]);
}

#[test]
fn configuration_steps() {
    let steps = kernel::drivers::pic::configure();
    assert_eq!(
        steps,
        vec![
            PicStep::Init { controller: Controller::Master, offset: 0x20, is_master: true },
            PicStep::Init { controller: Controller::Slave, offset: 0x28, is_master: false },
            PicStep::Disable { controller: Controller::Master, irq_line: 0 },
            PicStep::Enable { controller: Controller::Master, irq_line: 1 },
            PicStep::Enable { controller: Controller::Master, irq_line: 2 },
        ]
    );
    assert_eq!(steps[1].mask_port(), 0xA1);
    assert_eq!(steps[3].writes(0xFF), vec![w(0x21, 0xFD)]);
    assert_eq!(steps[2].writes(0x00), vec![w(0x21, 0x01)]);
    assert_eq!(steps[0].writes(0x12).len(), 5);
    let all_masked = configure();
    assert_eq!(all_masked[4], PicStep::Disable { controller: Controller::Master, irq_line: 2 });
    assert_eq!(all_masked[3].writes(0x00), vec![w(0x21, 0x02)]);
}

#[test]
fn cursor_position_writes() {
    let c = Cursor;
    // row 2, column 5: cell 165
    assert_eq!(
        c.update_location(2, 5),
        vec![w(0x3D4, 0x0F), w(0x3D5, 165), w(0x3D4, 0x0E), w(0x3D5, 0)]
    );
    // row 24, column 79: cell 1999 = 0x07CF
    assert_eq!(
        c.update_location(24, 79),
        vec![w(0x3D4, 0x0F), w(0x3D5, 0xCF), w(0x3D4, 0x0E), w(0x3D5, 0x07)]
    );
}

#[test]
fn scancodes_of_set_one() {
    assert_eq!(get_scancode(0x02), Some(ScanCode::new(ScanCodeType::Digit(1))));
    assert_eq!(get_scancode(0x0B), Some(ScanCode::new(ScanCodeType::Digit(10))));
    assert_eq!(get_scancode(0x0C), Some(ScanCode::new(ScanCodeType::Digit(0))));
    assert_eq!(get_scancode(0x1E), Some(ScanCode::new(ScanCodeType::Character('a'))));
    assert_eq!(get_scancode(0x2A), Some(ScanCode::new(ScanCodeType::Shift)));
    assert_eq!(get_scancode(0xAA), Some(ScanCode::new(ScanCodeType::Shift).released()));
    assert_eq!(get_scancode(0x9E), None);
    assert_eq!(RawScanCode(0x1C).get_scancode(), Some(ScanCode::new(ScanCodeType::Enter)));
}

#[test]
fn characters_of_keys() {
    assert_eq!(ScanCode::new(ScanCodeType::Digit(1)).get_char(false), Ok('1'));
    assert_eq!(ScanCode::new(ScanCodeType::Digit(10)).get_char(false), Ok(':'));
    assert_eq!(ScanCode::new(ScanCodeType::Character('q')).get_char(false), Ok('q'));
    assert_eq!(ScanCode::new(ScanCodeType::Character('q')).get_char(true), Ok('Q'));
    assert_eq!(ScanCode::new(ScanCodeType::Character(',')).get_char(true), Ok(','));
    assert_eq!(ScanCode::new(ScanCodeType::Quote).get_char(true), Ok('"'));
    assert_eq!(ScanCode::new(ScanCodeType::Quote).get_char(false), Ok('\''));
    assert_eq!(ScanCode::new(ScanCodeType::Enter).get_char(false), Ok('\n'));
    assert_eq!(ScanCode::new(ScanCodeType::Space).get_char(true), Ok(' '));
    assert_eq!(
        ScanCode::new(ScanCodeType::Backspace).get_char(false),
        Err(ScanCodeError::BackspaceScancode)
    );
    assert_eq!(
        ScanCode::new(ScanCodeType::Shift).get_char(false),
        Err(ScanCodeError::InvalidScancode)
    );
}

#[test]
fn getc_follows_shift() {
    let mut k = KeyboardState::new();
    assert!(!k.is_uppercase);
    assert_eq!(getc(&mut k, 0x1E), Some('a' as usize));
    assert_eq!(getc(&mut k, 0x2A), None);
    assert!(k.is_uppercase);
    assert_eq!(getc(&mut k, 0x1E), Some('A' as usize));
    assert_eq!(getc(&mut k, 0xAA), None);
    assert!(!k.is_uppercase);
    assert_eq!(getc(&mut k, 0x0E), Some(BACKSPACE_VALUE));
    assert_eq!(getc(&mut k, 0x9E), None);
    k.set_uppercased(true);
    assert_eq!(getc(&mut k, 0x28), Some('"' as usize));
}

#[test]
fn ata_identify_sequence() {
    let ata = Ata::primary();
    assert_eq!(ata.register_port(RegisterType::Status), 0x3F6);
    assert_eq!(ata.register_port(RegisterType::LbaMid), 0x1F4);
    assert_eq!(ata.data_port(), 0x1F0);
    assert_eq!(ata.select_drive(Drive::Slave), w(0x1F6, 0xB0));
    assert_eq!(ata.write_register(RegisterType::Command, 7), w(0x1F7, 7));
    assert_eq!(
        ata.identify_start(Drive::Master),
        vec![
            w(0x1F6, 0xA0),
            w(0x1F2, 0),
            w(0x1F3, 0),
            w(0x1F4, 0),
            w(0x1F5, 0),
            w(0x1F7, IDENTIFY_COMMAND),
        ]
    );
    assert_eq!(Ata::get_device_type(0, 0), DeviceType::Ata);
    assert_eq!(Ata::get_device_type(0x14, 0xEB), DeviceType::Atapi);
}

#[test]
fn ata_identify_steps() {
    let ata = Ata::new(PortRange::new(0x170, 0x177), 0x376);
    assert_eq!(
        ata.identify_step(IdentifyState::CheckStatus, 0),
        (IdentifyState::CheckStatus, IdentifyAction::DoesntExist)
    );
    let (s, a) = ata.identify_step(IdentifyState::CheckStatus, 0x58);
    assert_eq!((s, a), (IdentifyState::WaitNotBusy, IdentifyAction::Read(0x376)));
    let (s, a) = ata.identify_step(s, 0x80);
    assert_eq!((s, a), (IdentifyState::WaitNotBusy, IdentifyAction::Read(0x376)));
    let (s, a) = ata.identify_step(s, 0x58);
    assert_eq!((s, a), (IdentifyState::ReadMid, IdentifyAction::Read(0x174)));
    let (s, a) = ata.identify_step(s, 0);
    assert_eq!((s, a), (IdentifyState::ReadHigh(0), IdentifyAction::Read(0x175)));
    let (s2, a2) = ata.identify_step(s, 0xEB);
    assert_eq!((s2, a2), (IdentifyState::ReadHigh(0), IdentifyAction::InvalidDevice(DeviceType::Atapi)));
    let (s, a) = ata.identify_step(s, 0);
    assert_eq!((s, a), (IdentifyState::WaitReady, IdentifyAction::Read(0x376)));
    let (_, a) = ata.identify_step(s, 0x00);
    assert_eq!(a, IdentifyAction::Read(0x376));
    let (_, a) = ata.identify_step(s, 0x08);
    assert_eq!(a, IdentifyAction::ReadDataThenDoesntExist(0x170));
    let (_, a) = ata.identify_step(s, 0x01);
    assert_eq!(a, IdentifyAction::Failed);
}

#[test]
fn keys_as_text() {
    assert_eq!(ScanCode::new(ScanCodeType::Character('k')).to_text(true), "K");
    assert_eq!(ScanCode::new(ScanCodeType::Digit(4)).to_text(false), "4");
    assert_eq!(ScanCode::new(ScanCodeType::Shift).to_text(false), "");
    assert_eq!(ScanCode::new(ScanCodeType::Backspace).to_text(true), "");
}
