use vstd::prelude::*;
use crate::drivers::utils::{PortRange, PortWrite};

verus! {

/// A controller on an ATA bus: its eight control ports and its status port.
pub struct Ata {
    control_ports: PortRange,
    status_port: u16,
}

/// The two drives of a bus.
#[derive(Copy, Clone, PartialEq, Eq, Structural, Debug)]
pub enum Drive {
    Master,
    Slave,
}

impl Drive {
    pub open spec fn bits_spec(self) -> u8 {
        match self {
            Drive::Master => 0xA0,
            Drive::Slave => 0xB0,
        }
    }

    /// The value of the drive-select register.
    pub fn bits(&self) -> (r: u8)
        ensures
            r == self.bits_spec(),
    {
        match self {
            Drive::Master => 0xA0,
            Drive::Slave => 0xB0,
        }
    }
}

/// Kinds of devices on a bus.
#[derive(Copy, Clone, PartialEq, Eq, Structural, Debug)]
pub enum DeviceType {
    Ata,
    Atapi,
    Sata,
    Satapi,
}

/// The 256 words that IDENTIFY returns.
pub struct IdentifyInformation(pub [u16; 256]);

/// What IDENTIFY found.
pub enum AtaIdentifyResponse {
    ValidDevice(IdentifyInformation),
    InvalidDevice(DeviceType),
    DoesntExist,
}

/// The registers of a controller.
#[derive(Copy, Clone, PartialEq, Eq, Structural, Debug)]
pub enum RegisterType {
    ErrorInformation,
    SectorCount,
    LbaLow,
    LbaMid,
    LbaHigh,
    Drive,
    Command,
    Status,
}

impl RegisterType {
    pub open spec fn offset_spec(self) -> u16 {
        match self {
            RegisterType::ErrorInformation => 1,
            RegisterType::SectorCount => 2,
            RegisterType::LbaLow => 3,
            RegisterType::LbaMid => 4,
            RegisterType::LbaHigh => 5,
            RegisterType::Drive => 6,
            RegisterType::Command => 7,
            RegisterType::Status => 8,
        }
    }

    /// The register's offset among the control ports.
    pub fn offset(&self) -> (r: u16)
        ensures
            r == self.offset_spec(),
    {
        match self {
            RegisterType::ErrorInformation => 1,
            RegisterType::SectorCount => 2,
            RegisterType::LbaLow => 3,
            RegisterType::LbaMid => 4,
            RegisterType::LbaHigh => 5,
            RegisterType::Drive => 6,
            RegisterType::Command => 7,
            RegisterType::Status => 8,
        }
    }
}

/// The IDENTIFY command.
pub const IDENTIFY_COMMAND: u8 = 0xEC;

/// Where IDENTIFY stands between two reads of a register.
#[derive(Copy, Clone, PartialEq, Eq, Structural, Debug)]
pub enum IdentifyState {
    /// The command was sent; the status register is read once.
    CheckStatus,
    /// Waiting for the busy bit (bit 7) of the status register to clear.
    WaitNotBusy,
    /// Reading the LBA-mid register.
    ReadMid,
    /// Reading the LBA-high register, with LBA-mid read.
    ReadHigh(u8),
    /// Waiting for the data-request bit (3) or the error bit (0) of the status register.
    WaitReady,
}

/// What to do next for IDENTIFY.
#[derive(Copy, Clone, PartialEq, Eq, Structural, Debug)]
pub enum IdentifyAction {
    /// Read the byte register at this port and hand its value to `identify_step`.
    Read(u16),
    /// Read the 256 data words from this port; then there is no device to report.
    ReadDataThenDoesntExist(u16),
    /// The drive is not there.
    DoesntExist,
    /// The device is of another kind.
    InvalidDevice(DeviceType),
    /// The drive reported an error.
    Failed,
}

impl Ata {
    /// The control ports.
    pub closed spec fn ports(&self) -> PortRange {
        self.control_ports
    }

    /// The status port.
    pub closed spec fn status(&self) -> u16 {
        self.status_port
    }

    /// The controller's eight control ports are all there.
    pub open spec fn wf(&self) -> bool {
        &&& self.ports().first() <= self.ports().last()
        &&& self.ports().last() - self.ports().first() >= 7
    }

    /// The port of a register: the status port for `Status`, else the control
    /// port at the register's offset.
    pub open spec fn port_of(&self, register: RegisterType) -> u16 {
        if register == RegisterType::Status {
            self.status()
        } else {
            (self.ports().first() + register.offset_spec()) as u16
        }
    }

    pub fn new(control_ports: PortRange, status_port: u16) -> (r: Self)
        ensures
            r.ports() == control_ports,
            r.status() == status_port,
    {
        Ata { control_ports, status_port }
    }

    /// The controller of the primary bus: control ports 0x1F0-0x1F7, status 0x3F6.
    pub fn primary() -> (r: Self)
        ensures
            r.ports().first() == 0x1F0,
            r.ports().last() == 0x1F7,
            r.status() == 0x3F6,
            r.wf(),
    {
        Ata::new(PortRange::new(0x1F0, 0x1F7), 0x3F6)
    }

    /// The port of a register (see `port_of`).
    pub fn register_port(&self, register: RegisterType) -> (r: u16)
        requires
            self.wf(),
        ensures
            r == self.port_of(register),
    {
        match register {
            RegisterType::Status => self.status_port,
            _ => self.control_ports.get(register.offset()),
        }
    }

    /// The write of `value` to a register.
    pub fn write_register(&self, register: RegisterType, value: u8) -> (r: PortWrite)
        requires
            self.wf(),
        ensures
            r == (PortWrite { port: self.port_of(register), value }),
    {
        PortWrite { port: self.register_port(register), value }
    }

    /// The write that selects a drive.
    pub fn select_drive(&self, drive: Drive) -> (r: PortWrite)
        requires
            self.wf(),
        ensures
            r == (PortWrite { port: self.port_of(RegisterType::Drive), value: drive.bits_spec() }),
    {
        self.write_register(RegisterType::Drive, drive.bits())
    }

    /// The data port, control port 0.
    pub fn data_port(&self) -> (r: u16)
        requires
            self.wf(),
        ensures
            r == self.ports().first(),
    {
        self.control_ports.get(0)
    }

    /// The kind of device from the LBA-mid and LBA-high registers after
    /// IDENTIFY: ATA when both are zero; every other pair is taken for ATAPI.
    pub fn get_device_type(mid: u8, high: u8) -> (r: DeviceType)
        ensures
            r == (if mid == 0 && high == 0 {
                DeviceType::Ata
            } else {
                DeviceType::Atapi
            }),
    {
        if mid == 0 && high == 0 {
            return DeviceType::Ata;
        }
        DeviceType::Atapi
    }

    /// The writes that start IDENTIFY: select the drive, zero the sector
    /// count and the three LBA registers, send the command. Then the status
    /// register is read and handed to `identify_step` in state `CheckStatus`.
    pub fn identify_start(&self, drive: Drive) -> (r: Vec<PortWrite>)
        requires
            self.wf(),
        ensures
            r@ == seq![
                PortWrite { port: self.port_of(RegisterType::Drive), value: drive.bits_spec() },
                PortWrite { port: self.port_of(RegisterType::SectorCount), value: 0 },
                PortWrite { port: self.port_of(RegisterType::LbaLow), value: 0 },
                PortWrite { port: self.port_of(RegisterType::LbaMid), value: 0 },
                PortWrite { port: self.port_of(RegisterType::LbaHigh), value: 0 },
                PortWrite { port: self.port_of(RegisterType::Command), value: IDENTIFY_COMMAND },
            ],
    {
        let mut writes: Vec<PortWrite> = Vec::new();
        writes.push(self.select_drive(drive));
        writes.push(self.write_register(RegisterType::SectorCount, 0));
        writes.push(self.write_register(RegisterType::LbaLow, 0));
        writes.push(self.write_register(RegisterType::LbaMid, 0));
        writes.push(self.write_register(RegisterType::LbaHigh, 0));
        writes.push(self.write_register(RegisterType::Command, IDENTIFY_COMMAND));
        assert(writes@ =~= seq![
            PortWrite { port: self.port_of(RegisterType::Drive), value: drive.bits_spec() },
            PortWrite { port: self.port_of(RegisterType::SectorCount), value: 0 },
            PortWrite { port: self.port_of(RegisterType::LbaLow), value: 0 },
            PortWrite { port: self.port_of(RegisterType::LbaMid), value: 0 },
            PortWrite { port: self.port_of(RegisterType::LbaHigh), value: 0 },
            PortWrite { port: self.port_of(RegisterType::Command), value: IDENTIFY_COMMAND },
        ]);
        writes
    }

    /// One step of IDENTIFY, given the value just read in `state`:
    /// - `CheckStatus`: a zero status means no drive; else wait until not busy;
    /// - `WaitNotBusy`: once bit 7 is clear, read LBA-mid; else read the status again;
    /// - `ReadMid`, `ReadHigh`: read LBA-high, then tell the device type; a device
    ///   that is not ATA is reported, an ATA one is waited for;
    /// - `WaitReady`: once bit 3 or bit 0 is set, an error (bit 0) fails, else the
    ///   data words are read; otherwise read the status again.
    pub fn identify_step(&self, state: IdentifyState, value: u8) -> (r: (
        IdentifyState,
        IdentifyAction,
    ))
        requires
            self.wf(),
        ensures
            r == match state {
                IdentifyState::CheckStatus => if value == 0 {
                    (state, IdentifyAction::DoesntExist)
                } else {
                    (
                        IdentifyState::WaitNotBusy,
                        IdentifyAction::Read(self.port_of(RegisterType::Status)),
                    )
                },
                IdentifyState::WaitNotBusy => if value & 0x80 == 0 {
                    (IdentifyState::ReadMid, IdentifyAction::Read(self.port_of(RegisterType::LbaMid)))
                } else {
                    (state, IdentifyAction::Read(self.port_of(RegisterType::Status)))
                },
                IdentifyState::ReadMid => (
                    IdentifyState::ReadHigh(value),
                    IdentifyAction::Read(self.port_of(RegisterType::LbaHigh)),
                ),
                IdentifyState::ReadHigh(mid) => if mid == 0 && value == 0 {
                    (IdentifyState::WaitReady, IdentifyAction::Read(self.port_of(RegisterType::Status)))
                } else {
                    (state, IdentifyAction::InvalidDevice(DeviceType::Atapi))
                },
                IdentifyState::WaitReady => if value & 8 != 0 || value & 1 != 0 {
                    if value & 1 != 1 {
                        (state, IdentifyAction::ReadDataThenDoesntExist(self.ports().first()))
                    } else {
                        (state, IdentifyAction::Failed)
                    }
                } else {
                    (state, IdentifyAction::Read(self.port_of(RegisterType::Status)))
                },
            },
    {
        match state {
            IdentifyState::CheckStatus => {
                // a zero status: the drive does not exist
                if value == 0 {
                    (state, IdentifyAction::DoesntExist)
                } else {
                    (IdentifyState::WaitNotBusy, IdentifyAction::Read(self.register_port(RegisterType::Status)))
                }
            },
            IdentifyState::WaitNotBusy => {
                if value & 0x80 == 0 {
                    (IdentifyState::ReadMid, IdentifyAction::Read(self.register_port(RegisterType::LbaMid)))
                } else {
                    (state, IdentifyAction::Read(self.register_port(RegisterType::Status)))
                }
            },
            IdentifyState::ReadMid => {
                (IdentifyState::ReadHigh(value), IdentifyAction::Read(self.register_port(RegisterType::LbaHigh)))
            },
            IdentifyState::ReadHigh(mid) => {
                let device_type = Ata::get_device_type(mid, value);
                match device_type {
                    DeviceType::Ata => (IdentifyState::WaitReady, IdentifyAction::Read(self.register_port(RegisterType::Status))),
                    _ => (state, IdentifyAction::InvalidDevice(device_type)),
                }
            },
            IdentifyState::WaitReady => {
                if value & 8 != 0 || value & 1 != 0 {
                    // the error bit decides
                    if value & 1 != 1 {
                        (state, IdentifyAction::ReadDataThenDoesntExist(self.data_port()))
                    } else {
                        (state, IdentifyAction::Failed)
                    }
                } else {
                    (state, IdentifyAction::Read(self.register_port(RegisterType::Status)))
                }
            },
        }
    }
}

} // verus!
