//! A small x86 kernel's logic, verified: the bitmap heap allocator, memory
//! layout and descriptor tables, interrupt gates, the FAT32 filesystem and its
//! table of open files, the keyboard, interrupt-controller, cursor and ATA
//! drivers' decisions, the system-call decoding, and the user programs' line
//! editing and command parsing.

pub mod bitmap_allocator;
pub mod drivers;
pub mod dtables;
pub mod filesystem;
pub mod gdt;
pub mod interrupts;
pub mod memory;
pub mod syscall;
pub mod text;
pub mod userland;
