pub use crate::drivers::ata::Drive;
pub use crate::filesystem::disk::{DeviceType, Disk};
