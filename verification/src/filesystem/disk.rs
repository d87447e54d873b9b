use vstd::prelude::*;

verus! {

/// The two drives of an ATA bus.
#[derive(PartialEq, Eq, Structural, Clone, Copy, Debug)]
pub enum Drive {
    Master,
    Slave,
}

/// Kinds of devices on an ATA bus.
#[derive(PartialEq, Eq, Structural, Clone, Copy, Debug)]
pub enum DeviceType {
    Ata,
    Atapi,
    Sata,
    Satapi,
}

/// A block device that the filesystem reads its sectors from.
///
/// An implementation reads the same bytes each time it is asked for the same
/// sectors (nothing writes the disk while the filesystem reads it): what a
/// successful read gives is a function of where it starts and how many bytes
/// it asks for. `read_view` and `read_count` name that function; they are
/// ghost, and an implementation outside verified code gives them a body
/// that never runs.
pub trait Disk {
    /// The bytes that a successful read of `len` bytes from sector `block` on gives.
    spec fn read_view(&self, block: u64, len: nat) -> Seq<u8>;

    /// The number of sectors that such a read reports.
    spec fn read_count(&self, block: u64, len: nat) -> u8;

    /// Reads from `block` on into `buffer`; on success returns the number of
    /// sectors read.
    fn read(&self, block: u64, buffer: &mut [u8]) -> (r: Result<u8, &str>)
        ensures
            final(buffer)@.len() == old(buffer)@.len(),
            r matches Ok(n) ==> n == self.read_count(block, old(buffer)@.len() as nat)
                && final(buffer)@ == self.read_view(block, old(buffer)@.len() as nat),
    ;

    /// Writes `buffer` from `block` on; on success returns the number of
    /// sectors written. Nothing in this library writes a disk: the contract
    /// of `read` holds of a disk that is only read while the filesystem is on
    /// it, so `write_at` promises nothing, and a write that changes sectors
    /// the filesystem reads is outside what `read_view` describes.
    fn write_at(&self, block: u64, buffer: &[u8]) -> Result<u8, &str>;
}

} // verus!
