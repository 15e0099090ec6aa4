//! Block devices addressed by 512-byte sectors.
use vstd::prelude::*;

verus! {

pub const SECTOR_SIZE: usize = 512;

/// The bytes in `sectors` sectors, saturating at `u64::MAX`.
pub open spec fn sectors_to_bytes_spec(sectors: u64) -> u64 {
    if sectors * SECTOR_SIZE > u64::MAX {
        u64::MAX
    } else {
        (sectors * SECTOR_SIZE) as u64
    }
}

pub fn sectors_to_bytes(sectors: u64) -> (r: u64)
    ensures
        r == sectors_to_bytes_spec(sectors),
{
    match sectors.checked_mul(SECTOR_SIZE as u64) {
        Some(bytes) => bytes,
        None => u64::MAX,
    }
}

/// A device of fixed-size sectors, implemented by the drivers.
pub trait BlockDevice {
    /// The device's size in sectors, as `capacity_sectors` reports it.
    spec fn sectors(&self) -> u64;

    fn capacity_sectors(&self) -> (r: u64)
        ensures
            r == self.sectors(),
    ;

    /// The size in bytes: the sector count times the sector size, saturating at `u64::MAX`.
    fn capacity_bytes(&self) -> (r: u64)
        ensures
            r == sectors_to_bytes_spec(self.sectors()),
    {
        sectors_to_bytes(self.capacity_sectors())
    }

    fn read_sector(&self, sector: u64, buffer: &mut [u8; 512]) -> Result<(), &'static str>;

    fn write_sector(&self, sector: u64, buffer: &[u8; 512]) -> Result<(), &'static str>;
}

} // verus!
