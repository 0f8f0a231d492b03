use super::Fat16Fs;
use crate::monos_kernel::fs::bytes::{le16, read_le16};
use vstd::prelude::*;

verus! {

/// What the allocation table says of a cluster.
#[derive(Debug, Clone, Copy, PartialEq, Eq, Structural)]
pub enum AllocationType {
    Free,
    NotAllowed,
    Next(u16),
    Bad,
    EndOfFile,
}

/// The meaning of an allocation table entry.
pub open spec fn classify(entry: u16) -> AllocationType {
    if entry == 0x0000 {
        AllocationType::Free
    } else if entry == 0x0001 || entry == 0x0002 {
        AllocationType::NotAllowed
    } else if entry == 0xFFF7 {
        AllocationType::Bad
    } else if entry >= 0xFFF8 {
        AllocationType::EndOfFile
    } else {
        AllocationType::Next(entry)
    }
}

impl Fat16Fs {
    /// The byte of the disk where the table entry of `cluster` starts: two bytes per
    /// entry, from the first sector of the table.
    pub open spec fn fat_entry_pos(&self, cluster: u16) -> int {
        (self.first_fat_sector + (cluster * 2) / (self.bytes_per_sector as int))
            * self.bytes_per_sector + (cluster * 2) % (self.bytes_per_sector as int)
    }

    /// The entry of `cluster` can be read.
    pub open spec fn fat_entry_ok(&self, cluster: u16) -> bool {
        &&& self.bytes_per_sector > 0
        &&& (self.first_fat_sector + (cluster * 2) / (self.bytes_per_sector as int))
            * self.bytes_per_sector <= u32::MAX
        &&& self.fat_entry_pos(cluster) + 2 <= self.ramdisk.data@.len()
    }

    /// The allocation table entry of `cluster`.
    pub open spec fn fat_entry(&self, cluster: u16) -> u16 {
        le16(self.ramdisk.data@, self.fat_entry_pos(cluster)) as u16
    }
}

/// Looks `cluster` up in the allocation table.
pub fn lookup_allocation(fs: &Fat16Fs, cluster: u16) -> (r: AllocationType)
    requires
        fs.fat_entry_ok(cluster),
    ensures
        r == classify(fs.fat_entry(cluster)),
{
    let len = fs.ramdisk.data.len();
    let fat_offset = cluster as u32 * 2;
    proof {
        let q = fat_offset / fs.bytes_per_sector;
        let t = fs.first_fat_sector + q;
        assert(t <= t * fs.bytes_per_sector) by (nonlinear_arith)
            requires
                t >= 0,
                fs.bytes_per_sector >= 1,
        ;
    }
    let fat_sector = fs.first_fat_sector + (fat_offset / fs.bytes_per_sector);
    let fat_offset = fat_offset % fs.bytes_per_sector;
    let pos = fs.sector_offset(fat_sector) as usize + fat_offset as usize;
    let fat_entry = read_le16(fs.ramdisk.data.as_slice(), pos);
    if fat_entry == 0x0000 {
        AllocationType::Free
    } else if fat_entry == 0x0001 || fat_entry == 0x0002 {
        AllocationType::NotAllowed
    } else if fat_entry == 0xFFF7 {
        AllocationType::Bad
    } else if fat_entry >= 0xFFF8 {
        AllocationType::EndOfFile
    } else {
        AllocationType::Next(fat_entry)
    }
}

} // verus!
