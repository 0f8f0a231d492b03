pub mod allocation_table;
pub mod dir_entry;
pub mod file;

use crate::monos_kernel::fs::bytes::{le16, read_le16};
use crate::monos_kernel::fs::ramdisk::RamDisk;
use vstd::prelude::*;

verus! {

/// The size of a directory entry in bytes.
pub const DIR_ENTRY_SIZE: u32 = 32;
/// Where the BIOS parameter block starts in the boot sector, and how long it is.
pub const BPB_OFFSET: usize = 11;
pub const BPB_SIZE: usize = 51;

/// Fields of the BIOS parameter block, by their offset in the disk.
pub open spec fn bpb_bytes_per_sector(d: Seq<u8>) -> int {
    le16(d, 11)
}

pub open spec fn bpb_sectors_per_cluster(d: Seq<u8>) -> u8 {
    d[13]
}

pub open spec fn bpb_reserved_sectors(d: Seq<u8>) -> int {
    le16(d, 14)
}

pub open spec fn bpb_fat_count(d: Seq<u8>) -> int {
    d[16] as int
}

pub open spec fn bpb_root_dir_entries(d: Seq<u8>) -> int {
    le16(d, 17)
}

pub open spec fn bpb_sectors_per_fat(d: Seq<u8>) -> int {
    le16(d, 22)
}

/// The file system type field reads `FAT16   `.
pub open spec fn bpb_is_fat16(d: Seq<u8>) -> bool {
    d.subrange(54, 62) == seq![0x46u8, 0x41, 0x54, 0x31, 0x36, 0x20, 0x20, 0x20]
}

/// The sectors the root directory takes, rounded up.
pub open spec fn bpb_root_dir_sectors(d: Seq<u8>) -> int {
    (bpb_root_dir_entries(d) * 32 + bpb_bytes_per_sector(d) - 1) / bpb_bytes_per_sector(d)
}

pub open spec fn bpb_first_root_sector(d: Seq<u8>) -> int {
    bpb_reserved_sectors(d) + bpb_fat_count(d) * bpb_sectors_per_fat(d)
}

pub open spec fn bpb_first_data_sector(d: Seq<u8>) -> int {
    bpb_first_root_sector(d) + bpb_root_dir_sectors(d)
}

/// The BIOS parameter block: how the file system is laid out on the disk.
pub struct BiosParameterBlock {
    pub bytes_per_sector: u16,
    pub sectors_per_cluster: u8,
    pub reserved_sectors: u16,
    pub fat_count: u8,
    pub root_dir_entries: u16,
    pub sectors_per_fat: u16,
}

impl BiosParameterBlock {
    /// Reads the fields from the block's bytes.
    pub fn parse(b: &[u8]) -> (r: BiosParameterBlock)
        requires
            b@.len() >= BPB_SIZE,
        ensures
            r.bytes_per_sector == le16(b@, 0),
            r.sectors_per_cluster == b@[2],
            r.reserved_sectors == le16(b@, 3),
            r.fat_count == b@[5],
            r.root_dir_entries == le16(b@, 6),
            r.sectors_per_fat == le16(b@, 11),
    {
        BiosParameterBlock {
            bytes_per_sector: read_le16(b, 0),
            sectors_per_cluster: b[2],
            reserved_sectors: read_le16(b, 3),
            fat_count: b[5],
            root_dir_entries: read_le16(b, 6),
            sectors_per_fat: read_le16(b, 11),
        }
    }

    pub fn root_dir_sectors(&self) -> (r: u32)
        requires
            self.bytes_per_sector > 0,
        ensures
            r == (self.root_dir_entries * 32 + self.bytes_per_sector - 1) / (
            self.bytes_per_sector as int),
    {
        let root_dir_bytes = self.root_dir_entries as u32 * DIR_ENTRY_SIZE;
        let bytes_per_sector = self.bytes_per_sector as u32;
        (root_dir_bytes + bytes_per_sector - 1) / bytes_per_sector
    }

    pub fn first_root_sector(&self) -> (r: u32)
        ensures
            r == self.reserved_sectors + self.fat_count * self.sectors_per_fat,
    {
        assert(self.fat_count * self.sectors_per_fat <= 255 * 65535) by (nonlinear_arith)
            requires
                self.fat_count <= 255,
                self.sectors_per_fat <= 65535,
        ;
        self.reserved_sectors as u32 + self.fat_count as u32 * self.sectors_per_fat as u32
    }

    pub fn first_fat_sector(&self) -> (r: u32)
        ensures
            r == self.reserved_sectors,
    {
        self.reserved_sectors as u32
    }

    pub fn first_data_sector(&self) -> (r: u32)
        requires
            self.bytes_per_sector > 0,
        ensures
            r == self.reserved_sectors + self.fat_count * self.sectors_per_fat + (
            self.root_dir_entries * 32 + self.bytes_per_sector - 1) / (
            self.bytes_per_sector as int),
    {
        let root = self.first_root_sector();
        let dir = self.root_dir_sectors();
        let ghost x = self.root_dir_entries * 32 + self.bytes_per_sector - 1;
        assert(x / (self.bytes_per_sector as int) <= x) by (nonlinear_arith)
            requires
                x >= 0,
                self.bytes_per_sector >= 1,
        ;
        assert(self.fat_count * self.sectors_per_fat <= 255 * 65535) by (nonlinear_arith)
            requires
                self.fat_count <= 255,
                self.sectors_per_fat <= 65535,
        ;
        root + dir
    }

    pub fn bytes_per_sector(&self) -> (r: u32)
        ensures
            r == self.bytes_per_sector,
    {
        self.bytes_per_sector as u32
    }
}

/// A FAT16 file system on a disk in memory, with where its parts start.
pub struct Fat16Fs {
    pub ramdisk: RamDisk,
    pub first_root_sector: u32,
    pub first_fat_sector: u32,
    pub first_data_sector: u32,
    pub bytes_per_sector: u32,
    pub sectors_per_cluster: u8,
}

#[derive(Debug, Clone, Copy, PartialEq, Eq, Structural)]
pub enum Fat16Error {
    NotFAT16,
}

impl Fat16Fs {
    /// Reads the BIOS parameter block of the disk; the disk must hold a FAT16 file system.
    /// A disk labelled FAT16 whose sector size is 0 is left out: working out where its data
    /// starts divides by the sector size.
    pub fn new(ramdisk: RamDisk) -> (r: Result<Fat16Fs, Fat16Error>)
        requires
            ramdisk.data@.len() >= BPB_OFFSET + BPB_SIZE,
            bpb_is_fat16(ramdisk.data@) ==> bpb_bytes_per_sector(ramdisk.data@) > 0,
        ensures
            !bpb_is_fat16(ramdisk.data@) ==> r == Err::<Fat16Fs, Fat16Error>(Fat16Error::NotFAT16),
            bpb_is_fat16(ramdisk.data@) ==> r is Ok,
            r matches Ok(fs) ==> {
                &&& fs.ramdisk.data@ == ramdisk.data@
                &&& fs.ramdisk.pos == BPB_OFFSET + BPB_SIZE
                &&& fs.first_fat_sector == bpb_reserved_sectors(ramdisk.data@)
                &&& fs.first_root_sector == bpb_first_root_sector(ramdisk.data@)
                &&& fs.first_data_sector == bpb_first_data_sector(ramdisk.data@)
                &&& fs.bytes_per_sector == bpb_bytes_per_sector(ramdisk.data@)
                &&& fs.sectors_per_cluster == bpb_sectors_per_cluster(ramdisk.data@)
            },
    {
        let mut ramdisk = ramdisk;
        let ghost d = ramdisk.data@;
        let mut block = vec![0u8; BPB_SIZE];
        ramdisk.set_pos(BPB_OFFSET);
        ramdisk.read(block.as_mut_slice());
        let bpb = BiosParameterBlock::parse(block.as_slice());
        proof {
            assert(block@ =~= d.subrange(11, 62));
        }
        let is_fat16 = block[43] == 0x46 && block[44] == 0x41 && block[45] == 0x54 && block[46]
            == 0x31 && block[47] == 0x36 && block[48] == 0x20 && block[49] == 0x20 && block[50]
            == 0x20;
        if !is_fat16 {
            proof {
                if bpb_is_fat16(d) {
                    assert(d.subrange(54, 62)[0] == 0x46u8);
                    assert(d.subrange(54, 62)[1] == 0x41u8);
                    assert(d.subrange(54, 62)[2] == 0x54u8);
                    assert(d.subrange(54, 62)[3] == 0x31u8);
                    assert(d.subrange(54, 62)[4] == 0x36u8);
                    assert(d.subrange(54, 62)[5] == 0x20u8);
                    assert(d.subrange(54, 62)[6] == 0x20u8);
                    assert(d.subrange(54, 62)[7] == 0x20u8);
                }
            }
            return Err(Fat16Error::NotFAT16);
        }
        proof {
            assert(d.subrange(54, 62) =~= seq![0x46u8, 0x41, 0x54, 0x31, 0x36, 0x20, 0x20, 0x20]);
            assert(block@[0] == d[11] && block@[1] == d[12] && block@[2] == d[13]);
            assert(block@[3] == d[14] && block@[4] == d[15] && block@[5] == d[16]);
            assert(block@[6] == d[17] && block@[7] == d[18]);
            assert(block@[11] == d[22] && block@[12] == d[23]);
        }
        let fs = Fat16Fs {
            first_data_sector: bpb.first_data_sector(),
            first_fat_sector: bpb.first_fat_sector(),
            first_root_sector: bpb.first_root_sector(),
            bytes_per_sector: bpb.bytes_per_sector(),
            sectors_per_cluster: bpb.sectors_per_cluster,
            ramdisk,
        };
        assert(fs.ramdisk.data@ == d);
        assert(fs.ramdisk.pos == 62);
        assert(fs.first_fat_sector == bpb_reserved_sectors(d));
        assert(fs.first_root_sector == bpb_first_root_sector(d));
        assert(fs.first_data_sector == bpb_first_data_sector(d));
        assert(fs.bytes_per_sector == bpb_bytes_per_sector(d));
        assert(fs.sectors_per_cluster == bpb_sectors_per_cluster(d));
        Ok(fs)
    }

    /// The byte offset of a sector.
    pub fn sector_offset(&self, sector: u32) -> (r: u32)
        requires
            sector * self.bytes_per_sector <= u32::MAX,
        ensures
            r == sector * self.bytes_per_sector,
    {
        sector * self.bytes_per_sector
    }

    /// The byte offset of a cluster.
    pub open spec fn spec_cluster_offset(&self, cluster: int) -> int {
        (self.first_data_sector + cluster * self.sectors_per_cluster) * self.bytes_per_sector
    }

    pub fn cluster_offset(&self, cluster: u32) -> (r: u32)
        requires
            self.first_data_sector + cluster * self.sectors_per_cluster <= u32::MAX,
            self.spec_cluster_offset(cluster as int) <= u32::MAX,
        ensures
            r == self.spec_cluster_offset(cluster as int),
    {
        self.sector_offset(self.first_data_sector + cluster * self.sectors_per_cluster as u32)
    }

    /// The size of a cluster in bytes.
    pub fn cluster_size(&self) -> (r: u32)
        requires
            self.bytes_per_sector * self.sectors_per_cluster <= u32::MAX,
        ensures
            r == self.bytes_per_sector * self.sectors_per_cluster,
    {
        self.bytes_per_sector * self.sectors_per_cluster as u32
    }
}

} // verus!
