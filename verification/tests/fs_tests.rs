use monos::monos_kernel::fs::bytes::{read_le16, read_le32};
use monos::monos_kernel::fs::fat16::dir_entry::{DirEntryError, Fat16DirEntry, Fat16DirIter};
use monos::monos_kernel::fs::fat16::file::{AtomicCurrentCluster, Fat16File};
use monos::monos_kernel::fs::fat16::Fat16Fs;
use monos::monos_kernel::fs::ramdisk::RamDisk;
use monos::monos_kernel::fs::path::Path;
use monos::monos_kernel::fs::vfs::{MountError, OpenError, VFSNodeType, VFS};

const ROOT: usize = 3 * 512;
const DATA: usize = 4 * 512;

fn disk() -> Vec<u8> {
    let mut d = vec![0u8; 8 * 512];
    d[11] = 0x00;
    d[12] = 0x02; // 512 bytes per sector
    d[13] = 1; // sectors per cluster
    d[14] = 1; // reserved sectors
    d[16] = 2; // two FATs
    d[17] = 16; // root entries
    d[22] = 1; // sectors per FAT
    d[54..62].copy_from_slice(b"FAT16   ");
    // cluster 2 is the whole chain of the file
    d[512 + 4] = 0xFF;
    d[512 + 5] = 0xFF;
    // entry 0: README, a file of 10 bytes at cluster 2
    d[ROOT..ROOT + 8].copy_from_slice(b"README\0\0");
    d[ROOT + 8..ROOT + 11].copy_from_slice(b"TXT");
    d[ROOT + 11] = 0x20;
    d[ROOT + 26] = 2;
    d[ROOT + 28] = 10;
    // entry 1: free
    d[ROOT + 32..ROOT + 40].copy_from_slice(&[0xE5, 0x80, 0x80, b'X', b' ', b' ', b' ', b' ']);
    // entries 2 and 3: long name "hi" for a directory at cluster 3
    let lfn = ROOT + 64;
    d[lfn] = 0x41;
    d[lfn + 1] = b'h';
    d[lfn + 3] = b'i';
    d[lfn + 11] = 0x0F;
    let short = ROOT + 96;
    d[short..short + 8].copy_from_slice(b"HI      ");
    d[short + 11] = 0x10;
    d[short + 26] = 3;
    // entry 4: end of the directory
    // the file's data, at (4 + 2) sectors
    let file = (4 + 2) * 512;
    d[file..file + 11].copy_from_slice(b"hello world");
    d
}

#[test]
fn little_endian_reads() {
    let d = [0x34, 0x12, 0x78, 0x56];
    assert_eq!(read_le16(&d, 0), 0x1234);
    assert_eq!(read_le32(&d, 0), 0x5678_1234);
}

#[test]
fn dir_entry_short_name() {
    let fs = Fat16Fs::new(RamDisk::new(disk())).ok().unwrap();
    let (e, used) = Fat16DirEntry::new(&fs, 3, 0).ok().unwrap();
    assert_eq!(used, 32);
    assert_eq!(e.name, "README");
    assert_eq!(e.size, 10);
    assert_eq!(e.first_cluster, 2);
    assert!(!e.is_dir());
    assert_eq!(e.node_type(), VFSNodeType::File { size: 10 });
    assert!(e.iter().is_none());
    let f = e.as_file().unwrap();
    assert_eq!(f.name, "README");
    assert_eq!(f.pos, 0);
}

#[test]
fn dir_entry_long_name() {
    let fs = Fat16Fs::new(RamDisk::new(disk())).ok().unwrap();
    let (e, used) = Fat16DirEntry::new(&fs, 3, 64).ok().unwrap();
    assert_eq!(used, 64);
    assert_eq!(e.name, "hi");
    assert!(e.is_dir());
    assert_eq!(e.node_type(), VFSNodeType::Directory);
    assert!(e.as_file().is_none());
    let it = e.iter().unwrap();
    assert_eq!(it.sector, fs.first_data_sector + 1);
    assert_eq!(it.offset, 0);
}

#[test]
fn dir_entry_errors() {
    let fs = Fat16Fs::new(RamDisk::new(disk())).ok().unwrap();
    assert!(matches!(Fat16DirEntry::new(&fs, 3, 32), Err(DirEntryError::FreeEntry)));
    assert!(matches!(Fat16DirEntry::new(&fs, 3, 128), Err(DirEntryError::NoMoreEntries)));
}

#[test]
fn root_dir_walk_skips_free_entries() {
    let fs = Fat16Fs::new(RamDisk::new(disk())).ok().unwrap();
    let mut it = fs.iter_root_dir();
    assert_eq!(it.sector, 3);
    let a = it.next().unwrap();
    assert_eq!(a.name, "README");
    let b = it.next().unwrap();
    assert_eq!(b.name, "hi");
    assert_eq!(it.offset, 128);
    assert!(it.next().is_none());
    assert!(it.next().is_none());
    let again = Fat16DirIter::new(&fs, 3);
    assert_eq!(again.offset, 0);
}

#[test]
fn file_reads_within_its_size() {
    let fs = Fat16Fs::new(RamDisk::new(disk())).ok().unwrap();
    let mut f = Fat16File::new(String::from("README"), 10, 2);
    let mut buf = [0u8; 5];
    assert_eq!(Fat16File::read(&mut f, &fs, &mut buf), 5);
    assert_eq!(&buf, b"hello");
    assert_eq!(f.pos, 5);
    let mut rest = [0u8; 100];
    assert_eq!(Fat16File::read(&mut f, &fs, &mut rest), 5);
    assert_eq!(&rest[..5], b" worl");
    assert_eq!(rest[5], 0);
    assert_eq!(f.pos, 10);
    assert_eq!(Fat16File::read(&mut f, &fs, &mut rest), 0);
}

#[test]
fn file_seek_moves_the_position() {
    let fs = Fat16Fs::new(RamDisk::new(disk())).ok().unwrap();
    let mut f = Fat16File::new(String::from("README"), 10, 2);
    Fat16File::seek(&mut f, &fs, 6);
    assert_eq!(f.pos, 6);
    Fat16File::seek(&mut f, &fs, 50);
    assert_eq!(f.pos, 10);
    Fat16File::seek(&mut f, &fs, 0);
    assert_eq!(f.pos, 0);
}

#[test]
fn current_cluster_store_then_load() {
    let mut c = AtomicCurrentCluster::new(None);
    assert_eq!(c.load(), None);
    c.store(Some(7));
    assert_eq!(c.load(), Some(7));
    c.store(None);
    assert_eq!(c.load(), None);
    assert_eq!(AtomicCurrentCluster::new(Some(3)).load(), Some(3));
}

#[test]
fn fat16_offsets() {
    let fs = Fat16Fs::new(RamDisk::new(disk())).ok().unwrap();
    assert_eq!(fs.sector_offset(3), ROOT as u32);
    assert_eq!(fs.cluster_size(), 512);
    assert_eq!(fs.cluster_offset(0), DATA as u32);
}

#[test]
fn vfs_mounts_and_finds_files() {
    let mut vfs = VFS::new();
    assert_eq!(vfs.nodes[0].name(), "/");
    let fs = Fat16Fs::new(RamDisk::new(disk())).ok().unwrap();
    assert!(vfs.mount(0, fs).is_ok());
    let readme = vfs.get(Path::new("README")).unwrap();
    assert_eq!(vfs.nodes[readme].name(), "README");
    assert_eq!(vfs.nodes[readme].node_type, VFSNodeType::File { size: 10 });
    assert_eq!(vfs.nodes[readme].parent(), Some(0));
    let file = vfs.open(readme).ok().unwrap();
    assert_eq!(file.name, "README");
    assert_eq!(file.size, 10);
    assert_eq!(file.pos, 0);
    let dir = vfs.get(Path::new("hi")).unwrap();
    assert!(vfs.nodes[dir].is_directory());
    assert!(matches!(vfs.open(dir), Err(OpenError::NotAFile)));
    assert!(matches!(vfs.open(0), Err(OpenError::NotAFile)));
    assert!(vfs.get(Path::new("hi/nothing")).is_none());
    assert!(vfs.get(Path::new("missing")).is_none());
    assert_eq!(vfs.children(0).len(), 2);
}

#[test]
fn vfs_mount_errors() {
    let mut vfs = VFS::new();
    let fs = Fat16Fs::new(RamDisk::new(disk())).ok().unwrap();
    assert!(vfs.mount(0, fs).is_ok());
    let readme = vfs.get(Path::new("README")).unwrap();
    let again = Fat16Fs::new(RamDisk::new(disk())).ok().unwrap();
    assert!(matches!(vfs.mount(readme, again), Err(MountError::NotADirectory)));
    let third = Fat16Fs::new(RamDisk::new(disk())).ok().unwrap();
    assert!(matches!(vfs.mount(0, third), Err(MountError::NotEmpty)));
}

#[test]
fn vfs_open_without_file_system() {
    let mut vfs = VFS::new();
    let f = vfs.add_child(0, String::from("loose"), VFSNodeType::File { size: 3 }, None);
    assert!(matches!(vfs.open(f), Err(OpenError::NotFound)));
    assert_eq!(vfs.children(0), vec![f]);
}
