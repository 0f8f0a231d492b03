use monos::monos_kernel::framebuffer::{color_positions, screen_format, PixelLayout};
use monos::monos_kernel::fs::fat16::allocation_table::{lookup_allocation, AllocationType};
use monos::monos_kernel::fs::fat16::{Fat16Error, Fat16Fs};
use monos::monos_kernel::fs::path::{Path, PathBuf};
use monos::monos_kernel::fs::ramdisk::RamDisk;
use monos::monos_kernel::gdt::gdt::{GlobalDescriptorTable, SegmentDescriptor};
use monos::monos_kernel::gdt::{PrivilegeLevel, SegmentSelector};
use monos::monos_kernel::interrupts::handlers::InterruptIndex;
use monos::monos_kernel::interrupts::idt::{IDTEntry, IDTEntryOptions, InterruptDescriptorTable};
use monos::monos_kernel::interrupts::mem::VirtualAddress;
use monos::monos_kernel::interrupts::apic::APICBase;

#[test]
fn selector_round_trip() {
    let s = SegmentSelector::new(5, PrivilegeLevel::Ring3);
    assert_eq!(s.as_u16(), (5 << 3) | 3);
    assert_eq!(s.index(), 5);
    assert_eq!(s.privilege_level(), PrivilegeLevel::Ring3);
    assert!(!s.is_ldt());
}

#[test]
fn gdt_add_descriptor_gives_selectors() {
    let mut gdt = GlobalDescriptorTable::new();
    let code = gdt.add_descriptor(SegmentDescriptor::kernel_code());
    let data = gdt.add_descriptor(SegmentDescriptor::kernel_data());
    assert_eq!(code.index(), 1);
    assert_eq!(data.index(), 2);
    assert_eq!(code.privilege_level(), PrivilegeLevel::Ring0);
    let user = gdt.add_descriptor(SegmentDescriptor::user_code());
    assert_eq!(user.privilege_level(), PrivilegeLevel::Ring3);
}

#[test]
fn interrupt_vectors() {
    assert_eq!(InterruptIndex::APICTimer.as_u8(), 0x20);
    assert_eq!(InterruptIndex::Keyboard.as_u32(), 0x21);
    assert_eq!(InterruptIndex::Mouse.as_usize(), 0x22);
    assert_eq!(InterruptIndex::SpuriousInterrupt.as_u8(), 0xFF);
}

#[test]
fn idt_entry_splits_address() {
    let e = IDTEntry::new(VirtualAddress::new(0x1234_5678_9abc_def0), SegmentSelector(8));
    assert_eq!(e.pointer_lower, 0xdef0);
    assert_eq!(e.pointer_middle, 0x9abc);
    assert_eq!(e.pointer_upper, 0x1234_5678);
    assert_eq!(e.options.0, 0b1000_1110_0000_0000);
    let empty = IDTEntry::new_empty();
    assert_eq!(empty.options.0, 0b1110_0000_0000);
    let idt = InterruptDescriptorTable::new();
    assert_eq!(idt.page_fault.options.0, 0b1110_0000_0000);
    let mut o = IDTEntryOptions::new();
    o.set_privilege_level(3);
    assert_eq!(o.0, 0b1110_1110_0000_0000);
}

#[test]
fn path_parts() {
    let p = Path::new("usr/bin/ls");
    assert_eq!(p.file_name(), Some("ls"));
    assert_eq!(p.parent().map(|q| q.as_str().to_string()), Some("bin".to_string()));
    let (a, b) = p.enter().unwrap();
    assert_eq!(a.as_str(), "usr");
    assert_eq!(b.as_str(), "bin/ls");
    assert!(Path::new("plain").enter().is_none());
    let mut buf = PathBuf::new();
    buf.child("a");
    buf.child("/b");
    assert_eq!(buf.as_path().as_str(), "/a/b");
}

#[test]
fn ramdisk_read_after_write() {
    let mut disk = RamDisk::new(vec![0u8; 16]);
    disk.set_pos(4);
    assert_eq!(disk.write(&[1, 2, 3]), 3);
    assert_eq!(disk.get_pos(), 7);
    disk.set_pos(4);
    let mut buf = [0u8; 3];
    assert_eq!(disk.read(&mut buf), 3);
    assert_eq!(buf, [1, 2, 3]);
    assert_eq!(disk.max_pos(), 16);
}

fn boot_sector(fs_type: &[u8; 8]) -> Vec<u8> {
    let mut d = vec![0u8; 2048];
    d[11] = 0x00;
    d[12] = 0x02; // 512 bytes per sector
    d[13] = 1; // sectors per cluster
    d[14] = 1; // reserved sectors
    d[16] = 2; // two FATs
    d[17] = 16; // root entries
    d[22] = 1; // sectors per FAT
    d[54..62].copy_from_slice(fs_type);
    d
}

#[test]
fn fat16_layout() {
    let fs = Fat16Fs::new(RamDisk::new(boot_sector(b"FAT16   "))).ok().unwrap();
    assert_eq!(fs.first_fat_sector, 1);
    assert_eq!(fs.first_root_sector, 3);
    assert_eq!(fs.first_data_sector, 4);
    assert_eq!(fs.bytes_per_sector, 512);
    let err = Fat16Fs::new(RamDisk::new(boot_sector(b"FAT12   ")));
    assert!(matches!(err, Err(Fat16Error::NotFAT16)));
}

#[test]
fn fat16_allocation_entries() {
    let mut d = boot_sector(b"FAT16   ");
    // FAT at sector 1: cluster 2 -> 3, cluster 3 -> end of file, cluster 4 bad
    d[512 + 4] = 3;
    d[512 + 6] = 0xFF;
    d[512 + 7] = 0xFF;
    d[512 + 8] = 0xF7;
    d[512 + 9] = 0xFF;
    let fs = Fat16Fs::new(RamDisk::new(d)).ok().unwrap();
    assert_eq!(lookup_allocation(&fs, 2), AllocationType::Next(3));
    assert_eq!(lookup_allocation(&fs, 3), AllocationType::EndOfFile);
    assert_eq!(lookup_allocation(&fs, 4), AllocationType::Bad);
    assert_eq!(lookup_allocation(&fs, 5), AllocationType::Free);
}

#[test]
fn path_parts_rejoin() {
    let p = Path::new("a/b/c");
    let (first, rest) = p.enter().unwrap();
    assert_eq!(format!("{}/{}", first.as_str(), rest.as_str()), "a/b/c");
}

#[test]
fn apic_base_address_bits() {
    assert_eq!(APICBase(0x1_2345_6900).address().0, 0x1_2345_6000);
    assert_eq!(APICBase(0xFEE0_0900).address().0, 0xFEE0_0000);
    assert_eq!(APICBase(0xFFF0_0000_0000_0FFF).address().0, 0);
}

#[test]
fn screen_formats_follow_the_layout() {
    assert_eq!(color_positions(PixelLayout::Rgb), (0, 1, 2));
    assert_eq!(color_positions(PixelLayout::Bgr), (2, 1, 0));
    assert_eq!(color_positions(PixelLayout::U8), (0, 0, 0));
    let unknown = PixelLayout::Unknown { red_position: 16, green_position: 8, blue_position: 0 };
    assert_eq!(color_positions(unknown), (16, 8, 0));
    let f = screen_format(PixelLayout::Bgr, 4, 1024);
    assert_eq!((f.bytes_per_pixel, f.stride), (4, 1024));
    assert_eq!((f.r_position, f.g_position, f.b_position), (2, 1, 0));
    assert!(f.a_position.is_none());
}
