use monos::monodoc::ast::{EmbedAnchor, MetaData};
use monos::monodoc::parse::parse_heading;
use monos::monos_gfx::input::{KeyState, MouseFlags, MouseState};
use monos::monos_kernel::acpi::rsdp::{wrapping_sum, RSDPError, RSDP};
use monos::monos_kernel::acpi::sdt::{find_table, ACPIRoot, SDTHeader};
use monos::monos_kernel::acpi::tables::hpet::HPET as HPETTable;
use monos::monos_kernel::acpi::tables::madt::{
    IOAPIC, InterruptSourceOverride, ProcessorLocalAPIC, MADT,
};
use monos::monos_kernel::interrupts::apic::io_apic::IOREDTblEntry;
use monos::monos_kernel::arch::registers::MSR;
use monos::monos_kernel::dev::hpet::{HPETCapabilities, HPETConfiguration, HPET};
use monos::monos_kernel::dev::keyboard::{handle_scancode, KeyDecoder, Modifiers, KEY_LALT, KEY_LSHIFT, KEY_RCONTROL};
use monos::monos_kernel::dev::mouse::Mouse;
use monos::monos_kernel::interrupts::apic::io_apic::{ioredtbl_register, DeliveryMode};
use monos::monos_kernel::dev::{device_entry, global_system_interrupt};
use monos::monos_kernel::interrupts::apic::local_apic::{
    spurious_vector_value, timer_lvt_value, LocalAPIC, LocalAPICField,
};
use monos::monos_kernel::interrupts::mem::VirtualAddress;
use monos::monos_gfx::framebuffer::{FramebufferRequest, FramebufferResponse};
use monos::monos_kernel::utils::{get_bits_u32, set_bit_u8, set_bits_u16, get_bit_u64};

fn checksummed(mut b: Vec<u8>, at: usize, len: usize) -> Vec<u8> {
    b[at] = 0;
    let sum = b[..len].iter().fold(0u8, |a, x| a.wrapping_add(*x));
    b[at] = 0u8.wrapping_sub(sum);
    b
}

fn rsdp_bytes(revision: u8) -> Vec<u8> {
    let mut b = vec![0u8; 36];
    b[..8].copy_from_slice(b"RSD PTR ");
    b[9..15].copy_from_slice(b"MONOS ");
    b[15] = revision;
    b[16..20].copy_from_slice(&0x1234_5678u32.to_le_bytes());
    b[20..24].copy_from_slice(&36u32.to_le_bytes());
    b[24..28].copy_from_slice(&0x9abc_def0u32.to_le_bytes());
    b[28..32].copy_from_slice(&0x1u32.to_le_bytes());
    b
}

#[test]
fn rsdp_accepts_a_valid_pointer() {
    let b = checksummed(rsdp_bytes(0), 8, 20);
    let r = RSDP::new(b).ok().unwrap();
    assert!(r.is_version_1());
    assert_eq!(r.revision(), 0);
    assert_eq!(r.rsdt_address().as_u64(), 0x1234_5678);
}

#[test]
fn rsdp_revision_two_uses_the_length() {
    let b = checksummed(rsdp_bytes(2), 8, 36);
    let r = RSDP::new(b).ok().unwrap();
    assert!(!r.is_version_1());
    assert_eq!(r.xsdt_address().as_u64(), 0x1_9abc_def0);
}

#[test]
fn rsdp_errors() {
    let mut bad_sig = checksummed(rsdp_bytes(0), 8, 20);
    bad_sig[0] = b'X';
    assert!(matches!(RSDP::new(bad_sig), Err(RSDPError::InvalidSignature)));
    let mut bad_oem = rsdp_bytes(0);
    bad_oem[9] = 0xFF;
    let bad_oem = checksummed(bad_oem, 8, 20);
    assert!(matches!(RSDP::new(bad_oem), Err(RSDPError::InvalidOEMId)));
    let mut bad_sum = checksummed(rsdp_bytes(0), 8, 20);
    bad_sum[8] = bad_sum[8].wrapping_add(1);
    assert!(matches!(RSDP::new(bad_sum), Err(RSDPError::InvalidChecksum)));
}

#[test]
fn wrapping_sum_wraps() {
    assert_eq!(wrapping_sum(&[200, 100, 7], 2), 44);
    assert_eq!(wrapping_sum(&[200, 100, 7], 3), 51);
    assert_eq!(wrapping_sum(&[1], 0), 0);
}

fn sdt(signature: &[u8; 4], len: usize) -> Vec<u8> {
    let mut b = vec![0u8; len];
    b[..4].copy_from_slice(signature);
    b[4..8].copy_from_slice(&(len as u32).to_le_bytes());
    b[10..16].copy_from_slice(b"MONOS ");
    b[16..24].copy_from_slice(b"TABLE   ");
    b
}

#[test]
fn sdt_header_validation() {
    let h = SDTHeader { bytes: checksummed(sdt(b"APIC", 40), 9, 40) };
    assert!(h.validate(b"APIC"));
    assert!(!h.validate(b"HPET"));
    assert_eq!(h.length(), 40);
    let mut broken = h.bytes.clone();
    broken[39] = broken[39].wrapping_add(1);
    assert!(!SDTHeader { bytes: broken }.validate(b"APIC"));
}

#[test]
fn hpet_table_address() {
    let mut b = sdt(b"HPET", 56);
    b[44..48].copy_from_slice(&0xFED0_0000u32.to_le_bytes());
    b[48..52].copy_from_slice(&2u32.to_le_bytes());
    let t = HPETTable { bytes: b };
    assert_eq!(t.base_address().as_u64(), 0x2_FED0_0000);
}

#[test]
fn madt_entries_by_kind() {
    let mut b = sdt(b"APIC", 44);
    // a processor, an I/O APIC, an override, then another processor
    b.extend_from_slice(&[0, 8, 1, 7, 1, 0, 0, 0]);
    b.extend_from_slice(&[1, 12, 3, 0, 0x00, 0x00, 0xC0, 0xFE, 0x10, 0, 0, 0]);
    b.extend_from_slice(&[2, 10, 0, 1, 2, 0, 0, 0, 5, 0]);
    b.extend_from_slice(&[0, 8, 2, 9, 1, 0, 0, 0]);
    let len = b.len() as u32;
    b[4..8].copy_from_slice(&len.to_le_bytes());
    let madt = MADT { bytes: b };
    assert_eq!(madt.iter_entries(), vec![44, 52, 64, 74]);
    let cpus: Vec<ProcessorLocalAPIC> = madt.get_entries();
    assert_eq!(cpus.len(), 2);
    assert_eq!((cpus[0].processor_uid(), cpus[0].apic_id()), (1, 7));
    assert_eq!((cpus[1].processor_uid(), cpus[1].apic_id()), (2, 9));
    let ioapics: Vec<IOAPIC> = madt.get_entries();
    assert_eq!(ioapics.len(), 1);
    assert_eq!(ioapics[0].ioapic_id, 3);
    assert_eq!(ioapics[0].ioapic_address, 0xFEC0_0000);
    assert_eq!(ioapics[0].global_system_interrupt_base, 0x10);
    let overrides: Vec<InterruptSourceOverride> = madt.get_entries();
    assert_eq!(overrides.len(), 1);
    assert_eq!(overrides[0].source(), 1);
    assert_eq!(overrides[0].global_system_interrupt(), 2);
}

#[test]
fn msr_join_split_round_trip() {
    let v = MSR::join(0x1234_5678, 0x9abc_def0);
    assert_eq!(v, 0x1234_5678_9abc_def0);
    assert_eq!(MSR::split(v), (0x1234_5678, 0x9abc_def0));
}

#[test]
fn mouse_decodes_a_packet() {
    let mut m = Mouse::new();
    // bit 3 missing: the byte is dropped
    assert_eq!(m.handle_packet(0b0000_0001), None);
    assert_eq!(m.packet_type, 0);
    // flags: left button, x negative
    assert_eq!(m.handle_packet(0b0001_1001), None);
    assert_eq!(m.handle_packet(0xF0), None);
    let s = m.handle_packet(5).unwrap();
    assert_eq!(s.x, -16);
    assert_eq!(s.y, 5);
    assert!(s.flags.left_button());
    assert_eq!(m.packet_type, 0);
}

#[test]
fn mouse_overflow_keeps_movement() {
    let mut m = Mouse::new();
    m.handle_packet(0b0100_1000);
    m.handle_packet(77);
    let s = m.handle_packet(3).unwrap();
    assert_eq!(s.x, 0);
    assert_eq!(s.y, 3);
}

#[test]
fn mouse_status_and_message() {
    assert_eq!(Mouse::configured_status(0b0010_0000), 0b0000_0010);
    let msg = Mouse::state_message(MouseState { x: -1, y: 2, scroll: 0, flags: MouseFlags(9) });
    assert_eq!(msg, (u64::MAX, 2, 9, 0));
}

#[test]
fn modifiers_follow_keys() {
    let mut m = Modifiers::new();
    m.update(KEY_LSHIFT, KeyState::Down);
    m.update(KEY_RCONTROL, KeyState::Down);
    assert!(m.shift && m.ctrl && !m.alt && !m.gui);
    m.update(KEY_LSHIFT, KeyState::Up);
    m.update(KEY_LALT, KeyState::SingleShot);
    assert!(!m.shift && m.ctrl && !m.alt);
    m.update(1, KeyState::Down);
    assert!(m.ctrl);
}

#[test]
fn hpet_frequency_and_time() {
    // period of 10^8 femtoseconds: a 10 MHz counter
    let caps = HPETCapabilities((100_000_000u64 << 32) | (3 << 8));
    assert_eq!(caps.period(), 100_000_000);
    assert_eq!(caps.num_timers(), 3);
    let mut conf = HPETConfiguration(0b10);
    let hpet = HPET::new(caps, &mut conf);
    assert_eq!(hpet.freq, 10_000_000);
    assert!(conf.enabled());
    assert!(conf.legacy_replacement());
    assert_eq!(hpet.boot_time_ms(25_000_000), 2500);
}

#[test]
fn apic_register_values() {
    assert_eq!(spurious_vector_value(0xFF), 0x1FF);
    assert_eq!(ioredtbl_register(0), 0x10);
    assert_eq!(ioredtbl_register(3), 0x16);
    let t = timer_lvt_value(0x20);
    assert_eq!(t & 0xFF, 0x20);
    let mut e = IOREDTblEntry(0);
    e.set_vector(0x21);
    e.set_delivery_mode(DeliveryMode::Fixed);
    e.set_masked(true);
    assert_eq!(e.0, (1 << 16) | 0x21);
}

#[test]
fn bit_helpers() {
    assert_eq!(get_bits_u32(0xABCD_1234, 8, 16), 0x12);
    assert_eq!(set_bit_u8(0, 7, true), 0x80);
    assert_eq!(set_bits_u16(0xFFFF, 4, 8, 0), 0xFF0F);
    assert!(get_bit_u64(1 << 63, 63));
}

#[test]
fn heading_parses() {
    let (rest, name) = parse_heading("=== intro ===\nbody").unwrap();
    assert_eq!(name, "intro");
    assert_eq!(rest, "\nbody");
    let (_, main) = parse_heading("===  ===").unwrap();
    assert_eq!(main, "main");
    assert!(parse_heading("== x ==").is_none());
    assert!(parse_heading("=== x ==").is_none());
}

#[test]
fn metadata_is_empty() {
    let (rest, meta) = MetaData::parse("text");
    assert_eq!(rest, "text");
    assert!(meta.name.is_none() && meta.icon.is_none() && meta.includes.is_empty());
}

#[test]
fn embed_anchor_words() {
    let (rest, a) = EmbedAnchor::parse("left]]").unwrap();
    assert_eq!(rest, "]]");
    assert_eq!(a, EmbedAnchor::Left);
    let (rest, a) = EmbedAnchor::parse("bottomx").unwrap();
    assert_eq!((rest, a), ("x", EmbedAnchor::Bottom));
    assert_eq!(EmbedAnchor::parse("fill").unwrap().1, EmbedAnchor::Fill);
    assert!(EmbedAnchor::parse("up").is_none());
    assert!(EmbedAnchor::parse("").is_none());
}

#[test]
fn acpi_root_lists_tables() {
    let mut b = sdt(b"RSDT", 44);
    b[36..40].copy_from_slice(&0x1000u32.to_le_bytes());
    b[40..44].copy_from_slice(&0x2000u32.to_le_bytes());
    let root = ACPIRoot::new(SDTHeader { bytes: checksummed(b, 9, 44) }, 0);
    assert_eq!(root.tables(), vec![0x1000, 0x2000]);
    let mut x = sdt(b"XSDT", 52);
    x[36..44].copy_from_slice(&0x1_0000_3000u64.to_le_bytes());
    x[44..52].copy_from_slice(&0x4000u64.to_le_bytes());
    let xroot = ACPIRoot::new(SDTHeader { bytes: checksummed(x, 9, 52) }, 2);
    assert_eq!(xroot.tables(), vec![0x1_0000_3000, 0x4000]);
    assert_eq!(&ACPIRoot::root_signature(0), b"RSDT");
    assert_eq!(&ACPIRoot::root_signature(2), b"XSDT");
}

#[test]
fn acpi_root_address_by_revision() {
    let v1 = RSDP::new(checksummed(rsdp_bytes(0), 8, 20)).ok().unwrap();
    assert_eq!(ACPIRoot::root_address(&v1).as_u64(), 0x1234_5678);
    let v2 = RSDP::new(checksummed(rsdp_bytes(2), 8, 36)).ok().unwrap();
    assert_eq!(ACPIRoot::root_address(&v2).as_u64(), 0x1_9abc_def0);
}

#[test]
fn find_table_takes_the_first_valid() {
    let bad = SDTHeader { bytes: sdt(b"APIC", 40) };
    let apic = SDTHeader { bytes: checksummed(sdt(b"APIC", 40), 9, 40) };
    let hpet = SDTHeader { bytes: checksummed(sdt(b"HPET", 56), 9, 56) };
    let tables = [bad, hpet, apic];
    assert_eq!(find_table(&tables, b"APIC"), Some(2));
    assert_eq!(find_table(&tables, b"HPET"), Some(1));
    assert_eq!(find_table(&tables, b"FACP"), None);
}

#[test]
fn interrupt_routing() {
    let overrides = vec![
        InterruptSourceOverride { bus: 0, source: 0, global_system_interrupt: 2, flags: 0 },
        InterruptSourceOverride { bus: 0, source: 12, global_system_interrupt: 20, flags: 0 },
        InterruptSourceOverride { bus: 0, source: 12, global_system_interrupt: 30, flags: 0 },
    ];
    assert_eq!(global_system_interrupt(&overrides, 12), 20);
    assert_eq!(global_system_interrupt(&overrides, 1), 1);
    let e = device_entry(IOREDTblEntry(u64::MAX), 0x21, 3);
    assert_eq!(e.0 & 0xFF, 0x21);
    assert_eq!((e.0 >> 8) & 0b111, 0);
    assert_eq!(e.0 & (1 << 11), 0);
    assert_eq!(e.0 & (1 << 13), 0);
    assert_eq!(e.0 & (1 << 15), 0);
    assert_eq!(e.0 & (1 << 16), 0);
    assert_eq!(e.0 >> 56, 3);
    assert_eq!(e.0 & (1 << 12), 1 << 12);
}

#[test]
fn local_apic_register_addresses() {
    let apic = LocalAPIC { base_address: VirtualAddress::new(0xFEE0_0000) };
    assert_eq!(apic.register_address(LocalAPICField::Id), 0xFEE0_0020);
    assert_eq!(apic.register_address(LocalAPICField::EOI), 0xFEE0_00B0);
    assert_eq!(apic.register_address(LocalAPICField::TimerDivideConfig), 0xFEE0_03E0);
}

#[test]
fn framebuffer_messages_round_trip() {
    for req in [FramebufferRequest::Open(0x4100_0000), FramebufferRequest::SubmitFrame(77)] {
        assert_eq!(FramebufferRequest::from_message(req.into_message()), Some(req));
    }
    assert_eq!(FramebufferRequest::Open(5).into_message(), (0, 0, 0, 5));
    assert_eq!(FramebufferRequest::SubmitFrame(5).into_message(), (1, 0, 0, 5));
    assert_eq!(FramebufferRequest::from_message((2, 0, 0, 5)), None);
    assert_eq!(FramebufferRequest::from_message((0, 1, 0, 5)), None);
    assert_eq!(FramebufferResponse::from_message(FramebufferResponse::OK.into_message()), Some(FramebufferResponse::OK));
    assert_eq!(FramebufferResponse::from_message((0, 0, 1, 0)), None);
}

#[test]
fn scancodes_follow_shift() {
    let mut kb = KeyDecoder::new();
    let mut m = Modifiers::new();
    let down = handle_scancode(&mut kb, &mut m, 0x2A).unwrap();
    assert_eq!(down.0, KEY_LSHIFT);
    assert_eq!(down.1, KeyState::Down);
    assert!(down.2.shift && m.shift);
    let up = handle_scancode(&mut kb, &mut m, 0xAA).unwrap();
    assert_eq!(up.1, KeyState::Up);
    assert!(!up.2.shift && !m.shift);
}

#[test]
fn extended_prefix_gives_no_event() {
    let mut kb = KeyDecoder::new();
    let mut m = Modifiers::new();
    m.update(KEY_LALT, KeyState::Down);
    let before = m;
    assert!(handle_scancode(&mut kb, &mut m, 0xE0).is_none());
    assert_eq!(m, before);
    // right control: the extended form of the control scancode
    let ev = handle_scancode(&mut kb, &mut m, 0x1D).unwrap();
    assert_eq!(ev.0, KEY_RCONTROL);
    assert!(m.ctrl && m.alt);
}

#[test]
fn plain_key_keeps_modifiers() {
    let mut kb = KeyDecoder::new();
    let mut m = Modifiers::new();
    let ev = handle_scancode(&mut kb, &mut m, 0x1E).unwrap();
    assert_eq!(ev.1, KeyState::Down);
    assert_ne!(ev.0, KEY_LSHIFT);
    assert_eq!(ev.2, Modifiers::new());
}
