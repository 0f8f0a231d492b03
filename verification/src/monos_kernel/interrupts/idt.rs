use crate::monos_kernel::gdt::SegmentSelector;
use crate::monos_kernel::interrupts::mem::VirtualAddress;
use crate::monos_kernel::utils::{set_bit_u16, set_bits_u16, spec_set_bit_u16, spec_set_bits_u16};
use vstd::prelude::*;

verus! {

/// Bits 13..15 of the options: the descriptor privilege level.
pub const IDT_DPL_START: u16 = 13;
pub const IDT_DPL_END: u16 = 15;
/// Bit 8: set for an interrupt gate, cleared for a trap gate.
pub const IDT_INTERRUPT_TRAP: u16 = 8;
/// Bit 15: the entry is present.
pub const IDT_PRESENT: u16 = 15;
/// Bits 9..12 are always set.
pub const IDT_OPTIONS_EMPTY: u16 = 0b1110_0000_0000;

/// The option bits of an interrupt descriptor: stack index (bits 0..3), gate type (bit
/// 8), the always-set bits 9..12, privilege level (bits 13..15) and present (bit 15).
#[derive(Clone, Copy, PartialEq, Eq, Structural)]
pub struct IDTEntryOptions(pub u16);

impl IDTEntryOptions {
    /// Present, with interrupts left on (a trap gate).
    pub fn new() -> (r: IDTEntryOptions)
        ensures
            r.0 == spec_set_bit_u16(
                spec_set_bit_u16(IDT_OPTIONS_EMPTY, IDT_PRESENT, true),
                IDT_INTERRUPT_TRAP,
                false,
            ),
    {
        let mut options = IDTEntryOptions::new_empty();
        options.set_present(true);
        options.set_interrupts(false);
        options
    }

    /// Not present, all option bits cleared but the always-set ones.
    pub fn new_empty() -> (r: IDTEntryOptions)
        ensures
            r.0 == IDT_OPTIONS_EMPTY,
    {
        IDTEntryOptions(IDT_OPTIONS_EMPTY)
    }

    pub fn set_privilege_level(&mut self, dpl: u16) -> (r: &mut Self)
        requires
            dpl <= 3,
        ensures
            r.0 == spec_set_bits_u16(old(self).0, IDT_DPL_START, IDT_DPL_END, dpl),
            *final(self) == *final(r),
    {
        proof {
            crate::monos_kernel::utils::lemma_low_masks_u16();
        }
        self.0 = set_bits_u16(self.0, IDT_DPL_START, IDT_DPL_END, dpl);
        self
    }

    pub fn set_interrupts(&mut self, enable: bool) -> (r: &mut Self)
        ensures
            r.0 == spec_set_bit_u16(old(self).0, IDT_INTERRUPT_TRAP, enable),
            *final(self) == *final(r),
    {
        self.0 = set_bit_u16(self.0, IDT_INTERRUPT_TRAP, enable);
        self
    }

    pub fn set_present(&mut self, present: bool) -> (r: &mut Self)
        ensures
            r.0 == spec_set_bit_u16(old(self).0, IDT_PRESENT, present),
            *final(self) == *final(r),
    {
        self.0 = set_bit_u16(self.0, IDT_PRESENT, present);
        self
    }
}

/// One gate of the interrupt descriptor table: the handler's address split in three, the
/// code segment to run it in, and its options.
#[derive(Clone, Copy)]
pub struct IDTEntry {
    pub pointer_lower: u16,
    pub gdt_selector: SegmentSelector,
    pub options: IDTEntryOptions,
    pub pointer_middle: u16,
    pub pointer_upper: u32,
    pub reserved: u32,
}

impl IDTEntry {
    /// The handler address an entry points to.
    pub open spec fn handler_address(&self) -> int {
        self.pointer_lower + self.pointer_middle * 0x1_0000 + self.pointer_upper * 0x1_0000_0000
    }

    /// A present gate to the handler at `handler`, run in the code segment `selector`.
    pub fn new(handler: VirtualAddress, selector: SegmentSelector) -> (r: IDTEntry)
        ensures
            r.handler_address() == handler.0,
            r.gdt_selector == selector,
            r.options == IDTEntryOptions::new_spec(),
            r.reserved == 0,
    {
        let handler_address = handler.as_u64();
        let lower = handler_address as u16;
        let middle = (handler_address >> 16) as u16;
        let upper = (handler_address >> 32) as u32;
        assert(lower + middle * 0x1_0000 + upper * 0x1_0000_0000 == handler_address) by (bit_vector)
            requires
                lower == handler_address as u16,
                middle == (handler_address >> 16) as u16,
                upper == (handler_address >> 32) as u32,
        ;
        IDTEntry {
            gdt_selector: selector,
            options: IDTEntryOptions::new(),
            pointer_lower: lower,
            pointer_middle: middle,
            pointer_upper: upper,
            reserved: 0,
        }
    }

    /// An entry that is not present and points nowhere.
    pub fn new_empty() -> (r: IDTEntry)
        ensures
            r.handler_address() == 0,
            r.gdt_selector.0 == 0,
            r.options.0 == IDT_OPTIONS_EMPTY,
            r.reserved == 0,
    {
        IDTEntry {
            gdt_selector: SegmentSelector::zero(),
            options: IDTEntryOptions::new_empty(),
            pointer_lower: 0,
            pointer_middle: 0,
            pointer_upper: 0,
            reserved: 0,
        }
    }
}

impl IDTEntryOptions {
    /// The options of a new gate.
    pub open spec fn new_spec() -> IDTEntryOptions {
        IDTEntryOptions(
            spec_set_bit_u16(
                spec_set_bit_u16(IDT_OPTIONS_EMPTY, IDT_PRESENT, true),
                IDT_INTERRUPT_TRAP,
                false,
            ),
        )
    }
}

/// The interrupt descriptor table: one gate for each of the CPU's exceptions (the
/// reserved slots included).
#[derive(Clone, Copy)]
pub struct InterruptDescriptorTable {
    pub division_error: IDTEntry,
    pub debug: IDTEntry,
    pub non_maskable_interrupt: IDTEntry,
    pub breakpoint: IDTEntry,
    pub overflow: IDTEntry,
    pub bound_range_exceeded: IDTEntry,
    pub invalid_opcode: IDTEntry,
    pub device_not_available: IDTEntry,
    pub double_fault: IDTEntry,
    pub coprocessor_segment_overrun: IDTEntry,
    pub invalid_tss: IDTEntry,
    pub segment_not_present: IDTEntry,
    pub stack_segment_fault: IDTEntry,
    pub general_protection_fault: IDTEntry,
    pub page_fault: IDTEntry,
    pub reserved: IDTEntry,
    pub x87_floating_point: IDTEntry,
    pub alignment_check: IDTEntry,
    pub machine_check: IDTEntry,
    pub simd_floating_point: IDTEntry,
    pub virtualization_exception: IDTEntry,
    pub control_protection_exception: IDTEntry,
    pub reserved2: [IDTEntry; 6],
    pub hypervisor_injection_exception: IDTEntry,
    pub vmm_communication_exception: IDTEntry,
    pub security_exception: IDTEntry,
    pub reserved3: IDTEntry,
}

/// An entry as `new_empty` makes it.
pub open spec fn is_empty_entry(e: IDTEntry) -> bool {
    e.handler_address() == 0 && e.gdt_selector.0 == 0 && e.options.0 == IDT_OPTIONS_EMPTY
        && e.reserved == 0
}

impl InterruptDescriptorTable {
    /// All entries of the table.
    pub open spec fn entries(&self) -> Seq<IDTEntry> {
        seq![
            self.division_error,
            self.debug,
            self.non_maskable_interrupt,
            self.breakpoint,
            self.overflow,
            self.bound_range_exceeded,
            self.invalid_opcode,
            self.device_not_available,
            self.double_fault,
            self.coprocessor_segment_overrun,
            self.invalid_tss,
            self.segment_not_present,
            self.stack_segment_fault,
            self.general_protection_fault,
            self.page_fault,
            self.reserved,
            self.x87_floating_point,
            self.alignment_check,
            self.machine_check,
            self.simd_floating_point,
            self.virtualization_exception,
            self.control_protection_exception,
        ] + self.reserved2@ + seq![
            self.hypervisor_injection_exception,
            self.vmm_communication_exception,
            self.security_exception,
            self.reserved3,
        ]
    }

    /// A table of 32 empty entries.
    pub fn new() -> (r: InterruptDescriptorTable)
        ensures
            r.entries().len() == 32,
            forall|i: int| 0 <= i < 32 ==> is_empty_entry(#[trigger] r.entries()[i]),
    {
        let e = IDTEntry::new_empty();
        let t = InterruptDescriptorTable {
            division_error: e,
            debug: e,
            non_maskable_interrupt: e,
            breakpoint: e,
            overflow: e,
            bound_range_exceeded: e,
            invalid_opcode: e,
            device_not_available: e,
            double_fault: e,
            coprocessor_segment_overrun: e,
            invalid_tss: e,
            segment_not_present: e,
            stack_segment_fault: e,
            general_protection_fault: e,
            page_fault: e,
            reserved: e,
            x87_floating_point: e,
            alignment_check: e,
            machine_check: e,
            simd_floating_point: e,
            virtualization_exception: e,
            control_protection_exception: e,
            reserved2: [e, e, e, e, e, e],
            hypervisor_injection_exception: e,
            vmm_communication_exception: e,
            security_exception: e,
            reserved3: e,
        };
        assert(t.entries().len() == 32);
        assert forall|i: int| 0 <= i < 32 implies is_empty_entry(#[trigger] t.entries()[i]) by {
            if 22 <= i < 28 {
                assert(t.entries()[i] == t.reserved2@[i - 22]);
            }
        }
        t
    }
}

} // verus!
