pub mod apic;
pub mod handlers;
pub mod idt;
pub mod mem;

use crate::monos_kernel::gdt::SegmentSelector;
use mem::VirtualAddress;
use vstd::prelude::*;

verus! {

/// What the CPU pushes on the stack when it takes an interrupt (and pops on `iretq`).
#[derive(Clone, Copy)]
pub struct InterruptStackFrame {
    pub instruction_pointer: VirtualAddress,
    pub code_segment: SegmentSelector,
    pub padding1: [u8; 6],
    pub cpu_flags: u64,
    pub stack_pointer: VirtualAddress,
    pub stack_segment: SegmentSelector,
    pub padding2: [u8; 6],
}

impl InterruptStackFrame {
    pub fn new(
        instruction_pointer: VirtualAddress,
        code_segment: SegmentSelector,
        cpu_flags: u64,
        stack_pointer: VirtualAddress,
        stack_segment: SegmentSelector,
    ) -> (r: InterruptStackFrame)
        ensures
            r.instruction_pointer == instruction_pointer,
            r.code_segment == code_segment,
            r.cpu_flags == cpu_flags,
            r.stack_pointer == stack_pointer,
            r.stack_segment == stack_segment,
            r.padding1@ == seq![0u8, 0, 0, 0, 0, 0],
            r.padding2@ == seq![0u8, 0, 0, 0, 0, 0],
    {
        InterruptStackFrame {
            instruction_pointer,
            code_segment,
            padding1: [0, 0, 0, 0, 0, 0],
            cpu_flags,
            stack_pointer,
            stack_segment,
            padding2: [0, 0, 0, 0, 0, 0],
        }
    }
}

} // verus!
