use crate::monos_kernel::interrupts::mem::VirtualAddress;
use vstd::prelude::*;

verus! {

/// The size in bytes of the 64-bit task state segment.
pub const TSS_SIZE: u16 = 104;

/// The 64-bit task state segment.
#[derive(Clone, Copy)]
pub struct TaskStateSegment {
    pub reserved: u32,
    pub privilege_stack_table: [VirtualAddress; 3],
    pub reserved2: u64,
    pub interrupt_stack_table: [VirtualAddress; 7],
    pub reserved3: u64,
    pub reserved4: u16,
    pub iomap_base: u16,
}

impl TaskStateSegment {
    /// A segment with every stack pointer zero and the I/O map right after the segment.
    pub fn new() -> (r: TaskStateSegment)
        ensures
            forall|i: int| 0 <= i < 3 ==> (#[trigger] r.privilege_stack_table[i]).0 == 0,
            forall|i: int| 0 <= i < 7 ==> (#[trigger] r.interrupt_stack_table[i]).0 == 0,
            r.iomap_base == TSS_SIZE,
            r.reserved == 0 && r.reserved2 == 0 && r.reserved3 == 0 && r.reserved4 == 0,
    {
        let z = VirtualAddress::zero();
        TaskStateSegment {
            privilege_stack_table: [z, z, z],
            interrupt_stack_table: [z, z, z, z, z, z, z],
            iomap_base: TSS_SIZE,
            reserved: 0,
            reserved2: 0,
            reserved3: 0,
            reserved4: 0,
        }
    }

    /// Sets the stack the timer interrupt switches to (its interrupt stack table slot).
    pub fn set_kernel_stack(&mut self, stack: VirtualAddress)
        ensures
            final(self).interrupt_stack_table@ == old(self).interrupt_stack_table@.update(
                super::TIMER_IST_INDEX as int,
                stack,
            ),
            final(self).privilege_stack_table == old(self).privilege_stack_table,
            final(self).iomap_base == old(self).iomap_base,
    {
        self.interrupt_stack_table[super::TIMER_IST_INDEX as usize] = stack;
    }
}

} // verus!
