use crate::monos_kernel::fs::bytes::{le32, read_le32};
use crate::monos_kernel::interrupts::mem::PhysicalAddress;
use vstd::prelude::*;

verus! {

/// The HPET description table, by its bytes: the table header (0..36), hardware revision
/// (36), comparators (37), PCI vendor (38..40), the address structure (40..52, the address
/// itself at 44..52), HPET number (52), minimum tick (53..55) and page protection (55).
pub struct HPET {
    pub bytes: Vec<u8>,
}

/// The size of the HPET table.
pub const HPET_TABLE_SIZE: usize = 56;

impl HPET {
    /// The physical address of the timer's registers.
    pub fn base_address(&self) -> (r: PhysicalAddress)
        requires
            self.bytes@.len() >= HPET_TABLE_SIZE,
        ensures
            r.0 == le32(self.bytes@, 44) + le32(self.bytes@, 48) * 0x1_0000_0000,
    {
        let lo = read_le32(self.bytes.as_slice(), 44) as u64;
        let hi = read_le32(self.bytes.as_slice(), 48) as u64;
        assert(hi * 0x1_0000_0000 + lo <= u64::MAX) by (nonlinear_arith)
            requires
                hi <= u32::MAX,
                lo <= u32::MAX,
        ;
        PhysicalAddress::new(hi * 0x1_0000_0000 + lo)
    }
}

} // verus!
