pub mod io_apic;
pub mod local_apic;

use crate::monos_kernel::interrupts::mem::PhysicalAddress;
use crate::monos_kernel::utils::{get_bit_u64, set_bit_u64, spec_get_bit_u64, spec_set_bit_u64};
use vstd::prelude::*;

verus! {

/// The model-specific register that holds the APIC base.
pub const IA32_APIC_BASE_MSR: u32 = 0x1B;
/// Bit 8: this is the bootstrap processor.
pub const APIC_BOOTSTRAP_CPU: u64 = 8;
/// Bit 10: x2APIC mode is on.
pub const APIC_X2APIC_MODE: u64 = 10;
/// Bit 11: the APIC is enabled.
pub const APIC_ENABLE: u64 = 11;

/// The value of the APIC base register.
#[derive(Clone, Copy, PartialEq, Eq, Structural)]
pub struct APICBase(pub u64);

impl APICBase {
    pub fn is_bootstrap_cpu(&self) -> (r: bool)
        ensures
            r == spec_get_bit_u64(self.0, APIC_BOOTSTRAP_CPU),
    {
        get_bit_u64(self.0, APIC_BOOTSTRAP_CPU)
    }

    pub fn x2apic_mode(&self) -> (r: bool)
        ensures
            r == spec_get_bit_u64(self.0, APIC_X2APIC_MODE),
    {
        get_bit_u64(self.0, APIC_X2APIC_MODE)
    }

    pub fn set_x2apic_mode(&mut self, value: bool) -> (r: &mut Self)
        ensures
            r.0 == spec_set_bit_u64(old(self).0, APIC_X2APIC_MODE, value),
            *final(self) == *final(r),
    {
        self.0 = set_bit_u64(self.0, APIC_X2APIC_MODE, value);
        self
    }

    pub fn apic_enabled(&self) -> (r: bool)
        ensures
            r == spec_get_bit_u64(self.0, APIC_ENABLE),
    {
        get_bit_u64(self.0, APIC_ENABLE)
    }

    pub fn set_apic_enabled(&mut self, value: bool) -> (r: &mut Self)
        ensures
            r.0 == spec_set_bit_u64(old(self).0, APIC_ENABLE, value),
            *final(self) == *final(r),
    {
        self.0 = set_bit_u64(self.0, APIC_ENABLE, value);
        self
    }

    /// The physical address of the APIC's registers: bits 12..52 of the register, with the
    /// flag bits below and the reserved bits above cleared.
    pub fn address(&self) -> (r: PhysicalAddress)
        ensures
            r.0 == self.0 & 0x000F_FFFF_FFFF_F000,
    {
        PhysicalAddress::new(self.0 & 0x000F_FFFF_FFFF_F000)
    }
}

} // verus!
