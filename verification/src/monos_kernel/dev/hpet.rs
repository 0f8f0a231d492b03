use crate::monos_kernel::utils::{
    get_bit_u64, get_bits_u64, set_bit_u64, spec_get_bit_u64, spec_get_bits_u64, spec_set_bit_u64,
};
use vstd::prelude::*;

verus! {

/// The capabilities register of the HPET: number of timers (bits 8..13), vendor (bits
/// 16..32) and the counter's period in femtoseconds (bits 32..64).
#[derive(Clone, Copy, PartialEq, Eq, Structural)]
pub struct HPETCapabilities(pub u64);

impl HPETCapabilities {
    pub fn num_timers(&self) -> (r: u32)
        ensures
            r == spec_get_bits_u64(self.0, 8, 13),
    {
        let x = self.0;
        let v = get_bits_u64(x, 8, 13);
        assert(spec_get_bits_u64(x, 8, 13) < 0x1_0000_0000) by (bit_vector);
        v as u32
    }

    pub fn vendor_id(&self) -> (r: u32)
        ensures
            r == spec_get_bits_u64(self.0, 16, 32),
    {
        let x = self.0;
        let v = get_bits_u64(x, 16, 32);
        assert(spec_get_bits_u64(x, 16, 32) < 0x1_0000_0000) by (bit_vector);
        v as u32
    }

    pub fn period(&self) -> (r: u64)
        ensures
            r == spec_get_bits_u64(self.0, 32, 64),
    {
        get_bits_u64(self.0, 32, 64)
    }
}

/// The general configuration register of the HPET: enabled (bit 0) and legacy
/// replacement routing (bit 1).
#[derive(Clone, Copy, PartialEq, Eq, Structural)]
pub struct HPETConfiguration(pub u64);

impl HPETConfiguration {
    pub fn set_enabled(&mut self, enabled: bool)
        ensures
            final(self).0 == spec_set_bit_u64(old(self).0, 0, enabled),
    {
        self.0 = set_bit_u64(self.0, 0, enabled);
    }

    pub fn enabled(&self) -> (r: bool)
        ensures
            r == spec_get_bit_u64(self.0, 0),
    {
        get_bit_u64(self.0, 0)
    }

    pub fn legacy_replacement(&self) -> (r: bool)
        ensures
            r == spec_get_bit_u64(self.0, 1),
    {
        get_bit_u64(self.0, 1)
    }
}

/// The general interrupt status register of the HPET.
#[derive(Clone, Copy, PartialEq, Eq, Structural)]
pub struct HPETInterruptStatus(pub u64);

/// Femtoseconds per second.
pub const FEMTOS_PER_SECOND: u64 = 1_000_000_000_000_000;

/// The high precision event timer, by the frequency of its counter.
pub struct HPET {
    pub freq: u64,
}

impl HPET {
    /// Sets up the timer described by its registers: its frequency comes from the
    /// counter's period, and it is switched on.
    pub fn new(capabilities: HPETCapabilities, configuration: &mut HPETConfiguration) -> (r: HPET)
        requires
            spec_get_bits_u64(capabilities.0, 32, 64) != 0,
        ensures
            r.freq == FEMTOS_PER_SECOND / spec_get_bits_u64(capabilities.0, 32, 64),
            final(configuration).0 == spec_set_bit_u64(old(configuration).0, 0, true),
    {
        let freq = FEMTOS_PER_SECOND / capabilities.period();
        configuration.set_enabled(true);
        HPET { freq }
    }

    /// The time since boot in milliseconds, from the value of the main counter.
    pub fn boot_time_ms(&self, counter: u64) -> (r: u64)
        requires
            self.freq != 0,
            counter * 1000 <= u64::MAX,
        ensures
            r == counter * 1000 / self.freq as int,
    {
        counter * 1000 / self.freq
    }
}

} // verus!
