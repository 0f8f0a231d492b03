use crate::monos_kernel::utils::{
    lemma_low_masks_u64, set_bit_u64, set_bits_u64, spec_set_bit_u64, spec_set_bits_u64,
};
use vstd::prelude::*;

verus! {

/// How an I/O APIC delivers an interrupt.
#[derive(Clone, Copy, PartialEq, Eq, Structural)]
pub enum DeliveryMode {
    Fixed,
    LowPriority,
    SMI,
    NMI,
    INIT,
    ExtINT,
}

impl DeliveryMode {
    /// The three bits each mode is encoded as.
    pub open spec fn bits(self) -> u64 {
        match self {
            DeliveryMode::Fixed => 0b000,
            DeliveryMode::LowPriority => 0b001,
            DeliveryMode::SMI => 0b010,
            DeliveryMode::NMI => 0b100,
            DeliveryMode::INIT => 0b101,
            DeliveryMode::ExtINT => 0b111,
        }
    }

    pub fn as_u64(self) -> (r: u64)
        ensures
            r == self.bits(),
    {
        match self {
            DeliveryMode::Fixed => 0b000,
            DeliveryMode::LowPriority => 0b001,
            DeliveryMode::SMI => 0b010,
            DeliveryMode::NMI => 0b100,
            DeliveryMode::INIT => 0b101,
            DeliveryMode::ExtINT => 0b111,
        }
    }
}

/// Bits 0..8: the interrupt vector.
pub const REDTBL_VECTOR_START: u64 = 0;
pub const REDTBL_VECTOR_END: u64 = 8;
/// Bits 8..11: the delivery mode.
pub const REDTBL_DELIVERY_START: u64 = 8;
pub const REDTBL_DELIVERY_END: u64 = 11;
/// Bit 11: logical (set) or physical (cleared) destination.
pub const REDTBL_DESTINATION_MODE: u64 = 11;
/// Bit 13: active low (set) or active high (cleared).
pub const REDTBL_PIN_POLARITY: u64 = 13;
/// Bit 15: level (set) or edge (cleared) triggered.
pub const REDTBL_TRIGGER_MODE: u64 = 15;
/// Bit 16: masked.
pub const REDTBL_MASK: u64 = 16;
/// Bits 56..64: the destination.
pub const REDTBL_DESTINATION_START: u64 = 56;
pub const REDTBL_DESTINATION_END: u64 = 64;

/// An entry of the I/O APIC's redirection table.
#[derive(Clone, Copy, PartialEq, Eq, Structural)]
pub struct IOREDTblEntry(pub u64);

impl IOREDTblEntry {
    pub fn set_vector(&mut self, vector: u8)
        ensures
            final(self).0 == spec_set_bits_u64(
                old(self).0,
                REDTBL_VECTOR_START,
                REDTBL_VECTOR_END,
                vector as u64,
            ),
    {
        proof {
            lemma_low_masks_u64();
        }
        self.0 = set_bits_u64(self.0, REDTBL_VECTOR_START, REDTBL_VECTOR_END, vector as u64);
    }

    pub fn set_delivery_mode(&mut self, mode: DeliveryMode)
        ensures
            final(self).0 == spec_set_bits_u64(
                old(self).0,
                REDTBL_DELIVERY_START,
                REDTBL_DELIVERY_END,
                mode.bits(),
            ),
    {
        proof {
            lemma_low_masks_u64();
        }
        self.0 = set_bits_u64(self.0, REDTBL_DELIVERY_START, REDTBL_DELIVERY_END, mode.as_u64());
    }

    /// `false` = physical, `true` = logical.
    pub fn set_destination_mode(&mut self, mode: bool)
        ensures
            final(self).0 == spec_set_bit_u64(old(self).0, REDTBL_DESTINATION_MODE, mode),
    {
        self.0 = set_bit_u64(self.0, REDTBL_DESTINATION_MODE, mode);
    }

    /// `false` = active high, `true` = active low.
    pub fn set_pin_polarity(&mut self, polarity: bool)
        ensures
            final(self).0 == spec_set_bit_u64(old(self).0, REDTBL_PIN_POLARITY, polarity),
    {
        self.0 = set_bit_u64(self.0, REDTBL_PIN_POLARITY, polarity);
    }

    /// `false` = edge, `true` = level.
    pub fn set_trigger_mode(&mut self, mode: bool)
        ensures
            final(self).0 == spec_set_bit_u64(old(self).0, REDTBL_TRIGGER_MODE, mode),
    {
        self.0 = set_bit_u64(self.0, REDTBL_TRIGGER_MODE, mode);
    }

    pub fn set_masked(&mut self, mask: bool)
        ensures
            final(self).0 == spec_set_bit_u64(old(self).0, REDTBL_MASK, mask),
    {
        self.0 = set_bit_u64(self.0, REDTBL_MASK, mask);
    }

    pub fn set_destination(&mut self, destination: u8)
        ensures
            final(self).0 == spec_set_bits_u64(
                old(self).0,
                REDTBL_DESTINATION_START,
                REDTBL_DESTINATION_END,
                destination as u64,
            ),
    {
        proof {
            lemma_low_masks_u64();
        }
        self.0 = set_bits_u64(
            self.0,
            REDTBL_DESTINATION_START,
            REDTBL_DESTINATION_END,
            destination as u64,
        );
    }
}

/// The register index of the lower half of redirection entry `index` (each entry takes
/// two 32-bit registers, starting at 0x10).
pub fn ioredtbl_register(index: u8) -> (r: u32)
    ensures
        r == 0x10 + index * 2,
{
    0x10 + index as u32 * 2
}

} // verus!
