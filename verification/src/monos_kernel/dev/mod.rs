pub mod hpet;
pub mod keyboard;
pub mod mouse;

use crate::monos_kernel::acpi::tables::madt::InterruptSourceOverride;
use crate::monos_kernel::interrupts::apic::io_apic::{
    DeliveryMode, IOREDTblEntry, REDTBL_DELIVERY_END, REDTBL_DELIVERY_START,
    REDTBL_DESTINATION_END, REDTBL_DESTINATION_MODE, REDTBL_DESTINATION_START, REDTBL_MASK,
    REDTBL_PIN_POLARITY, REDTBL_TRIGGER_MODE, REDTBL_VECTOR_END, REDTBL_VECTOR_START,
};
use crate::monos_kernel::utils::{spec_set_bit_u64, spec_set_bits_u64};
use vstd::prelude::*;

verus! {

/// The legacy IRQ of the keyboard, and of the mouse.
pub const KEYBOARD_IRQ: u8 = 1;
pub const MOUSE_IRQ: u8 = 12;

/// The global system interrupt a legacy IRQ arrives on: that of the first override of
/// the IRQ, or the IRQ's own number if none overrides it.
pub open spec fn spec_gsi(overrides: Seq<InterruptSourceOverride>, irq: u8) -> u32
    decreases overrides.len(),
{
    if overrides.len() == 0 {
        irq as u32
    } else if overrides[0].source == irq {
        overrides[0].global_system_interrupt
    } else {
        spec_gsi(overrides.drop_first(), irq)
    }
}

/// Finds the global system interrupt a legacy IRQ arrives on.
pub fn global_system_interrupt(overrides: &[InterruptSourceOverride], irq: u8) -> (r: u32)
    ensures
        r == spec_gsi(overrides@, irq),
{
    let mut i: usize = 0;
    assert(overrides@.skip(0) =~= overrides@);
    while i < overrides.len()
        invariant
            i <= overrides@.len(),
            spec_gsi(overrides@, irq) == spec_gsi(overrides@.skip(i as int), irq),
        decreases overrides@.len() - i,
    {
        assert(overrides@.skip(i as int).drop_first() =~= overrides@.skip(i + 1));
        if overrides[i].source == irq {
            return overrides[i].global_system_interrupt;
        }
        i = i + 1;
    }
    irq as u32
}

/// The redirection entry of a device interrupt: `vector`, fixed delivery to the APIC
/// `destination` in physical mode, active high, edge triggered, not masked; other bits as
/// in `entry`.
pub open spec fn spec_device_entry(entry: u64, vector: u8, destination: u8) -> u64 {
    let e = spec_set_bits_u64(entry, REDTBL_VECTOR_START, REDTBL_VECTOR_END, vector as u64);
    let e = spec_set_bits_u64(e, REDTBL_DELIVERY_START, REDTBL_DELIVERY_END, DeliveryMode::Fixed.bits());
    let e = spec_set_bit_u64(e, REDTBL_DESTINATION_MODE, false);
    let e = spec_set_bit_u64(e, REDTBL_PIN_POLARITY, false);
    let e = spec_set_bit_u64(e, REDTBL_TRIGGER_MODE, false);
    let e = spec_set_bit_u64(e, REDTBL_MASK, false);
    spec_set_bits_u64(e, REDTBL_DESTINATION_START, REDTBL_DESTINATION_END, destination as u64)
}

/// Sets a redirection entry up for a device interrupt, as the keyboard and the mouse are.
pub fn device_entry(entry: IOREDTblEntry, vector: u8, destination: u8) -> (r: IOREDTblEntry)
    ensures
        r.0 == spec_device_entry(entry.0, vector, destination),
{
    let mut e = entry;
    e.set_vector(vector);
    e.set_delivery_mode(DeliveryMode::Fixed);
    e.set_destination_mode(false);
    e.set_pin_polarity(false);
    e.set_trigger_mode(false);
    e.set_masked(false);
    e.set_destination(destination);
    e
}

} // verus!
