pub mod gdt;
pub mod tss;

pub use gdt::{GlobalDescriptorTable, SegmentDescriptor};
pub use tss::TaskStateSegment;

use crate::monos_kernel::utils::{
    get_bit_u16, get_bits_u16, set_bits_u16, spec_get_bit_u16, spec_get_bits_u16,
    spec_set_bits_u16, lemma_low_masks_u16,
};
use vstd::prelude::*;

verus! {

pub const DOUBLE_FAULT_IST_INDEX: u16 = 0;

pub const TIMER_IST_INDEX: u16 = 1;

pub const SYSCALL_TEMP_INDEX: u16 = 2;

/// The model-specific register that holds the kernel's `gs` base.
pub const KERNEL_GS_BASE: u32 = 0xC000_0102;

/// The CPU privilege rings.
#[derive(Debug, Clone, Copy, PartialEq, Eq, Structural)]
pub enum PrivilegeLevel {
    Ring0,
    Ring1,
    Ring2,
    Ring3,
}

impl PrivilegeLevel {
    /// The ring's number.
    pub open spec fn spec_value(self) -> u16 {
        match self {
            PrivilegeLevel::Ring0 => 0,
            PrivilegeLevel::Ring1 => 1,
            PrivilegeLevel::Ring2 => 2,
            PrivilegeLevel::Ring3 => 3,
        }
    }

    pub fn as_u16(&self) -> (r: u16)
        ensures
            r == self.spec_value(),
    {
        match self {
            PrivilegeLevel::Ring0 => 0,
            PrivilegeLevel::Ring1 => 1,
            PrivilegeLevel::Ring2 => 2,
            PrivilegeLevel::Ring3 => 3,
        }
    }

    /// The ring with the given number (there are four).
    pub fn from_u16(value: u16) -> (r: PrivilegeLevel)
        requires
            value <= 3,
        ensures
            r.spec_value() == value,
    {
        match value {
            0 => PrivilegeLevel::Ring0,
            1 => PrivilegeLevel::Ring1,
            2 => PrivilegeLevel::Ring2,
            _ => PrivilegeLevel::Ring3,
        }
    }
}

///   Segment Selector
/// ┌──┬───────────────┐
/// │ 0│   Privilege   │
/// │ 1│     Level     │
/// ├──┼───────────────┤
/// │ 2│    GDT/LDT    │
/// ├──┼───────────────┤
/// │ 3│               │
/// │ .│     Index     │
/// │15│               │
/// └──┴───────────────┘
#[derive(Debug, Clone, Copy, PartialEq, Eq, Structural)]
pub struct SegmentSelector(pub u16);

/// Selector bits for a descriptor index and a requested privilege level.
pub open spec fn selector_bits(index: u16, privilege_level: u16) -> u16 {
    ((index << 3u16) | privilege_level) as u16
}

pub proof fn lemma_selector_bits(index: u16, pl: u16)
    by (bit_vector)
    requires
        index < 8192,
        pl < 4,
    ensures
        spec_set_bits_u16(spec_set_bits_u16(0, 0, 2, pl), 3, 16, index) == selector_bits(
            index,
            pl,
        ),
        spec_get_bits_u16(selector_bits(index, pl), 3, 16) == index,
        spec_get_bits_u16(selector_bits(index, pl), 0, 2) == pl,
        !spec_get_bit_u16(selector_bits(index, pl), 2),
{
}

pub proof fn lemma_two_bits_le_3(v: u16)
    by (bit_vector)
    ensures
        spec_get_bits_u16(v, 0, 2) <= 3,
{
}

impl SegmentSelector {
    pub fn new(index: u16, privilege_level: PrivilegeLevel) -> (r: SegmentSelector)
        requires
            index < 8192,
        ensures
            r.0 == selector_bits(index, privilege_level.spec_value()),
    {
        proof {
            lemma_low_masks_u16();
        }
        let selector = set_bits_u16(0, 0, 2, privilege_level.as_u16());
        let selector = set_bits_u16(selector, 3, 16, index);
        proof {
            lemma_selector_bits(index, privilege_level.spec_value());
        }
        SegmentSelector(selector)
    }

    pub fn as_u16(&self) -> (r: u16)
        ensures
            r == self.0,
    {
        self.0
    }

    /// short hand for `SegmentSelector::new(0, PrivilegeLevel::Ring0)`
    pub fn zero() -> (r: SegmentSelector)
        ensures
            r.0 == 0,
    {
        SegmentSelector(0)
    }

    pub fn privilege_level(&self) -> (r: PrivilegeLevel)
        ensures
            r.spec_value() == spec_get_bits_u16(self.0, 0, 2),
    {
        proof {
            lemma_two_bits_le_3(self.0);
        }
        PrivilegeLevel::from_u16(get_bits_u16(self.0, 0, 2))
    }

    pub fn is_ldt(&self) -> (r: bool)
        ensures
            r == spec_get_bit_u16(self.0, 2),
    {
        get_bit_u16(self.0, 2)
    }

    pub fn index(&self) -> (r: u16)
        ensures
            r == spec_get_bits_u16(self.0, 3, 16),
    {
        get_bits_u16(self.0, 3, 16)
    }
}

/// A selector built from an index and a privilege level gives both back, and refers to
/// the global (not the local) descriptor table.
pub proof fn lemma_selector_round_trip(index: u16, privilege_level: PrivilegeLevel)
    requires
        index < 8192,
    ensures
        spec_get_bits_u16(selector_bits(index, privilege_level.spec_value()), 3, 16) == index,
        spec_get_bits_u16(selector_bits(index, privilege_level.spec_value()), 0, 2)
            == privilege_level.spec_value(),
        !spec_get_bit_u16(selector_bits(index, privilege_level.spec_value()), 2),
{
    lemma_selector_bits(index, privilege_level.spec_value());
}

/// The selectors of the segments the kernel installs.
#[derive(Debug, Clone, Copy)]
pub struct Segments {
    pub code: SegmentSelector,
    pub data: SegmentSelector,
    pub tss: SegmentSelector,
    pub user_data: SegmentSelector,
    pub user_code: SegmentSelector,
}

} // verus!
