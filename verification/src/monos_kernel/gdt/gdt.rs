use super::{selector_bits, PrivilegeLevel, SegmentSelector};
use crate::monos_kernel::gdt::tss::TSS_SIZE;
use crate::monos_kernel::interrupts::mem::VirtualAddress;
use crate::monos_kernel::utils::{
    get_bits_u64, set_bit_u64, set_bits_u64, spec_get_bits_u64, spec_set_bit_u64,
    spec_set_bits_u64, lemma_low_masks_u64,
};
use vstd::prelude::*;

verus! {

/// One 8-byte slot of the global descriptor table.
#[derive(Debug, Clone, Copy, PartialEq, Eq, Structural)]
pub struct GDTEntry(pub u64);

impl GDTEntry {
    pub fn new(value: u64) -> (r: GDTEntry)
        ensures
            r.0 == value,
    {
        GDTEntry(value)
    }

    pub fn null() -> (r: GDTEntry)
        ensures
            r.0 == 0,
    {
        GDTEntry(0)
    }
}

/// The number of slots in the kernel's descriptor table.
pub const GDT_SLOTS: usize = 8;

/// The global descriptor table: eight slots, filled from slot 1 on (slot 0 stays null).
#[derive(Debug, Clone)]
pub struct GlobalDescriptorTable {
    pub descriptors: [GDTEntry; 8],
    pub index: usize,
}

impl GlobalDescriptorTable {
    /// The raw descriptor values.
    pub open spec fn entries(self) -> Seq<u64> {
        self.descriptors@.map_values(|e: GDTEntry| e.0)
    }

    pub fn new() -> (r: GlobalDescriptorTable)
        ensures
            r.index == 1,
            r.entries() == Seq::new(8, |i: int| 0u64),
    {
        let n = GDTEntry::null();
        let r = GlobalDescriptorTable { descriptors: [n, n, n, n, n, n, n, n], index: 1 };
        assert(r.entries() =~= Seq::new(8, |i: int| 0u64));
        r
    }

    /// How many slots a descriptor takes.
    pub open spec fn slots(descriptor: SegmentDescriptor) -> int {
        match descriptor {
            SegmentDescriptor::User(_) => 1,
            SegmentDescriptor::System(_, _) => 2,
        }
    }

    /// Stores the descriptor in the next free slot(s) and returns a selector for it,
    /// carrying the descriptor's privilege level.
    pub fn add_descriptor(&mut self, descriptor: SegmentDescriptor) -> (r: SegmentSelector)
        requires
            old(self).index + Self::slots(descriptor) <= 8,
        ensures
            final(self).index == old(self).index + Self::slots(descriptor),
            r.0 == selector_bits(old(self).index as u16, descriptor.spec_dpl()),
            final(self).entries() == match descriptor {
                SegmentDescriptor::User(v) => old(self).entries().update(old(self).index as int, v),
                SegmentDescriptor::System(lower, upper) => old(self).entries().update(
                    old(self).index as int,
                    lower,
                ).update(old(self).index + 1, upper),
            },
    {
        match descriptor {
            SegmentDescriptor::User(value) => {
                let index = self.add_value(value);
                SegmentSelector::new(index as u16, descriptor.privilege_level())
            },
            SegmentDescriptor::System(lower, upper) => {
                let index = self.add_value(lower);
                self.add_value(upper);
                SegmentSelector::new(index as u16, descriptor.privilege_level())
            },
        }
    }

    fn add_value(&mut self, value: u64) -> (r: usize)
        requires
            old(self).index < 8,
        ensures
            r == old(self).index,
            final(self).index == old(self).index + 1,
            final(self).entries() == old(self).entries().update(r as int, value),
    {
        let index = self.index;
        self.descriptors[index] = GDTEntry::new(value);
        self.index = self.index + 1;
        assert(self.entries() =~= old(self).entries().update(index as int, value));
        index
    }
}

/// A segment descriptor: one slot for code and data segments, two for system segments.
///
/// ┌──┬───────────┐
/// │ 0│  Limit    │ 0..16
/// │16│  Base     │ 16..40
/// │40│Access Byte│ accessed, read/write, direction, executable, user, dpl (2), present
/// │48│  Limit    │ 48..52
/// │52│  Flags    │ reserved, long mode, size, granularity
/// │56│  Base     │ 56..64
/// └──┴───────────┘
#[derive(Debug, Clone, Copy, PartialEq, Eq, Structural)]
pub enum SegmentDescriptor {
    User(u64),
    System(u64, u64),
}

/// Limit 0xFFFFF, present, writable, accessed, user segment, 4K granularity.
pub const BASE_BITS: u64 = 0x008F_9300_0000_FFFF;

/// `BASE_BITS`, executable, long mode.
pub const KERNEL_CODE_BITS: u64 = 0x00AF_9B00_0000_FFFF;

/// `BASE_BITS`, 32-bit size flag.
pub const KERNEL_DATA_BITS: u64 = 0x00CF_9300_0000_FFFF;

/// `KERNEL_CODE_BITS` with privilege level 3.
pub const USER_CODE_BITS: u64 = 0x00AF_FB00_0000_FFFF;

/// `KERNEL_DATA_BITS` with privilege level 3.
pub const USER_DATA_BITS: u64 = 0x00CF_F300_0000_FFFF;

/// The lower slot of a task state segment descriptor for a segment at `address`.
pub open spec fn tss_lower_bits(address: u64) -> u64 {
    ((address & 0xFF_FFFF) << 16u64) | (((address >> 24u64) & 0xFF) << 56u64) | (TSS_SIZE - 1)
        as u64 | 0x8900_0000_0000u64
}

pub proof fn lemma_descriptor_constants()
    by (bit_vector)
    ensures
        spec_set_bit_u64(
            spec_set_bit_u64(
                spec_set_bit_u64(
                    spec_set_bit_u64(
                        spec_set_bit_u64(
                            spec_set_bits_u64(spec_set_bits_u64(0, 0, 16, 0xFFFF), 48, 52, 0xF),
                            44,
                            true,
                        ),
                        47,
                        true,
                    ),
                    41,
                    true,
                ),
                40,
                true,
            ),
            55,
            true,
        ) == 0x008F_9300_0000_FFFFu64,
        spec_set_bit_u64(spec_set_bit_u64(0x008F_9300_0000_FFFFu64, 43, true), 53, true)
            == 0x00AF_9B00_0000_FFFFu64,
        spec_set_bit_u64(0x008F_9300_0000_FFFFu64, 54, true) == 0x00CF_9300_0000_FFFFu64,
        spec_set_bits_u64(0x00AF_9B00_0000_FFFFu64, 45, 47, 3) == 0x00AF_FB00_0000_FFFFu64,
        spec_set_bits_u64(0x00CF_9300_0000_FFFFu64, 45, 47, 3) == 0x00CF_F300_0000_FFFFu64,
        spec_get_bits_u64(0x00AF_9B00_0000_FFFFu64, 45, 47) == 0,
        spec_get_bits_u64(0x00CF_9300_0000_FFFFu64, 45, 47) == 0,
        spec_get_bits_u64(0x00AF_FB00_0000_FFFFu64, 45, 47) == 3,
        spec_get_bits_u64(0x00CF_F300_0000_FFFFu64, 45, 47) == 3,
{
}

pub proof fn lemma_tss_bits(address: u64)
    by (bit_vector)
    ensures
        spec_set_bit_u64(
            spec_set_bit_u64(
                spec_set_bit_u64(
                    spec_set_bits_u64(
                        spec_set_bits_u64(
                            spec_set_bits_u64(0, 16, 40, spec_get_bits_u64(address, 0, 24)),
                            56,
                            64,
                            spec_get_bits_u64(address, 24, 32),
                        ),
                        0,
                        16,
                        103,
                    ),
                    40,
                    true,
                ),
                43,
                true,
            ),
            47,
            true,
        ) == tss_lower_bits(address),
        spec_set_bits_u64(0, 0, 32, spec_get_bits_u64(address, 32, 64)) == address >> 32u64,
        spec_get_bits_u64(address, 0, 24) <= 0xFF_FFFF,
        spec_get_bits_u64(address, 24, 32) <= 0xFF,
        spec_get_bits_u64(address, 32, 64) <= 0xFFFF_FFFF,
        spec_get_bits_u64(tss_lower_bits(address), 45, 47) == 0,
        ((tss_lower_bits(address) >> 16u64) & 0xFF_FFFF) | (((tss_lower_bits(address)
            >> 56u64) & 0xFF) << 24u64) | ((address >> 32u64) << 32u64) == address,
{
}

pub proof fn lemma_dpl_le_3(v: u64)
    by (bit_vector)
    ensures
        spec_get_bits_u64(v, 45, 47) <= 3,
{
}

impl SegmentDescriptor {
    /// The descriptor privilege level, bits 45..47 of the (lower) slot.
    pub open spec fn spec_dpl(self) -> u16 {
        let v = match self {
            SegmentDescriptor::User(v) => v,
            SegmentDescriptor::System(v, _) => v,
        };
        spec_get_bits_u64(v, 45, 47) as u16
    }

    fn base_bits() -> (r: u64)
        ensures
            r == BASE_BITS,
    {
        proof {
            lemma_low_masks_u64();
        }
        let bits = set_bits_u64(0, 0, 16, 0xFFFF);
        let bits = set_bits_u64(bits, 48, 52, 0xF);
        let bits = set_bit_u64(bits, 44, true);
        let bits = set_bit_u64(bits, 47, true);
        let bits = set_bit_u64(bits, 41, true);
        let bits = set_bit_u64(bits, 40, true);
        let bits = set_bit_u64(bits, 55, true);
        proof {
            lemma_descriptor_constants();
        }
        bits
    }

    pub fn kernel_code() -> (r: SegmentDescriptor)
        ensures
            r == SegmentDescriptor::User(KERNEL_CODE_BITS),
    {
        proof {
            lemma_low_masks_u64();
        }
        let bits = Self::base_bits();
        let bits = set_bit_u64(bits, 43, true);
        let bits = set_bit_u64(bits, 53, true);
        proof {
            lemma_descriptor_constants();
        }
        SegmentDescriptor::User(bits)
    }

    pub fn kernel_data() -> (r: SegmentDescriptor)
        ensures
            r == SegmentDescriptor::User(KERNEL_DATA_BITS),
    {
        proof {
            lemma_low_masks_u64();
        }
        let bits = Self::base_bits();
        let bits = set_bit_u64(bits, 54, true);
        proof {
            lemma_descriptor_constants();
        }
        SegmentDescriptor::User(bits)
    }

    pub fn user_code() -> (r: SegmentDescriptor)
        ensures
            r == SegmentDescriptor::User(USER_CODE_BITS),
    {
        proof {
            lemma_low_masks_u64();
        }
        let bits = Self::base_bits();
        let bits = set_bit_u64(bits, 43, true);
        let bits = set_bit_u64(bits, 53, true);
        proof {
            lemma_descriptor_constants();
        }
        let bits = set_bits_u64(bits, 45, 47, 3);
        SegmentDescriptor::User(bits)
    }

    pub fn user_data() -> (r: SegmentDescriptor)
        ensures
            r == SegmentDescriptor::User(USER_DATA_BITS),
    {
        proof {
            lemma_low_masks_u64();
        }
        let bits = Self::base_bits();
        let bits = set_bit_u64(bits, 54, true);
        proof {
            lemma_descriptor_constants();
        }
        let bits = set_bits_u64(bits, 45, 47, 3);
        SegmentDescriptor::User(bits)
    }

    /// A descriptor for a task state segment stored at `tss`: its 64-bit base split over
    /// both slots, its limit the segment's size minus one, and type "available 64-bit TSS".
    pub fn tss(tss: VirtualAddress) -> (r: SegmentDescriptor)
        ensures
            r == SegmentDescriptor::System(tss_lower_bits(tss.0), tss.0 >> 32u64),
    {
        let tss = tss.as_u64();
        proof {
            lemma_tss_bits(tss);
            lemma_low_masks_u64();
        }
        let bits_lower = set_bits_u64(0, 16, 40, get_bits_u64(tss, 0, 24));
        let bits_lower = set_bits_u64(bits_lower, 56, 64, get_bits_u64(tss, 24, 32));
        let bits_lower = set_bits_u64(bits_lower, 0, 16, (TSS_SIZE - 1) as u64);
        let bits_lower = set_bit_u64(bits_lower, 40, true);
        let bits_lower = set_bit_u64(bits_lower, 43, true);
        let bits_lower = set_bit_u64(bits_lower, 47, true);
        let bits_upper = set_bits_u64(0, 0, 32, get_bits_u64(tss, 32, 64));
        SegmentDescriptor::System(bits_lower, bits_upper)
    }

    pub fn privilege_level(&self) -> (r: PrivilegeLevel)
        ensures
            r.spec_value() == self.spec_dpl(),
    {
        let value = match self {
            SegmentDescriptor::User(value) => *value,
            SegmentDescriptor::System(value, _) => *value,
        };
        proof {
            lemma_dpl_le_3(value);
        }
        let dpl = get_bits_u64(value, 45, 47);
        PrivilegeLevel::from_u16(dpl as u16)
    }
}

/// Kernel segments run in ring 0 and user segments in ring 3; a task state segment
/// descriptor runs in ring 0 and gives back the address it was made for.
pub proof fn lemma_descriptor_privilege_levels(address: u64)
    ensures
        SegmentDescriptor::User(KERNEL_CODE_BITS).spec_dpl() == 0,
        SegmentDescriptor::User(KERNEL_DATA_BITS).spec_dpl() == 0,
        SegmentDescriptor::User(USER_CODE_BITS).spec_dpl() == 3,
        SegmentDescriptor::User(USER_DATA_BITS).spec_dpl() == 3,
        SegmentDescriptor::System(tss_lower_bits(address), address >> 32u64).spec_dpl() == 0,
        ((tss_lower_bits(address) >> 16u64) & 0xFF_FFFF) | (((tss_lower_bits(address) >> 56u64)
            & 0xFF) << 24u64) | ((address >> 32u64) << 32u64) == address,
{
    lemma_descriptor_constants();
    lemma_tss_bits(address);
}

} // verus!
