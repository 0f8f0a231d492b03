use vstd::prelude::*;

verus! {

/// An address in the virtual address space.
#[derive(Clone, Copy, PartialEq, Eq, Structural)]
pub struct VirtualAddress(pub u64);

impl VirtualAddress {
    pub fn new(address: u64) -> (r: VirtualAddress)
        ensures
            r.0 == address,
    {
        VirtualAddress(address)
    }

    pub fn zero() -> (r: VirtualAddress)
        ensures
            r.0 == 0,
    {
        VirtualAddress(0)
    }

    pub fn as_u64(&self) -> (r: u64)
        ensures
            r == self.0,
    {
        self.0
    }
}

impl core::ops::Add<u64> for VirtualAddress {
    type Output = VirtualAddress;

    fn add(self, rhs: u64) -> (r: VirtualAddress) {
        VirtualAddress(self.0 + rhs)
    }
}

impl vstd::std_specs::ops::AddSpecImpl<u64> for VirtualAddress {
    open spec fn obeys_add_spec() -> bool {
        true
    }

    open spec fn add_req(self, rhs: u64) -> bool {
        self.0 + rhs <= u64::MAX
    }

    open spec fn add_spec(self, rhs: u64) -> VirtualAddress {
        VirtualAddress((self.0 + rhs) as u64)
    }
}

/// An address in physical memory.
#[derive(Clone, Copy, PartialEq, Eq, Structural)]
pub struct PhysicalAddress(pub u64);

impl PhysicalAddress {
    pub fn new(address: u64) -> (r: PhysicalAddress)
        ensures
            r.0 == address,
    {
        PhysicalAddress(address)
    }

    pub fn as_u64(&self) -> (r: u64)
        ensures
            r == self.0,
    {
        self.0
    }
}

/// The operand of `lgdt` and `lidt`: the size of a descriptor table minus one, and its base.
#[derive(Clone, Copy)]
pub struct DTPointer {
    pub limit: u16,
    pub base: VirtualAddress,
}

} // verus!
