use vstd::prelude::*;

verus! {

/// The interrupt vectors the kernel handles beyond the CPU's exceptions.
#[derive(Debug, Clone, Copy, PartialEq, Eq, Structural)]
pub enum InterruptIndex {
    APICTimer,
    Keyboard,
    Mouse,
    SpuriousInterrupt,
}

impl InterruptIndex {
    /// The vector number of each interrupt.
    pub open spec fn vector(self) -> u8 {
        match self {
            InterruptIndex::APICTimer => 0x20,
            InterruptIndex::Keyboard => 0x21,
            InterruptIndex::Mouse => 0x22,
            InterruptIndex::SpuriousInterrupt => 0xFF,
        }
    }

    pub fn as_u8(self) -> (r: u8)
        ensures
            r == self.vector(),
    {
        match self {
            InterruptIndex::APICTimer => 0x20,
            InterruptIndex::Keyboard => 0x21,
            InterruptIndex::Mouse => 0x22,
            InterruptIndex::SpuriousInterrupt => 0xFF,
        }
    }

    pub fn as_u32(self) -> (r: u32)
        ensures
            r == self.vector(),
    {
        self.as_u8() as u32
    }

    pub fn as_usize(self) -> (r: usize)
        ensures
            r == self.vector(),
    {
        self.as_u8() as usize
    }
}

} // verus!
