use vstd::prelude::*;

verus! {

/// A model-specific register, by its number.
#[derive(Clone, Copy, PartialEq, Eq, Structural)]
pub struct MSR(pub u32);

impl MSR {
    pub fn new(reg: u32) -> (r: MSR)
        ensures
            r.0 == reg,
    {
        MSR(reg)
    }

    /// The value `rdmsr` returns, from the halves it leaves in `edx` and `eax`.
    pub fn join(high: u32, low: u32) -> (r: u64)
        ensures
            r == high * 0x1_0000_0000 + low,
    {
        let r = ((high as u64) << 32) | (low as u64);
        assert(((high as u64) << 32) | (low as u64) == high * 0x1_0000_0000 + low) by (bit_vector);
        r
    }

    /// The halves `wrmsr` takes in `edx` and `eax`.
    pub fn split(value: u64) -> (r: (u32, u32))
        ensures
            r.0 * 0x1_0000_0000 + r.1 == value,
    {
        let low = value as u32;
        let high = (value >> 32) as u32;
        assert(high * 0x1_0000_0000 + low == value) by (bit_vector)
            requires
                low == value as u32,
                high == (value >> 32) as u32,
        ;
        (high, low)
    }
}


/// The halves of a 64-bit value are unique: two pairs of halves that join to the same value
/// are the same, so splitting a joined value gives its halves back.
pub proof fn lemma_halves_unique(high: u32, low: u32, high2: u32, low2: u32)
    requires
        high2 * 0x1_0000_0000 + low2 == high * 0x1_0000_0000 + low,
    ensures
        high2 == high,
        low2 == low,
{
    assert(high2 == high && low2 == low) by (nonlinear_arith)
        requires
            high2 * 0x1_0000_0000 + low2 == high * 0x1_0000_0000 + low,
            0 <= low < 0x1_0000_0000,
            0 <= low2 < 0x1_0000_0000,
            0 <= high,
            0 <= high2,
    ;
}

} // verus!
