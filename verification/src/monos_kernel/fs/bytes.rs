use vstd::prelude::*;

verus! {

/// The little-endian `u16` at byte `i`.
pub open spec fn le16(d: Seq<u8>, i: int) -> int {
    d[i] + 256 * d[i + 1]
}

/// The little-endian `u32` at byte `i`.
pub open spec fn le32(d: Seq<u8>, i: int) -> int {
    d[i] + 256 * d[i + 1] + 65536 * d[i + 2] + 16777216 * d[i + 3]
}

pub fn read_le16(d: &[u8], i: usize) -> (r: u16)
    requires
        i + 2 <= d@.len(),
    ensures
        r == le16(d@, i as int),
{
    let lo = d[i];
    let hi = d[i + 1];
    let r = (lo as u16) | ((hi as u16) << 8);
    assert((lo as u16) | ((hi as u16) << 8) == lo + 256 * hi) by (bit_vector);
    r
}

pub fn read_le32(d: &[u8], i: usize) -> (r: u32)
    requires
        i + 4 <= d@.len(),
    ensures
        r == le32(d@, i as int),
{
    let b0 = d[i];
    let b1 = d[i + 1];
    let b2 = d[i + 2];
    let b3 = d[i + 3];
    let r = (b0 as u32) | ((b1 as u32) << 8) | ((b2 as u32) << 16) | ((b3 as u32) << 24);
    assert((b0 as u32) | ((b1 as u32) << 8) | ((b2 as u32) << 16) | ((b3 as u32) << 24) == b0 + 256
        * b1 + 65536 * b2 + 16777216 * b3) by (bit_vector);
    r
}

} // verus!
