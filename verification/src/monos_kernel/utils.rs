use vstd::prelude::*;

verus! {

// Bit-field access on plain integers. A range of bits is given by its first bit and
// the bit after its last; it must be non-empty and lie inside the integer, and a value
// written into a range must fit in it.

/// A mask of the lowest `len` bits of a `u8`.
pub open spec fn low_mask_u8(len: u8) -> u8 {
    if len >= 8 {
        u8::MAX
    } else {
        u8::MAX >> ((8 - len) as u8)
    }
}

/// The bits `start..end` of `v`, shifted down to bit 0.
pub open spec fn spec_get_bits_u8(v: u8, start: u8, end: u8) -> u8 {
    (v >> start) & low_mask_u8((end - start) as u8)
}

/// `v` with bits `start..end` replaced by `value`.
pub open spec fn spec_set_bits_u8(v: u8, start: u8, end: u8, value: u8) -> u8 {
    (v & !(low_mask_u8((end - start) as u8) << start)) | (value << start)
}

/// `v` with bit `bit` set or cleared.
pub open spec fn spec_set_bit_u8(v: u8, bit: u8, value: bool) -> u8 {
    if value {
        v | (1u8 << bit)
    } else {
        v & !(1u8 << bit)
    }
}

pub open spec fn spec_get_bit_u8(v: u8, bit: u8) -> bool {
    v & (1u8 << bit) != 0
}

pub fn low_mask_exec_u8(len: u8) -> (r: u8)
    requires
        0 < len <= 8,
    ensures
        r == low_mask_u8(len),
{
    if len >= 8 {
        u8::MAX
    } else {
        u8::MAX >> (8 - len)
    }
}

pub fn get_bits_u8(v: u8, start: u8, end: u8) -> (r: u8)
    requires
        start < end <= 8,
    ensures
        r == spec_get_bits_u8(v, start, end),
{
    (v >> start) & low_mask_exec_u8(end - start)
}

pub fn set_bits_u8(v: u8, start: u8, end: u8, value: u8) -> (r: u8)
    requires
        start < end <= 8,
        value <= low_mask_u8((end - start) as u8),
    ensures
        r == spec_set_bits_u8(v, start, end, value),
{
    (v & !(low_mask_exec_u8(end - start) << start)) | (value << start)
}

pub fn get_bit_u8(v: u8, bit: u8) -> (r: bool)
    requires
        bit < 8,
    ensures
        r == spec_get_bit_u8(v, bit),
{
    v & (1u8 << bit) != 0
}

pub fn set_bit_u8(v: u8, bit: u8, value: bool) -> (r: u8)
    requires
        bit < 8,
    ensures
        r == spec_set_bit_u8(v, bit, value),
{
    if value {
        v | (1u8 << bit)
    } else {
        v & !(1u8 << bit)
    }
}

/// A mask of the lowest `len` bits of a `u16`.
pub open spec fn low_mask_u16(len: u16) -> u16 {
    if len >= 16 {
        u16::MAX
    } else {
        u16::MAX >> ((16 - len) as u16)
    }
}

/// The bits `start..end` of `v`, shifted down to bit 0.
pub open spec fn spec_get_bits_u16(v: u16, start: u16, end: u16) -> u16 {
    (v >> start) & low_mask_u16((end - start) as u16)
}

/// `v` with bits `start..end` replaced by `value`.
pub open spec fn spec_set_bits_u16(v: u16, start: u16, end: u16, value: u16) -> u16 {
    (v & !(low_mask_u16((end - start) as u16) << start)) | (value << start)
}

/// `v` with bit `bit` set or cleared.
pub open spec fn spec_set_bit_u16(v: u16, bit: u16, value: bool) -> u16 {
    if value {
        v | (1u16 << bit)
    } else {
        v & !(1u16 << bit)
    }
}

pub open spec fn spec_get_bit_u16(v: u16, bit: u16) -> bool {
    v & (1u16 << bit) != 0
}

pub fn low_mask_exec_u16(len: u16) -> (r: u16)
    requires
        0 < len <= 16,
    ensures
        r == low_mask_u16(len),
{
    if len >= 16 {
        u16::MAX
    } else {
        u16::MAX >> (16 - len)
    }
}

pub fn get_bits_u16(v: u16, start: u16, end: u16) -> (r: u16)
    requires
        start < end <= 16,
    ensures
        r == spec_get_bits_u16(v, start, end),
{
    (v >> start) & low_mask_exec_u16(end - start)
}

pub fn set_bits_u16(v: u16, start: u16, end: u16, value: u16) -> (r: u16)
    requires
        start < end <= 16,
        value <= low_mask_u16((end - start) as u16),
    ensures
        r == spec_set_bits_u16(v, start, end, value),
{
    (v & !(low_mask_exec_u16(end - start) << start)) | (value << start)
}

pub fn get_bit_u16(v: u16, bit: u16) -> (r: bool)
    requires
        bit < 16,
    ensures
        r == spec_get_bit_u16(v, bit),
{
    v & (1u16 << bit) != 0
}

pub fn set_bit_u16(v: u16, bit: u16, value: bool) -> (r: u16)
    requires
        bit < 16,
    ensures
        r == spec_set_bit_u16(v, bit, value),
{
    if value {
        v | (1u16 << bit)
    } else {
        v & !(1u16 << bit)
    }
}

/// A mask of the lowest `len` bits of a `u32`.
pub open spec fn low_mask_u32(len: u32) -> u32 {
    if len >= 32 {
        u32::MAX
    } else {
        u32::MAX >> ((32 - len) as u32)
    }
}

/// The bits `start..end` of `v`, shifted down to bit 0.
pub open spec fn spec_get_bits_u32(v: u32, start: u32, end: u32) -> u32 {
    (v >> start) & low_mask_u32((end - start) as u32)
}

/// `v` with bits `start..end` replaced by `value`.
pub open spec fn spec_set_bits_u32(v: u32, start: u32, end: u32, value: u32) -> u32 {
    (v & !(low_mask_u32((end - start) as u32) << start)) | (value << start)
}

/// `v` with bit `bit` set or cleared.
pub open spec fn spec_set_bit_u32(v: u32, bit: u32, value: bool) -> u32 {
    if value {
        v | (1u32 << bit)
    } else {
        v & !(1u32 << bit)
    }
}

pub open spec fn spec_get_bit_u32(v: u32, bit: u32) -> bool {
    v & (1u32 << bit) != 0
}

pub fn low_mask_exec_u32(len: u32) -> (r: u32)
    requires
        0 < len <= 32,
    ensures
        r == low_mask_u32(len),
{
    if len >= 32 {
        u32::MAX
    } else {
        u32::MAX >> (32 - len)
    }
}

pub fn get_bits_u32(v: u32, start: u32, end: u32) -> (r: u32)
    requires
        start < end <= 32,
    ensures
        r == spec_get_bits_u32(v, start, end),
{
    (v >> start) & low_mask_exec_u32(end - start)
}

pub fn set_bits_u32(v: u32, start: u32, end: u32, value: u32) -> (r: u32)
    requires
        start < end <= 32,
        value <= low_mask_u32((end - start) as u32),
    ensures
        r == spec_set_bits_u32(v, start, end, value),
{
    (v & !(low_mask_exec_u32(end - start) << start)) | (value << start)
}

pub fn get_bit_u32(v: u32, bit: u32) -> (r: bool)
    requires
        bit < 32,
    ensures
        r == spec_get_bit_u32(v, bit),
{
    v & (1u32 << bit) != 0
}

pub fn set_bit_u32(v: u32, bit: u32, value: bool) -> (r: u32)
    requires
        bit < 32,
    ensures
        r == spec_set_bit_u32(v, bit, value),
{
    if value {
        v | (1u32 << bit)
    } else {
        v & !(1u32 << bit)
    }
}

/// A mask of the lowest `len` bits of a `u64`.
pub open spec fn low_mask_u64(len: u64) -> u64 {
    if len >= 64 {
        u64::MAX
    } else {
        u64::MAX >> ((64 - len) as u64)
    }
}

/// The bits `start..end` of `v`, shifted down to bit 0.
pub open spec fn spec_get_bits_u64(v: u64, start: u64, end: u64) -> u64 {
    (v >> start) & low_mask_u64((end - start) as u64)
}

/// `v` with bits `start..end` replaced by `value`.
pub open spec fn spec_set_bits_u64(v: u64, start: u64, end: u64, value: u64) -> u64 {
    (v & !(low_mask_u64((end - start) as u64) << start)) | (value << start)
}

/// `v` with bit `bit` set or cleared.
pub open spec fn spec_set_bit_u64(v: u64, bit: u64, value: bool) -> u64 {
    if value {
        v | (1u64 << bit)
    } else {
        v & !(1u64 << bit)
    }
}

pub open spec fn spec_get_bit_u64(v: u64, bit: u64) -> bool {
    v & (1u64 << bit) != 0
}

pub fn low_mask_exec_u64(len: u64) -> (r: u64)
    requires
        0 < len <= 64,
    ensures
        r == low_mask_u64(len),
{
    if len >= 64 {
        u64::MAX
    } else {
        u64::MAX >> (64 - len)
    }
}

pub fn get_bits_u64(v: u64, start: u64, end: u64) -> (r: u64)
    requires
        start < end <= 64,
    ensures
        r == spec_get_bits_u64(v, start, end),
{
    (v >> start) & low_mask_exec_u64(end - start)
}

pub fn set_bits_u64(v: u64, start: u64, end: u64, value: u64) -> (r: u64)
    requires
        start < end <= 64,
        value <= low_mask_u64((end - start) as u64),
    ensures
        r == spec_set_bits_u64(v, start, end, value),
{
    (v & !(low_mask_exec_u64(end - start) << start)) | (value << start)
}

pub fn get_bit_u64(v: u64, bit: u64) -> (r: bool)
    requires
        bit < 64,
    ensures
        r == spec_get_bit_u64(v, bit),
{
    v & (1u64 << bit) != 0
}

pub fn set_bit_u64(v: u64, bit: u64, value: bool) -> (r: u64)
    requires
        bit < 64,
    ensures
        r == spec_set_bit_u64(v, bit, value),
{
    if value {
        v | (1u64 << bit)
    } else {
        v & !(1u64 << bit)
    }
}

/// The value of every mask of the lowest bits of a `u8`.
pub proof fn lemma_low_masks_u8()
    by (bit_vector)
    ensures
        low_mask_u8(1) == 0x1u8,
        low_mask_u8(2) == 0x3u8,
        low_mask_u8(3) == 0x7u8,
        low_mask_u8(4) == 0xfu8,
        low_mask_u8(5) == 0x1fu8,
        low_mask_u8(6) == 0x3fu8,
        low_mask_u8(7) == 0x7fu8,
        low_mask_u8(8) == 0xffu8,
{
}

/// The value of every mask of the lowest bits of a `u16`.
pub proof fn lemma_low_masks_u16()
    by (bit_vector)
    ensures
        low_mask_u16(1) == 0x1u16,
        low_mask_u16(2) == 0x3u16,
        low_mask_u16(3) == 0x7u16,
        low_mask_u16(4) == 0xfu16,
        low_mask_u16(5) == 0x1fu16,
        low_mask_u16(6) == 0x3fu16,
        low_mask_u16(7) == 0x7fu16,
        low_mask_u16(8) == 0xffu16,
        low_mask_u16(9) == 0x1ffu16,
        low_mask_u16(10) == 0x3ffu16,
        low_mask_u16(11) == 0x7ffu16,
        low_mask_u16(12) == 0xfffu16,
        low_mask_u16(13) == 0x1fffu16,
        low_mask_u16(14) == 0x3fffu16,
        low_mask_u16(15) == 0x7fffu16,
        low_mask_u16(16) == 0xffffu16,
{
}

/// The value of every mask of the lowest bits of a `u32`.
pub proof fn lemma_low_masks_u32()
    by (bit_vector)
    ensures
        low_mask_u32(1) == 0x1u32,
        low_mask_u32(2) == 0x3u32,
        low_mask_u32(3) == 0x7u32,
        low_mask_u32(4) == 0xfu32,
        low_mask_u32(5) == 0x1fu32,
        low_mask_u32(6) == 0x3fu32,
        low_mask_u32(7) == 0x7fu32,
        low_mask_u32(8) == 0xffu32,
        low_mask_u32(9) == 0x1ffu32,
        low_mask_u32(10) == 0x3ffu32,
        low_mask_u32(11) == 0x7ffu32,
        low_mask_u32(12) == 0xfffu32,
        low_mask_u32(13) == 0x1fffu32,
        low_mask_u32(14) == 0x3fffu32,
        low_mask_u32(15) == 0x7fffu32,
        low_mask_u32(16) == 0xffffu32,
        low_mask_u32(17) == 0x1ffffu32,
        low_mask_u32(18) == 0x3ffffu32,
        low_mask_u32(19) == 0x7ffffu32,
        low_mask_u32(20) == 0xfffffu32,
        low_mask_u32(21) == 0x1fffffu32,
        low_mask_u32(22) == 0x3fffffu32,
        low_mask_u32(23) == 0x7fffffu32,
        low_mask_u32(24) == 0xffffffu32,
        low_mask_u32(25) == 0x1ffffffu32,
        low_mask_u32(26) == 0x3ffffffu32,
        low_mask_u32(27) == 0x7ffffffu32,
        low_mask_u32(28) == 0xfffffffu32,
        low_mask_u32(29) == 0x1fffffffu32,
        low_mask_u32(30) == 0x3fffffffu32,
        low_mask_u32(31) == 0x7fffffffu32,
        low_mask_u32(32) == 0xffffffffu32,
{
}

/// The value of every mask of the lowest bits of a `u64`.
pub proof fn lemma_low_masks_u64()
    by (bit_vector)
    ensures
        low_mask_u64(1) == 0x1u64,
        low_mask_u64(2) == 0x3u64,
        low_mask_u64(3) == 0x7u64,
        low_mask_u64(4) == 0xfu64,
        low_mask_u64(5) == 0x1fu64,
        low_mask_u64(6) == 0x3fu64,
        low_mask_u64(7) == 0x7fu64,
        low_mask_u64(8) == 0xffu64,
        low_mask_u64(9) == 0x1ffu64,
        low_mask_u64(10) == 0x3ffu64,
        low_mask_u64(11) == 0x7ffu64,
        low_mask_u64(12) == 0xfffu64,
        low_mask_u64(13) == 0x1fffu64,
        low_mask_u64(14) == 0x3fffu64,
        low_mask_u64(15) == 0x7fffu64,
        low_mask_u64(16) == 0xffffu64,
        low_mask_u64(17) == 0x1ffffu64,
        low_mask_u64(18) == 0x3ffffu64,
        low_mask_u64(19) == 0x7ffffu64,
        low_mask_u64(20) == 0xfffffu64,
        low_mask_u64(21) == 0x1fffffu64,
        low_mask_u64(22) == 0x3fffffu64,
        low_mask_u64(23) == 0x7fffffu64,
        low_mask_u64(24) == 0xffffffu64,
        low_mask_u64(25) == 0x1ffffffu64,
        low_mask_u64(26) == 0x3ffffffu64,
        low_mask_u64(27) == 0x7ffffffu64,
        low_mask_u64(28) == 0xfffffffu64,
        low_mask_u64(29) == 0x1fffffffu64,
        low_mask_u64(30) == 0x3fffffffu64,
        low_mask_u64(31) == 0x7fffffffu64,
        low_mask_u64(32) == 0xffffffffu64,
        low_mask_u64(33) == 0x1ffffffffu64,
        low_mask_u64(34) == 0x3ffffffffu64,
        low_mask_u64(35) == 0x7ffffffffu64,
        low_mask_u64(36) == 0xfffffffffu64,
        low_mask_u64(37) == 0x1fffffffffu64,
        low_mask_u64(38) == 0x3fffffffffu64,
        low_mask_u64(39) == 0x7fffffffffu64,
        low_mask_u64(40) == 0xffffffffffu64,
        low_mask_u64(41) == 0x1ffffffffffu64,
        low_mask_u64(42) == 0x3ffffffffffu64,
        low_mask_u64(43) == 0x7ffffffffffu64,
        low_mask_u64(44) == 0xfffffffffffu64,
        low_mask_u64(45) == 0x1fffffffffffu64,
        low_mask_u64(46) == 0x3fffffffffffu64,
        low_mask_u64(47) == 0x7fffffffffffu64,
        low_mask_u64(48) == 0xffffffffffffu64,
        low_mask_u64(49) == 0x1ffffffffffffu64,
        low_mask_u64(50) == 0x3ffffffffffffu64,
        low_mask_u64(51) == 0x7ffffffffffffu64,
        low_mask_u64(52) == 0xfffffffffffffu64,
        low_mask_u64(53) == 0x1fffffffffffffu64,
        low_mask_u64(54) == 0x3fffffffffffffu64,
        low_mask_u64(55) == 0x7fffffffffffffu64,
        low_mask_u64(56) == 0xffffffffffffffu64,
        low_mask_u64(57) == 0x1ffffffffffffffu64,
        low_mask_u64(58) == 0x3ffffffffffffffu64,
        low_mask_u64(59) == 0x7ffffffffffffffu64,
        low_mask_u64(60) == 0xfffffffffffffffu64,
        low_mask_u64(61) == 0x1fffffffffffffffu64,
        low_mask_u64(62) == 0x3fffffffffffffffu64,
        low_mask_u64(63) == 0x7fffffffffffffffu64,
        low_mask_u64(64) == 0xffffffffffffffffu64,
{
}

} // verus!
