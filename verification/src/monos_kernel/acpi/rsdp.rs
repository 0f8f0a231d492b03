use crate::monos_kernel::fs::bytes::{le32, read_le32};
use crate::monos_kernel::interrupts::mem::PhysicalAddress;
use crate::monos_kernel::strings::utf8_str;
use vstd::prelude::*;
use vstd::utf8::valid_utf8;

verus! {

/// The sum of some bytes.
pub open spec fn byte_sum(s: Seq<u8>) -> int
    decreases s.len(),
{
    if s.len() == 0 {
        0
    } else {
        byte_sum(s.drop_last()) + s.last()
    }
}

/// The bytes add up to a multiple of 256.
pub open spec fn checksum_ok(s: Seq<u8>) -> bool {
    byte_sum(s) % 256 == 0
}

/// Adds up the first `len` bytes, wrapping around at 256.
pub fn wrapping_sum(b: &[u8], len: usize) -> (r: u8)
    requires
        len <= b@.len(),
    ensures
        r == byte_sum(b@.take(len as int)) % 256,
{
    let mut sum: u8 = 0;
    let mut i: usize = 0;
    while i < len
        invariant
            len <= b@.len(),
            i <= len,
            sum == byte_sum(b@.take(i as int)) % 256,
        decreases len - i,
    {
        proof {
            assert(b@.take(i + 1).drop_last() =~= b@.take(i as int));
        }
        sum = sum.wrapping_add(b[i]);
        i = i + 1;
    }
    sum
}

/// The signature an RSDP starts with.
pub open spec fn rsdp_signature() -> Seq<u8> {
    seq![0x52u8, 0x53, 0x44, 0x20, 0x50, 0x54, 0x52, 0x20]
}

/// The root system description pointer, by its bytes: signature (0..8), checksum (8),
/// OEM id (9..15), revision (15), RSDT address (16..20), and from revision 1 on the length
/// (20..24), the XSDT address (24..32) and an extended checksum (32).
pub struct RSDP {
    pub bytes: Vec<u8>,
}

/// Why an RSDP is not valid.
#[derive(Debug, Clone, Copy, PartialEq, Eq, Structural)]
pub enum RSDPError {
    InvalidChecksum,
    InvalidOEMId,
    InvalidSignature,
}

/// The size of an RSDP.
pub const RSDP_SIZE: usize = 36;

impl RSDP {
    /// The bytes the checksum covers: 20 for revision 0, else the length field.
    pub open spec fn checked_len(&self) -> int {
        if self.bytes@[15] == 0 {
            20
        } else {
            le32(self.bytes@, 20)
        }
    }

    /// Why the RSDP is not valid, in the order the checks are made; none if it is.
    pub open spec fn spec_validate(&self) -> Result<(), RSDPError> {
        if self.bytes@.subrange(0, 8) != rsdp_signature() {
            Err(RSDPError::InvalidSignature)
        } else if !valid_utf8(self.bytes@.subrange(9, 15)) {
            Err(RSDPError::InvalidOEMId)
        } else if !checksum_ok(self.bytes@.take(self.checked_len())) {
            Err(RSDPError::InvalidChecksum)
        } else {
            Ok(())
        }
    }

    /// Takes the bytes of an RSDP and checks them.
    pub fn new(bytes: Vec<u8>) -> (r: Result<RSDP, RSDPError>)
        requires
            bytes@.len() >= RSDP_SIZE,
            bytes@[15] != 0 ==> le32(bytes@, 20) <= bytes@.len(),
        ensures
            match (RSDP { bytes }).spec_validate() {
                Ok(()) => r matches Ok(rsdp) && rsdp.bytes@ == bytes@,
                Err(e) => r == Err::<RSDP, RSDPError>(e),
            },
    {
        let rsdp = RSDP { bytes };
        match rsdp.validate() {
            Ok(()) => Ok(rsdp),
            Err(e) => Err(e),
        }
    }

    /// Checks the signature, that the OEM id is UTF-8, and the checksum.
    pub fn validate(&self) -> (r: Result<(), RSDPError>)
        requires
            self.bytes@.len() >= RSDP_SIZE,
            self.bytes@[15] != 0 ==> le32(self.bytes@, 20) <= self.bytes@.len(),
        ensures
            r == self.spec_validate(),
    {
        let b = self.bytes.as_slice();
        let sig_ok = b[0] == 0x52 && b[1] == 0x53 && b[2] == 0x44 && b[3] == 0x20 && b[4] == 0x50
            && b[5] == 0x54 && b[6] == 0x52 && b[7] == 0x20;
        proof {
            if sig_ok {
                assert(b@.subrange(0, 8) =~= rsdp_signature());
            } else {
                if b@.subrange(0, 8) == rsdp_signature() {
                    assert(b@.subrange(0, 8)[0] == 0x52u8);
                    assert(b@.subrange(0, 8)[1] == 0x53u8);
                    assert(b@.subrange(0, 8)[2] == 0x44u8);
                    assert(b@.subrange(0, 8)[3] == 0x20u8);
                    assert(b@.subrange(0, 8)[4] == 0x50u8);
                    assert(b@.subrange(0, 8)[5] == 0x54u8);
                    assert(b@.subrange(0, 8)[6] == 0x52u8);
                    assert(b@.subrange(0, 8)[7] == 0x20u8);
                }
            }
        }
        if !sig_ok {
            return Err(RSDPError::InvalidSignature);
        }
        let oem = &b[9..15];
        if utf8_str(oem).is_none() {
            return Err(RSDPError::InvalidOEMId);
        }
        let len = if self.is_version_1() {
            20
        } else {
            read_le32(b, 20) as usize
        };
        if wrapping_sum(b, len) != 0 {
            return Err(RSDPError::InvalidChecksum);
        }
        Ok(())
    }

    pub fn is_version_1(&self) -> (r: bool)
        requires
            self.bytes@.len() > 15,
        ensures
            r == (self.bytes@[15] == 0),
    {
        self.bytes[15] == 0
    }

    pub fn revision(&self) -> (r: u8)
        requires
            self.bytes@.len() > 15,
        ensures
            r == self.bytes@[15],
    {
        self.bytes[15]
    }

    pub fn rsdt_address(&self) -> (r: PhysicalAddress)
        requires
            self.bytes@.len() >= 20,
        ensures
            r.0 == le32(self.bytes@, 16),
    {
        PhysicalAddress::new(read_le32(self.bytes.as_slice(), 16) as u64)
    }

    /// The XSDT address, which only an RSDP of revision 1 or later has.
    pub fn xsdt_address(&self) -> (r: PhysicalAddress)
        requires
            self.bytes@.len() >= 32,
            self.bytes@[15] > 0,
        ensures
            r.0 == le32(self.bytes@, 24) + le32(self.bytes@, 28) * 0x1_0000_0000,
    {
        let lo = read_le32(self.bytes.as_slice(), 24) as u64;
        let hi = read_le32(self.bytes.as_slice(), 28) as u64;
        assert(hi * 0x1_0000_0000 + lo <= u64::MAX) by (nonlinear_arith)
            requires
                hi <= u32::MAX,
                lo <= u32::MAX,
        ;
        PhysicalAddress::new(hi * 0x1_0000_0000 + lo)
    }
}

} // verus!
