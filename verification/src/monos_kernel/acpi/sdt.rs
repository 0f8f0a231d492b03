use super::rsdp::{checksum_ok, wrapping_sum, RSDP};
use crate::monos_kernel::interrupts::mem::PhysicalAddress;
use crate::monos_kernel::fs::bytes::{le32, read_le32};
use crate::monos_kernel::strings::utf8_str;
use vstd::prelude::*;
use vstd::utf8::valid_utf8;

verus! {

/// The size of a table header.
pub const SDT_HEADER_SIZE: usize = 36;

/// A system description table, by its bytes: the header (signature 0..4, length 4..8,
/// revision 8, checksum 9, OEM id 10..16, OEM table id 16..24, OEM revision 24..28,
/// creator id 28..32, creator revision 32..36) and what follows it.
pub struct SDTHeader {
    pub bytes: Vec<u8>,
}

impl SDTHeader {
    /// The table has the given signature, UTF-8 OEM ids and a valid checksum over its
    /// length.
    pub open spec fn spec_validate(&self, signature: Seq<u8>) -> bool {
        &&& self.bytes@.subrange(0, 4) == signature
        &&& valid_utf8(self.bytes@.subrange(10, 16))
        &&& valid_utf8(self.bytes@.subrange(16, 24))
        &&& checksum_ok(self.bytes@.take(le32(self.bytes@, 4)))
    }

    pub fn validate(&self, signature: &[u8; 4]) -> (r: bool)
        requires
            self.bytes@.len() >= SDT_HEADER_SIZE,
            le32(self.bytes@, 4) <= self.bytes@.len(),
        ensures
            r == self.spec_validate(signature@),
    {
        let b = self.bytes.as_slice();
        let sig_ok = b[0] == signature[0] && b[1] == signature[1] && b[2] == signature[2] && b[3]
            == signature[3];
        proof {
            if sig_ok {
                assert(b@.subrange(0, 4) =~= signature@);
            } else if b@.subrange(0, 4) == signature@ {
                assert(b@.subrange(0, 4)[0] == signature@[0]);
                assert(b@.subrange(0, 4)[1] == signature@[1]);
                assert(b@.subrange(0, 4)[2] == signature@[2]);
                assert(b@.subrange(0, 4)[3] == signature@[3]);
            }
        }
        if !sig_ok {
            return false;
        }
        if utf8_str(&b[10..16]).is_none() {
            return false;
        }
        if utf8_str(&b[16..24]).is_none() {
            return false;
        }
        let len = read_le32(b, 4) as usize;
        if wrapping_sum(b, len) != 0 {
            return false;
        }
        true
    }

    pub fn length(&self) -> (r: u32)
        requires
            self.bytes@.len() >= 8,
        ensures
            r == le32(self.bytes@, 4),
    {
        read_le32(self.bytes.as_slice(), 4)
    }
}


/// The signature of the root table: `RSDT` for revision 0, else `XSDT`.
pub open spec fn root_signature(revision: u8) -> Seq<u8> {
    if revision == 0 {
        seq![0x52u8, 0x53, 0x44, 0x54]
    } else {
        seq![0x58u8, 0x53, 0x44, 0x54]
    }
}

/// The addresses a root table lists after its header: `size` bytes each, little endian,
/// as many whole ones as its length holds.
pub open spec fn table_addresses(b: Seq<u8>, len: int, size: int) -> Seq<int> {
    Seq::new(
        ((len - SDT_HEADER_SIZE) / size) as nat,
        |k: int|
            if size == 4 {
                le32(b, SDT_HEADER_SIZE + k * size)
            } else {
                le32(b, SDT_HEADER_SIZE + k * size) + le32(b, SDT_HEADER_SIZE + k * size + 4) * 0x1_0000_0000
            },
    )
}

/// The root of the ACPI tables: the root table (RSDT or XSDT) and the revision that says
/// which one it is.
pub struct ACPIRoot {
    pub table: SDTHeader,
    pub revision: u8,
}

impl ACPIRoot {
    /// Where the root table is: the RSDT's address for revision 0, else the XSDT's.
    pub fn root_address(rsdp: &RSDP) -> (r: PhysicalAddress)
        requires
            rsdp.bytes@.len() >= 36,
        ensures
            rsdp.bytes@[15] == 0 ==> r.0 == le32(rsdp.bytes@, 16),
            rsdp.bytes@[15] != 0 ==> r.0 == le32(rsdp.bytes@, 24) + le32(rsdp.bytes@, 28) * 0x1_0000_0000,
    {
        if rsdp.revision() == 0 {
            rsdp.rsdt_address()
        } else {
            rsdp.xsdt_address()
        }
    }

    /// The signature the root table must have.
    pub fn root_signature(revision: u8) -> (r: [u8; 4])
        ensures
            r@ == root_signature(revision),
    {
        let r: [u8; 4] = if revision == 0 {
            [0x52, 0x53, 0x44, 0x54]
        } else {
            [0x58, 0x53, 0x44, 0x54]
        };
        assert(r@ =~= root_signature(revision));
        r
    }

    /// Takes the root table of the given revision, which must be valid.
    pub fn new(table: SDTHeader, revision: u8) -> (r: ACPIRoot)
        requires
            table.bytes@.len() >= SDT_HEADER_SIZE,
            table.spec_validate(root_signature(revision)),
        ensures
            r.table.bytes@ == table.bytes@,
            r.revision == revision,
    {
        ACPIRoot { table, revision }
    }

    /// The addresses of the tables the root lists: 4 bytes each in an RSDT, 8 in an XSDT.
    pub fn tables(&self) -> (r: Vec<u64>)
        requires
            SDT_HEADER_SIZE <= le32(self.table.bytes@, 4) <= self.table.bytes@.len(),
        ensures
            r@.len() == table_addresses(
                self.table.bytes@,
                le32(self.table.bytes@, 4),
                if self.revision == 0 { 4 } else { 8 },
            ).len(),
            forall|k: int|
                0 <= k < r@.len() ==> r@[k] == table_addresses(
                    self.table.bytes@,
                    le32(self.table.bytes@, 4),
                    if self.revision == 0 { 4 } else { 8 },
                )[k],
    {
        let b = self.table.bytes.as_slice();
        let len = read_le32(b, 4) as usize;
        let size: usize = if self.revision == 0 {
            4
        } else {
            8
        };
        let ghost want = table_addresses(b@, len as int, size as int);
        let count = (len - SDT_HEADER_SIZE) / size;
        let mut out: Vec<u64> = Vec::new();
        let mut k: usize = 0;
        let mut pos: usize = SDT_HEADER_SIZE;
        while k < count
            invariant
                b@ == self.table.bytes@,
                len == le32(b@, 4),
                SDT_HEADER_SIZE <= len <= b@.len(),
                size == 4 || size == 8,
                count == (len - SDT_HEADER_SIZE) / size as int,
                want == table_addresses(b@, len as int, size as int),
                k <= count,
                pos == SDT_HEADER_SIZE + k * size,
                out@.len() == k,
                forall|j: int| 0 <= j < k ==> out@[j] == want[j],
            decreases count - k,
        {
            assert(pos + size <= len) by (nonlinear_arith)
                requires
                    pos == SDT_HEADER_SIZE + k * size,
                    k < count,
                    count == (len - SDT_HEADER_SIZE) / size as int,
                    size > 0,
                    len >= SDT_HEADER_SIZE,
            ;
            let lo = read_le32(b, pos) as u64;
            let addr = if size == 4 {
                lo
            } else {
                let hi = read_le32(b, pos + 4) as u64;
                assert(hi * 0x1_0000_0000 + lo <= u64::MAX) by (nonlinear_arith)
                    requires
                        hi <= u32::MAX,
                        lo <= u32::MAX,
                ;
                lo + hi * 0x1_0000_0000
            };
            out.push(addr);
            k = k + 1;
            pos = pos + size;
            assert(pos == SDT_HEADER_SIZE + k * size) by (nonlinear_arith)
                requires
                    pos == SDT_HEADER_SIZE + (k - 1) * size + size,
            ;
        }
        out
    }
}

/// The first of the tables read from the root's addresses that is valid with the given
/// signature.
pub fn find_table(tables: &[SDTHeader], signature: &[u8; 4]) -> (r: Option<usize>)
    requires
        forall|i: int|
            0 <= i < tables@.len() ==> (#[trigger] tables@[i]).bytes@.len() >= SDT_HEADER_SIZE && le32(
                tables@[i].bytes@,
                4,
            ) <= tables@[i].bytes@.len(),
    ensures
        match r {
            Some(i) => i < tables@.len() && tables@[i as int].spec_validate(signature@) && forall|j: int|
                0 <= j < i ==> !(#[trigger] tables@[j]).spec_validate(signature@),
            None => forall|j: int| 0 <= j < tables@.len() ==> !(#[trigger] tables@[j]).spec_validate(signature@),
        },
{
    let mut i: usize = 0;
    while i < tables.len()
        invariant
            i <= tables@.len(),
            forall|j: int|
                0 <= j < tables@.len() ==> (#[trigger] tables@[j]).bytes@.len() >= SDT_HEADER_SIZE && le32(
                    tables@[j].bytes@,
                    4,
                ) <= tables@[j].bytes@.len(),
            forall|j: int| 0 <= j < i ==> !(#[trigger] tables@[j]).spec_validate(signature@),
        decreases tables@.len() - i,
    {
        if tables[i].validate(signature) {
            return Some(i);
        }
        i = i + 1;
    }
    None
}

} // verus!
