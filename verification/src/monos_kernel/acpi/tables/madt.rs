use crate::monos_kernel::fs::bytes::{le16, le32, read_le16, read_le32};
use vstd::prelude::*;

verus! {

/// The kinds of entries of the MADT.
#[derive(Debug, Clone, Copy, PartialEq, Eq, Structural)]
pub enum MADTEntryType {
    ProcessorLocalAPIC,
    IOAPIC,
    InterruptSourceOverride,
    NMISource,
    LocalAPICNMI,
    LocalAPICAddressOverride,
    IOSAPIC,
    LocalSAPIC,
    PlatformInterruptSources,
    ProcessorLocalx2APIC,
    Localx2APICNMI,
    GICC,
    GICD,
    GICMSIFrame,
    GICR,
    GICITS,
    MultiprocessorWakeUp,
}

impl MADTEntryType {
    /// The number each kind is stored as.
    pub open spec fn spec_code(self) -> u8 {
        match self {
            MADTEntryType::ProcessorLocalAPIC => 0,
            MADTEntryType::IOAPIC => 1,
            MADTEntryType::InterruptSourceOverride => 2,
            MADTEntryType::NMISource => 3,
            MADTEntryType::LocalAPICNMI => 4,
            MADTEntryType::LocalAPICAddressOverride => 5,
            MADTEntryType::IOSAPIC => 6,
            MADTEntryType::LocalSAPIC => 7,
            MADTEntryType::PlatformInterruptSources => 8,
            MADTEntryType::ProcessorLocalx2APIC => 9,
            MADTEntryType::Localx2APICNMI => 0xA,
            MADTEntryType::GICC => 0xB,
            MADTEntryType::GICD => 0xC,
            MADTEntryType::GICMSIFrame => 0xD,
            MADTEntryType::GICR => 0xE,
            MADTEntryType::GICITS => 0xF,
            MADTEntryType::MultiprocessorWakeUp => 0x10,
        }
    }

    pub fn code(self) -> (r: u8)
        ensures
            r == self.spec_code(),
    {
        match self {
            MADTEntryType::ProcessorLocalAPIC => 0,
            MADTEntryType::IOAPIC => 1,
            MADTEntryType::InterruptSourceOverride => 2,
            MADTEntryType::NMISource => 3,
            MADTEntryType::LocalAPICNMI => 4,
            MADTEntryType::LocalAPICAddressOverride => 5,
            MADTEntryType::IOSAPIC => 6,
            MADTEntryType::LocalSAPIC => 7,
            MADTEntryType::PlatformInterruptSources => 8,
            MADTEntryType::ProcessorLocalx2APIC => 9,
            MADTEntryType::Localx2APICNMI => 0xA,
            MADTEntryType::GICC => 0xB,
            MADTEntryType::GICD => 0xC,
            MADTEntryType::GICMSIFrame => 0xD,
            MADTEntryType::GICR => 0xE,
            MADTEntryType::GICITS => 0xF,
            MADTEntryType::MultiprocessorWakeUp => 0x10,
        }
    }
}

/// An entry of the MADT read from its bytes (its type at 0, its length at 1).
pub trait MADTEntry: Sized {
    /// The kind of entries this reads.
    spec fn spec_entry_type() -> MADTEntryType;

    /// How many bytes the entry reads.
    spec fn spec_size() -> nat;

    /// The entry the bytes hold.
    spec fn spec_parse(bytes: Seq<u8>) -> Self;

    fn entry_type() -> (r: MADTEntryType)
        ensures
            r == Self::spec_entry_type(),
    ;

    fn size() -> (r: usize)
        ensures
            r == Self::spec_size(),
    ;

    fn from_bytes(bytes: &[u8]) -> (r: Self)
        requires
            bytes@.len() >= Self::spec_size(),
        ensures
            r == Self::spec_parse(bytes@),
    ;
}

/// A processor and its local APIC.
pub struct ProcessorLocalAPIC {
    pub processor_uid: u8,
    pub apic_id: u8,
    pub flags: u32,
}

impl ProcessorLocalAPIC {
    pub fn processor_uid(&self) -> (r: u8)
        ensures
            r == self.processor_uid,
    {
        self.processor_uid
    }

    pub fn apic_id(&self) -> (r: u8)
        ensures
            r == self.apic_id,
    {
        self.apic_id
    }

    /// Reads the entry's bytes: the ids at 2 and 3, the flags at 4..8.
    pub fn parse(bytes: &[u8]) -> (r: ProcessorLocalAPIC)
        requires
            bytes@.len() >= 8,
        ensures
            r.processor_uid == bytes@[2],
            r.apic_id == bytes@[3],
            r.flags == le32(bytes@, 4),
    {
        ProcessorLocalAPIC { processor_uid: bytes[2], apic_id: bytes[3], flags: read_le32(bytes, 4) }
    }
}

impl MADTEntry for ProcessorLocalAPIC {
    open spec fn spec_entry_type() -> MADTEntryType {
        MADTEntryType::ProcessorLocalAPIC
    }

    open spec fn spec_size() -> nat {
        8
    }

    open spec fn spec_parse(b: Seq<u8>) -> ProcessorLocalAPIC {
        ProcessorLocalAPIC { processor_uid: b[2], apic_id: b[3], flags: le32(b, 4) as u32 }
    }

    fn entry_type() -> (r: MADTEntryType) {
        MADTEntryType::ProcessorLocalAPIC
    }

    fn size() -> (r: usize) {
        8
    }

    fn from_bytes(bytes: &[u8]) -> (r: ProcessorLocalAPIC) {
        ProcessorLocalAPIC::parse(bytes)
    }
}

/// An I/O APIC.
pub struct IOAPIC {
    pub ioapic_id: u8,
    pub ioapic_address: u32,
    pub global_system_interrupt_base: u32,
}

impl IOAPIC {
    /// Reads the entry's bytes: the id at 2, the address at 4..8 and the first interrupt
    /// at 8..12.
    pub fn parse(bytes: &[u8]) -> (r: IOAPIC)
        requires
            bytes@.len() >= 12,
        ensures
            r.ioapic_id == bytes@[2],
            r.ioapic_address == le32(bytes@, 4),
            r.global_system_interrupt_base == le32(bytes@, 8),
    {
        IOAPIC {
            ioapic_id: bytes[2],
            ioapic_address: read_le32(bytes, 4),
            global_system_interrupt_base: read_le32(bytes, 8),
        }
    }
}

impl MADTEntry for IOAPIC {
    open spec fn spec_entry_type() -> MADTEntryType {
        MADTEntryType::IOAPIC
    }

    open spec fn spec_size() -> nat {
        12
    }

    open spec fn spec_parse(b: Seq<u8>) -> IOAPIC {
        IOAPIC { ioapic_id: b[2], ioapic_address: le32(b, 4) as u32, global_system_interrupt_base: le32(b, 8) as u32 }
    }

    fn entry_type() -> (r: MADTEntryType) {
        MADTEntryType::IOAPIC
    }

    fn size() -> (r: usize) {
        12
    }

    fn from_bytes(bytes: &[u8]) -> (r: IOAPIC) {
        IOAPIC::parse(bytes)
    }
}

/// An interrupt source whose line is routed to another global system interrupt.
pub struct InterruptSourceOverride {
    pub bus: u8,
    pub source: u8,
    pub global_system_interrupt: u32,
    pub flags: u16,
}

impl InterruptSourceOverride {
    pub fn source(&self) -> (r: u8)
        ensures
            r == self.source,
    {
        self.source
    }

    pub fn global_system_interrupt(&self) -> (r: u32)
        ensures
            r == self.global_system_interrupt,
    {
        self.global_system_interrupt
    }

    /// Reads the entry's bytes: the bus at 2, the source at 3, the interrupt at 4..8 and
    /// the flags at 8..10.
    pub fn parse(bytes: &[u8]) -> (r: InterruptSourceOverride)
        requires
            bytes@.len() >= 10,
        ensures
            r.bus == bytes@[2],
            r.source == bytes@[3],
            r.global_system_interrupt == le32(bytes@, 4),
            r.flags == le16(bytes@, 8),
    {
        InterruptSourceOverride {
            bus: bytes[2],
            source: bytes[3],
            global_system_interrupt: read_le32(bytes, 4),
            flags: read_le16(bytes, 8),
        }
    }
}

impl MADTEntry for InterruptSourceOverride {
    open spec fn spec_entry_type() -> MADTEntryType {
        MADTEntryType::InterruptSourceOverride
    }

    open spec fn spec_size() -> nat {
        10
    }

    open spec fn spec_parse(b: Seq<u8>) -> InterruptSourceOverride {
        InterruptSourceOverride { bus: b[2], source: b[3], global_system_interrupt: le32(b, 4) as u32, flags: le16(b, 8) as u16 }
    }

    fn entry_type() -> (r: MADTEntryType) {
        MADTEntryType::InterruptSourceOverride
    }

    fn size() -> (r: usize) {
        10
    }

    fn from_bytes(bytes: &[u8]) -> (r: InterruptSourceOverride) {
        InterruptSourceOverride::parse(bytes)
    }
}

/// Where the entries of a MADT start: after the table header, the local interrupt
/// controller address and the flags.
pub const MADT_ENTRIES_START: usize = 44;

/// The entries of a MADT from `pos` to `end`: the start of each, walking by the length
/// each entry gives.
pub open spec fn entry_starts(b: Seq<u8>, pos: int, end: int) -> Seq<int>
    decreases if pos < end {
        end - pos
    } else {
        0
    },
{
    if pos >= end || pos < 0 || pos + 1 >= b.len() || b[pos + 1] == 0 {
        Seq::empty()
    } else {
        seq![pos] + entry_starts(b, pos + b[pos + 1], end)
    }
}

/// The walk over the entries ends: no entry before `end` has length zero, and each
/// entry's length byte lies in the table.
pub open spec fn entries_ok(b: Seq<u8>, pos: int, end: int) -> bool
    decreases if pos < end {
        end - pos
    } else {
        0
    },
{
    pos >= end || (0 <= pos && pos + 1 < b.len() && b[pos + 1] > 0 && entries_ok(
        b,
        pos + b[pos + 1],
        end,
    ))
}

/// The bytes of the entries among `starts` of the kind numbered `code`, `size` bytes
/// each, in order.
pub open spec fn matching(b: Seq<u8>, starts: Seq<int>, code: u8, size: int) -> Seq<Seq<u8>>
    decreases starts.len(),
{
    if starts.len() == 0 {
        Seq::empty()
    } else {
        let rest = matching(b, starts.drop_last(), code, size);
        let s = starts.last();
        if b[s] == code {
            rest.push(b.subrange(s, s + size))
        } else {
            rest
        }
    }
}

/// The multiple APIC description table, by its bytes.
pub struct MADT {
    pub bytes: Vec<u8>,
}

impl MADT {
    /// The table's length, from its header.
    pub open spec fn spec_length(&self) -> int {
        le32(self.bytes@, 4)
    }

    /// The starts of the table's entries.
    pub open spec fn spec_entries(&self) -> Seq<int> {
        entry_starts(self.bytes@, MADT_ENTRIES_START as int, self.spec_length())
    }

    /// Where each entry starts, in order.
    pub fn iter_entries(&self) -> (r: Vec<usize>)
        requires
            self.bytes@.len() >= 8,
            self.bytes@.len() + 256 <= usize::MAX,
            self.spec_length() <= self.bytes@.len(),
            entries_ok(self.bytes@, MADT_ENTRIES_START as int, self.spec_length()),
        ensures
            r@.len() == self.spec_entries().len(),
            forall|i: int|
                0 <= i < r@.len() ==> r@[i] == self.spec_entries()[i] && r@[i] < self.bytes@.len(),
    {
        let b = self.bytes.as_slice();
        let end = read_le32(b, 4) as usize;
        let mut out: Vec<usize> = Vec::new();
        let mut current: usize = MADT_ENTRIES_START;
        while current < end
            invariant
                end == self.spec_length(),
                end <= b@.len(),
                b@.len() + 256 <= usize::MAX,
                b@ == self.bytes@,
                entries_ok(b@, current as int, end as int),
                self.spec_entries() == out@.map_values(|x: usize| x as int) + entry_starts(
                    b@,
                    current as int,
                    end as int,
                ),
                forall|i: int| 0 <= i < out@.len() ==> #[trigger] out@[i] < b@.len(),
            decreases if current < end {
                end - current
            } else {
                0
            },
        {
            let length = b[current + 1];
            let ghost old_out = out@;
            out.push(current);
            proof {
                assert(entry_starts(b@, current as int, end as int) == seq![current as int]
                    + entry_starts(b@, current + length, end as int));
                assert(out@.map_values(|x: usize| x as int) =~= old_out.map_values(
                    |x: usize| x as int,
                ).push(current as int));
                assert(old_out.map_values(|x: usize| x as int) + entry_starts(
                    b@,
                    current as int,
                    end as int,
                ) =~= out@.map_values(|x: usize| x as int) + entry_starts(
                    b@,
                    current + length,
                    end as int,
                ));
            }
            current = current + length as usize;
        }
        proof {
            assert(entry_starts(b@, current as int, end as int) =~= Seq::<int>::empty());
            assert(self.spec_entries() =~= out@.map_values(|x: usize| x as int));
            assert forall|i: int| 0 <= i < out@.len() implies out@[i] == self.spec_entries()[i] by {
                assert(out@.map_values(|x: usize| x as int)[i] == out@[i] as int);
            }
        }
        out
    }

    /// The entries of kind `T`, read in order.
    pub fn get_entries<T: MADTEntry>(&self) -> (r: Vec<T>)
        requires
            self.bytes@.len() >= 8,
            self.bytes@.len() + 256 <= usize::MAX,
            self.spec_length() <= self.bytes@.len(),
            entries_ok(self.bytes@, MADT_ENTRIES_START as int, self.spec_length()),
            forall|i: int|
                0 <= i < self.spec_entries().len() ==> self.spec_entries()[i] + T::spec_size()
                    <= self.bytes@.len(),
        ensures
            r@ == matching(
                self.bytes@,
                self.spec_entries(),
                T::spec_entry_type().spec_code(),
                T::spec_size() as int,
            ).map_values(|e: Seq<u8>| T::spec_parse(e)),
    {
        let entries = self.iter_entries();
        let want = T::entry_type().code();
        let b = self.bytes.as_slice();
        let mut out: Vec<T> = Vec::new();
        let mut i: usize = 0;
        while i < entries.len()
            invariant
                b@ == self.bytes@,
                entries@.len() == self.spec_entries().len(),
                forall|k: int| 0 <= k < entries@.len() ==> entries@[k] == self.spec_entries()[k],
                forall|k: int|
                    0 <= k < self.spec_entries().len() ==> self.spec_entries()[k] + T::spec_size()
                        <= b@.len(),
                forall|k: int| 0 <= k < entries@.len() ==> entries@[k] < b@.len(),
                want == T::spec_entry_type().spec_code(),
                i <= entries@.len(),
                out@ == matching(
                    b@,
                    self.spec_entries().take(i as int),
                    want,
                    T::spec_size() as int,
                ).map_values(|e: Seq<u8>| T::spec_parse(e)),
            decreases entries@.len() - i,
        {
            let start = entries[i];
            let kind = b[start];
            assert(start + T::spec_size() <= b@.len());
            proof {
                assert(self.spec_entries().take(i + 1).drop_last() =~= self.spec_entries().take(
                    i as int,
                ));
            }
            if kind == want {
                let size = T::size();
                let part = &b[start..start + size];
                let ghost before = out@;
                out.push(T::from_bytes(part));
                proof {
                    assert(out@ =~= matching(
                        b@,
                        self.spec_entries().take(i + 1),
                        want,
                        T::spec_size() as int,
                    ).map_values(|e: Seq<u8>| T::spec_parse(e)));
                }
            }
            i = i + 1;
        }
        proof {
            assert(self.spec_entries().take(i as int) =~= self.spec_entries());
        }
        out
    }
}

} // verus!
