use crate::monos_kernel::interrupts::mem::VirtualAddress;
use vstd::prelude::*;

verus! {

/// The registers of the local APIC.
#[derive(Clone, Copy, PartialEq, Eq, Structural)]
pub enum LocalAPICField {
    Id,
    Version,
    TaskPriority,
    ArbitrationPriority,
    ProcessorPriority,
    EOI,
    RemoteRead,
    LogicalDestination,
    DestinationFormat,
    SpuriousInterruptVector,
    InService,
    TriggerMode,
    InterruptRequest,
    ErrorStatus,
    InterruptCommandLow,
    InterruptCommandHigh,
    TimerLVT,
    ThermalLVT,
    PerformanceCounterLVT,
    LINT0LVT,
    LINT1LVT,
    ErrorLVT,
    TimerInitialCount,
    TimerCurrentCount,
    TimerDivideConfig,
}

impl LocalAPICField {
    /// Each register's offset from the local APIC's base address.
    pub open spec fn spec_offset(self) -> u32 {
        match self {
            LocalAPICField::Id => 0x20,
            LocalAPICField::Version => 0x30,
            LocalAPICField::TaskPriority => 0x80,
            LocalAPICField::ArbitrationPriority => 0x90,
            LocalAPICField::ProcessorPriority => 0xA0,
            LocalAPICField::EOI => 0xB0,
            LocalAPICField::RemoteRead => 0xC0,
            LocalAPICField::LogicalDestination => 0xD0,
            LocalAPICField::DestinationFormat => 0xE0,
            LocalAPICField::SpuriousInterruptVector => 0xF0,
            LocalAPICField::InService => 0x100,
            LocalAPICField::TriggerMode => 0x180,
            LocalAPICField::InterruptRequest => 0x200,
            LocalAPICField::ErrorStatus => 0x280,
            LocalAPICField::InterruptCommandLow => 0x300,
            LocalAPICField::InterruptCommandHigh => 0x310,
            LocalAPICField::TimerLVT => 0x320,
            LocalAPICField::ThermalLVT => 0x330,
            LocalAPICField::PerformanceCounterLVT => 0x340,
            LocalAPICField::LINT0LVT => 0x350,
            LocalAPICField::LINT1LVT => 0x360,
            LocalAPICField::ErrorLVT => 0x370,
            LocalAPICField::TimerInitialCount => 0x380,
            LocalAPICField::TimerCurrentCount => 0x390,
            LocalAPICField::TimerDivideConfig => 0x3E0,
        }
    }

    pub fn offset(self) -> (r: u32)
        ensures
            r == self.spec_offset(),
    {
        match self {
            LocalAPICField::Id => 0x20,
            LocalAPICField::Version => 0x30,
            LocalAPICField::TaskPriority => 0x80,
            LocalAPICField::ArbitrationPriority => 0x90,
            LocalAPICField::ProcessorPriority => 0xA0,
            LocalAPICField::EOI => 0xB0,
            LocalAPICField::RemoteRead => 0xC0,
            LocalAPICField::LogicalDestination => 0xD0,
            LocalAPICField::DestinationFormat => 0xE0,
            LocalAPICField::SpuriousInterruptVector => 0xF0,
            LocalAPICField::InService => 0x100,
            LocalAPICField::TriggerMode => 0x180,
            LocalAPICField::InterruptRequest => 0x200,
            LocalAPICField::ErrorStatus => 0x280,
            LocalAPICField::InterruptCommandLow => 0x300,
            LocalAPICField::InterruptCommandHigh => 0x310,
            LocalAPICField::TimerLVT => 0x320,
            LocalAPICField::ThermalLVT => 0x330,
            LocalAPICField::PerformanceCounterLVT => 0x340,
            LocalAPICField::LINT0LVT => 0x350,
            LocalAPICField::LINT1LVT => 0x360,
            LocalAPICField::ErrorLVT => 0x370,
            LocalAPICField::TimerInitialCount => 0x380,
            LocalAPICField::TimerCurrentCount => 0x390,
            LocalAPICField::TimerDivideConfig => 0x3E0,
        }
    }
}

/// Enables the spurious interrupt vector.
pub const SPURIOUS_INTERRUPT_ENABLE: u32 = 0x100;
/// The timer fires periodically.
pub const TIMER_PERIODIC: u32 = 0x20000;

/// The value written to the spurious interrupt vector register: the vector, enabled.
pub fn spurious_vector_value(vector: u32) -> (r: u32)
    ensures
        r == vector | SPURIOUS_INTERRUPT_ENABLE,
{
    vector | SPURIOUS_INTERRUPT_ENABLE
}

/// The value written to the timer's local vector table entry: the vector, periodic.
pub fn timer_lvt_value(vector: u32) -> (r: u32)
    ensures
        r == vector | TIMER_PERIODIC,
{
    vector | TIMER_PERIODIC
}


/// The local APIC, by the address its registers are mapped at.
pub struct LocalAPIC {
    pub base_address: VirtualAddress,
}

impl LocalAPIC {
    /// The address of a register: the base address plus the register's offset.
    pub fn register_address(&self, field: LocalAPICField) -> (r: u64)
        requires
            self.base_address.0 + field.spec_offset() <= u64::MAX,
        ensures
            r == self.base_address.0 + field.spec_offset(),
    {
        self.base_address.as_u64() + field.offset() as u64
    }
}

} // verus!
