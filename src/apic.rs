//! Local APIC driver logic: register addressing in xAPIC and x2APIC mode, the
//! interrupt-command encoding, inter-processor interrupts, the timer and the
//! state kept for a soft reboot.
//!
//! The functions here decide what to read and write; the caller performs each
//! [`RegisterWrite`] on the hardware in order, and hands back what it reads.
use vstd::prelude::*;

verus! {

/// Number of writable registers saved for a soft reboot.
pub const NUM_WRITABLE_REGS: usize = 11;

/// Bit of `IA32_APIC_BASE` that enables the APIC.
pub const APIC_ENABLE: u64 = 0x800;

/// Bit of `IA32_APIC_BASE` that selects x2APIC mode.
pub const APIC_EXTENDED: u64 = 0x400;

/// Bit of `IA32_APIC_BASE` set on the bootstrap processor.
pub const APIC_BSP: u64 = 0x100;

/// Errors found in an interrupt command.
#[derive(Debug, Copy, Clone, PartialEq, Eq, Structural)]
pub enum Error {
    /// An inter-processor interrupt without a destination APIC ID.
    IpiWithoutApicId,
    /// No vector for a delivery mode other than NMI or INIT.
    UnsetVector,
    /// An APIC ID together with the all-including-self shorthand.
    ApicIdSetWithIncludingSelf,
    /// An APIC ID together with the all-excluding-self shorthand.
    ApicIdSetWithExcludingSelf,
}

/// The APIC registers, named by their xAPIC byte offset.
#[derive(Debug, Clone, Copy, PartialEq, Eq, Structural)]
pub enum Register {
    /// Local APIC ID (read only).
    Id,
    /// Local APIC version (read only).
    Version,
    /// Task priority (read/write).
    TaskPriority,
    /// Arbitration priority (read only).
    ArbitrationPriority,
    /// Processor priority (read only).
    ProcessorPriority,
    /// End of interrupt (write only; x2APIC accepts only zero).
    EndOfInterrupt,
    /// Logical destination.
    LogicalDestination,
    /// Spurious interrupt vector (read/write).
    SpuriousInterruptVector,
    /// In-service bits 31:0 (read only).
    InterruptInService0,
    /// In-service bits 63:32 (read only).
    InterruptInService1,
    /// In-service bits 95:64 (read only).
    InterruptInService2,
    /// In-service bits 127:96 (read only).
    InterruptInService3,
    /// In-service bits 159:128 (read only).
    InterruptInService4,
    /// In-service bits 191:160 (read only).
    InterruptInService5,
    /// In-service bits 223:192 (read only).
    InterruptInService6,
    /// In-service bits 255:224 (read only).
    InterruptInService7,
    /// Trigger-mode bits 31:0 (read only).
    TriggerMode0,
    /// Trigger-mode bits 63:32 (read only).
    TriggerMode1,
    /// Trigger-mode bits 95:64 (read only).
    TriggerMode2,
    /// Trigger-mode bits 127:96 (read only).
    TriggerMode3,
    /// Trigger-mode bits 159:128 (read only).
    TriggerMode4,
    /// Trigger-mode bits 191:160 (read only).
    TriggerMode5,
    /// Trigger-mode bits 223:192 (read only).
    TriggerMode6,
    /// Trigger-mode bits 255:224 (read only).
    TriggerMode7,
    /// Interrupt-request bits 31:0 (read only).
    InterruptRequest0,
    /// Interrupt-request bits 63:32 (read only).
    InterruptRequest1,
    /// Interrupt-request bits 95:64 (read only).
    InterruptRequest2,
    /// Interrupt-request bits 127:96 (read only).
    InterruptRequest3,
    /// Interrupt-request bits 159:128 (read only).
    InterruptRequest4,
    /// Interrupt-request bits 191:160 (read only).
    InterruptRequest5,
    /// Interrupt-request bits 223:192 (read only).
    InterruptRequest6,
    /// Interrupt-request bits 255:224 (read only).
    InterruptRequest7,
    /// Error status (read/write).
    ErrorStatus,
    /// LVT corrected machine-check interrupt (read/write).
    LvtCorrectedMachineCheckInterrupt,
    /// Interrupt command, low half (read/write).
    InterruptCommand,
    /// Interrupt command, high half (read/write).
    InterruptCommand2,
    /// LVT timer (read/write).
    LvtTimer,
    /// LVT thermal sensor (read/write).
    LvtThermalSensor,
    /// LVT performance monitoring (read/write).
    LvtPerformanceMonitoring,
    /// LVT LINT0 (read/write).
    LvtLint0,
    /// LVT LINT1 (read/write).
    LvtLint1,
    /// LVT error (read/write).
    LvtError,
    /// Timer initial count (read/write).
    TimerInitialCount,
    /// Timer current count (read only).
    TimerCurrentCount,
    /// Timer divide configuration (read/write).
    TimerDivideConfiguration,
}

impl Register {
    /// The register's byte offset in the xAPIC window.
    pub open spec fn spec_offset(self) -> u32 {
        match self {
            Register::Id => 0x20,
            Register::Version => 0x30,
            Register::TaskPriority => 0x80,
            Register::ArbitrationPriority => 0x90,
            Register::ProcessorPriority => 0xa0,
            Register::EndOfInterrupt => 0xb0,
            Register::LogicalDestination => 0xd0,
            Register::SpuriousInterruptVector => 0xf0,
            Register::InterruptInService0 => 0x100,
            Register::InterruptInService1 => 0x110,
            Register::InterruptInService2 => 0x120,
            Register::InterruptInService3 => 0x130,
            Register::InterruptInService4 => 0x140,
            Register::InterruptInService5 => 0x150,
            Register::InterruptInService6 => 0x160,
            Register::InterruptInService7 => 0x170,
            Register::TriggerMode0 => 0x180,
            Register::TriggerMode1 => 0x190,
            Register::TriggerMode2 => 0x1a0,
            Register::TriggerMode3 => 0x1b0,
            Register::TriggerMode4 => 0x1c0,
            Register::TriggerMode5 => 0x1d0,
            Register::TriggerMode6 => 0x1e0,
            Register::TriggerMode7 => 0x1f0,
            Register::InterruptRequest0 => 0x200,
            Register::InterruptRequest1 => 0x210,
            Register::InterruptRequest2 => 0x220,
            Register::InterruptRequest3 => 0x230,
            Register::InterruptRequest4 => 0x240,
            Register::InterruptRequest5 => 0x250,
            Register::InterruptRequest6 => 0x260,
            Register::InterruptRequest7 => 0x270,
            Register::ErrorStatus => 0x280,
            Register::LvtCorrectedMachineCheckInterrupt => 0x2f0,
            Register::InterruptCommand => 0x300,
            Register::InterruptCommand2 => 0x310,
            Register::LvtTimer => 0x320,
            Register::LvtThermalSensor => 0x330,
            Register::LvtPerformanceMonitoring => 0x340,
            Register::LvtLint0 => 0x350,
            Register::LvtLint1 => 0x360,
            Register::LvtError => 0x370,
            Register::TimerInitialCount => 0x380,
            Register::TimerCurrentCount => 0x390,
            Register::TimerDivideConfiguration => 0x3e0,
        }
    }

    /// The register's byte offset in the xAPIC window.
    pub fn offset(self) -> (r: u32)
        ensures
            r == self.spec_offset(),
    {
        match self {
            Register::Id => 0x20,
            Register::Version => 0x30,
            Register::TaskPriority => 0x80,
            Register::ArbitrationPriority => 0x90,
            Register::ProcessorPriority => 0xa0,
            Register::EndOfInterrupt => 0xb0,
            Register::LogicalDestination => 0xd0,
            Register::SpuriousInterruptVector => 0xf0,
            Register::InterruptInService0 => 0x100,
            Register::InterruptInService1 => 0x110,
            Register::InterruptInService2 => 0x120,
            Register::InterruptInService3 => 0x130,
            Register::InterruptInService4 => 0x140,
            Register::InterruptInService5 => 0x150,
            Register::InterruptInService6 => 0x160,
            Register::InterruptInService7 => 0x170,
            Register::TriggerMode0 => 0x180,
            Register::TriggerMode1 => 0x190,
            Register::TriggerMode2 => 0x1a0,
            Register::TriggerMode3 => 0x1b0,
            Register::TriggerMode4 => 0x1c0,
            Register::TriggerMode5 => 0x1d0,
            Register::TriggerMode6 => 0x1e0,
            Register::TriggerMode7 => 0x1f0,
            Register::InterruptRequest0 => 0x200,
            Register::InterruptRequest1 => 0x210,
            Register::InterruptRequest2 => 0x220,
            Register::InterruptRequest3 => 0x230,
            Register::InterruptRequest4 => 0x240,
            Register::InterruptRequest5 => 0x250,
            Register::InterruptRequest6 => 0x260,
            Register::InterruptRequest7 => 0x270,
            Register::ErrorStatus => 0x280,
            Register::LvtCorrectedMachineCheckInterrupt => 0x2f0,
            Register::InterruptCommand => 0x300,
            Register::InterruptCommand2 => 0x310,
            Register::LvtTimer => 0x320,
            Register::LvtThermalSensor => 0x330,
            Register::LvtPerformanceMonitoring => 0x340,
            Register::LvtLint0 => 0x350,
            Register::LvtLint1 => 0x360,
            Register::LvtError => 0x370,
            Register::TimerInitialCount => 0x380,
            Register::TimerCurrentCount => 0x390,
            Register::TimerDivideConfiguration => 0x3e0,
        }
    }
}

/// How the APIC is addressed.
#[derive(Debug, Clone, Copy, PartialEq, Eq, Structural)]
pub enum Mode {
    /// Registers sit in a 4 KiB memory-mapped window of `u32` slots.
    Apic,
    /// Registers are model-specific registers starting at `0x800`.
    X2Apic,
}

/// Where a register lives.
#[derive(Debug, Clone, Copy, PartialEq, Eq, Structural)]
pub enum Access {
    /// Slot of the `[u32; 1024]` xAPIC window.
    Mmio(u32),
    /// Model-specific register number.
    Msr(u32),
}

/// One write to perform: `value` goes to `target` (only its low 32 bits for a
/// window slot).
#[derive(Debug, Clone, Copy, PartialEq, Eq, Structural)]
pub struct RegisterWrite {
    /// Where to write.
    pub target: Access,
    /// What to write.
    pub value: u64,
}

/// Clock divider of the APIC timer.
#[derive(Debug, Clone, Copy, PartialEq, Eq, Structural)]
pub enum TimerDivideConfiguration {
    DivideBy2,
    DivideBy4,
    DivideBy8,
    DivideBy16,
    DivideBy32,
    DivideBy64,
    DivideBy128,
    DivideBy1,
}

impl TimerDivideConfiguration {
    /// Value of the divide-configuration register.
    pub open spec fn spec_bits(self) -> u64 {
        match self {
            TimerDivideConfiguration::DivideBy2 => 0b0000,
            TimerDivideConfiguration::DivideBy4 => 0b0001,
            TimerDivideConfiguration::DivideBy8 => 0b0010,
            TimerDivideConfiguration::DivideBy16 => 0b0011,
            TimerDivideConfiguration::DivideBy32 => 0b1000,
            TimerDivideConfiguration::DivideBy64 => 0b1001,
            TimerDivideConfiguration::DivideBy128 => 0b1010,
            TimerDivideConfiguration::DivideBy1 => 0b1011,
        }
    }

    /// Value of the divide-configuration register.
    pub fn bits(self) -> (r: u64)
        ensures
            r == self.spec_bits(),
    {
        match self {
            TimerDivideConfiguration::DivideBy2 => 0b0000,
            TimerDivideConfiguration::DivideBy4 => 0b0001,
            TimerDivideConfiguration::DivideBy8 => 0b0010,
            TimerDivideConfiguration::DivideBy16 => 0b0011,
            TimerDivideConfiguration::DivideBy32 => 0b1000,
            TimerDivideConfiguration::DivideBy64 => 0b1001,
            TimerDivideConfiguration::DivideBy128 => 0b1010,
            TimerDivideConfiguration::DivideBy1 => 0b1011,
        }
    }
}

/// Counting mode of the APIC timer, held in bits 17 and 18 of the LVT timer.
#[derive(Debug, Clone, Copy, PartialEq, Eq, Structural)]
pub enum TimerMode {
    /// Count down once and stop.
    OneShot,
    /// Reload the initial count each time it reaches zero.
    Periodic,
    /// Fire at a deadline held in `IA32_TSC_DEADLINE`.
    TscDeadline,
}

impl TimerMode {
    /// The mode's two-bit field value.
    pub open spec fn spec_bits(self) -> u64 {
        match self {
            TimerMode::OneShot => 0,
            TimerMode::Periodic => 1,
            TimerMode::TscDeadline => 2,
        }
    }

    /// The mode's two-bit field value.
    pub fn bits(self) -> (r: u64)
        ensures
            r == self.spec_bits(),
    {
        match self {
            TimerMode::OneShot => 0,
            TimerMode::Periodic => 1,
            TimerMode::TscDeadline => 2,
        }
    }
}

/// Type of inter-processor interrupt, bits 8 to 10 of the command.
#[derive(Debug, Copy, Clone, PartialEq, Eq, Structural)]
pub enum DeliveryMode {
    Fixed,
    LowestPriority,
    SystemManagementInterrupt,
    Reserved0,
    NonMaskableInterrupt,
    Init,
    StartUp,
    Reserved1,
}

impl DeliveryMode {
    /// The three-bit field value.
    pub open spec fn spec_bits(self) -> u64 {
        match self {
            DeliveryMode::Fixed => 0b000,
            DeliveryMode::LowestPriority => 0b001,
            DeliveryMode::SystemManagementInterrupt => 0b010,
            DeliveryMode::Reserved0 => 0b011,
            DeliveryMode::NonMaskableInterrupt => 0b100,
            DeliveryMode::Init => 0b101,
            DeliveryMode::StartUp => 0b110,
            DeliveryMode::Reserved1 => 0b111,
        }
    }

    /// The three-bit field value.
    pub fn bits(self) -> (r: u64)
        ensures
            r == self.spec_bits(),
    {
        match self {
            DeliveryMode::Fixed => 0b000,
            DeliveryMode::LowestPriority => 0b001,
            DeliveryMode::SystemManagementInterrupt => 0b010,
            DeliveryMode::Reserved0 => 0b011,
            DeliveryMode::NonMaskableInterrupt => 0b100,
            DeliveryMode::Init => 0b101,
            DeliveryMode::StartUp => 0b110,
            DeliveryMode::Reserved1 => 0b111,
        }
    }
}

/// Physical (0) or logical (1) destination, bit 11 of the command.
#[derive(Debug, Copy, Clone, PartialEq, Eq, Structural)]
pub enum DestinationMode {
    Physical,
    Logical,
}

impl DestinationMode {
    /// The one-bit field value.
    pub open spec fn spec_bits(self) -> u64 {
        match self {
            DestinationMode::Physical => 0,
            DestinationMode::Logical => 1,
        }
    }

    /// The one-bit field value.
    pub fn bits(self) -> (r: u64)
        ensures
            r == self.spec_bits(),
    {
        match self {
            DestinationMode::Physical => 0,
            DestinationMode::Logical => 1,
        }
    }
}

/// Whether the previous interrupt is still being sent, bit 12 of the command.
#[derive(Debug, Copy, Clone, PartialEq, Eq, Structural)]
pub enum DeliveryStatus {
    Idle,
    SendPending,
}

impl DeliveryStatus {
    /// The one-bit field value.
    pub open spec fn spec_bits(self) -> u64 {
        match self {
            DeliveryStatus::Idle => 0,
            DeliveryStatus::SendPending => 1,
        }
    }

    /// The one-bit field value.
    pub fn bits(self) -> (r: u64)
        ensures
            r == self.spec_bits(),
    {
        match self {
            DeliveryStatus::Idle => 0,
            DeliveryStatus::SendPending => 1,
        }
    }
}

/// Assertion level, bit 14 of the command.
#[derive(Debug, Copy, Clone, PartialEq, Eq, Structural)]
pub enum Level {
    DeAssert,
    Assert,
}

impl Level {
    /// The one-bit field value.
    pub open spec fn spec_bits(self) -> u64 {
        match self {
            Level::DeAssert => 0,
            Level::Assert => 1,
        }
    }

    /// The one-bit field value.
    pub fn bits(self) -> (r: u64)
        ensures
            r == self.spec_bits(),
    {
        match self {
            Level::DeAssert => 0,
            Level::Assert => 1,
        }
    }
}

/// Edge or level trigger, bit 15 of the command.
#[derive(Debug, Copy, Clone, PartialEq, Eq, Structural)]
pub enum TriggerMode {
    Edge,
    Level,
}

impl TriggerMode {
    /// The one-bit field value.
    pub open spec fn spec_bits(self) -> u64 {
        match self {
            TriggerMode::Edge => 0,
            TriggerMode::Level => 1,
        }
    }

    /// The one-bit field value.
    pub fn bits(self) -> (r: u64)
        ensures
            r == self.spec_bits(),
    {
        match self {
            TriggerMode::Edge => 0,
            TriggerMode::Level => 1,
        }
    }
}

/// Destination shorthand, bits 18 and 19 of the command.
#[derive(Debug, Copy, Clone, PartialEq, Eq, Structural)]
pub enum DestinationShorthand {
    /// The destination is given in the destination field.
    NoShorthand,
    Self_,
    AllIncludingSelf,
    AllExcludingSelf,
}

impl DestinationShorthand {
    /// The two-bit field value.
    pub open spec fn spec_bits(self) -> u64 {
        match self {
            DestinationShorthand::NoShorthand => 0,
            DestinationShorthand::Self_ => 1,
            DestinationShorthand::AllIncludingSelf => 2,
            DestinationShorthand::AllExcludingSelf => 3,
        }
    }

    /// The two-bit field value.
    pub fn bits(self) -> (r: u64)
        ensures
            r == self.spec_bits(),
    {
        match self {
            DestinationShorthand::NoShorthand => 0,
            DestinationShorthand::Self_ => 1,
            DestinationShorthand::AllIncludingSelf => 2,
            DestinationShorthand::AllExcludingSelf => 3,
        }
    }
}

/// An interrupt command, the logical content of the interrupt command register.
#[derive(Debug, Copy, Clone, PartialEq, Eq, Structural)]
pub struct InterruptCommand {
    /// Type of interrupt to send.
    pub delivery_mode: DeliveryMode,
    /// Physical or logical destination.
    pub destination_mode: DestinationMode,
    /// Whether a previous interrupt is still being sent.
    pub delivery_status: DeliveryStatus,
    /// Assert or de-assert.
    pub level: Level,
    /// Edge or level trigger.
    pub trigger_mode: TriggerMode,
    /// Shorthand naming the destination processors.
    pub destination_shorthand: DestinationShorthand,
    /// Vector of the interrupt.
    pub vector: Option<u32>,
    /// APIC ID of the destination processor.
    pub apic_id: Option<u32>,
}

impl Default for InterruptCommand {
    fn default() -> (r: InterruptCommand)
        ensures
            r == InterruptCommand::empty(),
    {
        InterruptCommand {
            delivery_mode: DeliveryMode::Fixed,
            destination_mode: DestinationMode::Physical,
            delivery_status: DeliveryStatus::Idle,
            level: Level::DeAssert,
            trigger_mode: TriggerMode::Edge,
            destination_shorthand: DestinationShorthand::NoShorthand,
            vector: None,
            apic_id: None,
        }
    }
}

/// Value of the destination field, bits 32 to 63 of the command: the ID in bits
/// 24 to 31 in xAPIC mode, the whole ID in x2APIC mode.
pub open spec fn destination_field(id: u32, mode: Mode) -> u32 {
    match mode {
        Mode::Apic => (id & 0xff) << 24u32,
        Mode::X2Apic => id,
    }
}

/// The 64-bit interrupt command register value of `c` in `mode`.
pub open spec fn icr_value(c: InterruptCommand, mode: Mode) -> u64 {
    let id = match c.apic_id {
        Some(i) => i,
        None => 0,
    };
    let vector = match c.vector {
        Some(v) => v,
        None => 0,
    };
    ((destination_field(id, mode) as u64) << 32u64) | (c.destination_shorthand.spec_bits() << 18u64)
        | (c.trigger_mode.spec_bits() << 15u64) | (c.level.spec_bits() << 14u64) | (
    c.delivery_status.spec_bits() << 12u64) | (c.destination_mode.spec_bits() << 11u64) | (
    c.delivery_mode.spec_bits() << 8u64) | ((vector & 0xff) as u64)
}

proof fn lemma_icr_fields(
    dest: u64,
    sh: u64,
    tr: u64,
    lv: u64,
    st: u64,
    dm: u64,
    del: u64,
    vec: u64,
)
    by (bit_vector)
    requires
        dest <= 0xffff_ffff,
        sh < 4,
        tr < 2,
        lv < 2,
        st < 2,
        dm < 2,
        del < 8,
        vec < 256,
    ensures
        ({
            let r = (dest << 32u64) | (sh << 18u64) | (tr << 15u64) | (lv << 14u64) | (st << 12u64) | (
            dm << 11u64) | (del << 8u64) | vec;
            &&& r >> 32u64 == dest
            &&& (r >> 18u64) & 3 == sh
            &&& (r >> 15u64) & 1 == tr
            &&& (r >> 14u64) & 1 == lv
            &&& (r >> 12u64) & 1 == st
            &&& (r >> 11u64) & 1 == dm
            &&& (r >> 8u64) & 7 == del
            &&& r & 0xff == vec
        }),
{
}

proof fn lemma_byte(x: u32)
    by (bit_vector)
    ensures
        x & 0xff < 256,
{
}

impl InterruptCommand {
    /// The command that `default` builds: fixed, physical, idle, de-asserted,
    /// edge, no shorthand, no vector, no destination.
    pub open spec fn empty() -> InterruptCommand {
        InterruptCommand {
            delivery_mode: DeliveryMode::Fixed,
            destination_mode: DestinationMode::Physical,
            delivery_status: DeliveryStatus::Idle,
            level: Level::DeAssert,
            trigger_mode: TriggerMode::Edge,
            destination_shorthand: DestinationShorthand::NoShorthand,
            vector: None,
            apic_id: None,
        }
    }

    /// The command is consistent: a vector is given unless the delivery mode is NMI
    /// or INIT, and no destination ID is given with an all-processors shorthand.
    pub open spec fn well_formed(self) -> bool {
        &&& (self.vector is Some || self.delivery_mode == DeliveryMode::NonMaskableInterrupt
            || self.delivery_mode == DeliveryMode::Init)
        &&& (self.destination_shorthand == DestinationShorthand::AllIncludingSelf
            ==> self.apic_id is None)
        &&& (self.destination_shorthand == DestinationShorthand::AllExcludingSelf
            ==> self.apic_id is None)
    }

    /// Set the delivery mode.
    pub fn delivery_mode(self, val: DeliveryMode) -> (r: Self)
        ensures
            r == (Self { delivery_mode: val, ..self }),
    {
        Self { delivery_mode: val, ..self }
    }

    /// Set the destination mode.
    pub fn destination_mode(self, val: DestinationMode) -> (r: Self)
        ensures
            r == (Self { destination_mode: val, ..self }),
    {
        Self { destination_mode: val, ..self }
    }

    /// Set the delivery status.
    pub fn delivery_status(self, val: DeliveryStatus) -> (r: Self)
        ensures
            r == (Self { delivery_status: val, ..self }),
    {
        Self { delivery_status: val, ..self }
    }

    /// Set the level.
    pub fn level(self, val: Level) -> (r: Self)
        ensures
            r == (Self { level: val, ..self }),
    {
        Self { level: val, ..self }
    }

    /// Set the trigger mode.
    pub fn trigger_mode(self, val: TriggerMode) -> (r: Self)
        ensures
            r == (Self { trigger_mode: val, ..self }),
    {
        Self { trigger_mode: val, ..self }
    }

    /// Set the destination shorthand.
    pub fn destination_shorthand(self, val: DestinationShorthand) -> (r: Self)
        ensures
            r == (Self { destination_shorthand: val, ..self }),
    {
        Self { destination_shorthand: val, ..self }
    }

    /// Set the vector.
    pub fn vector(self, val: u32) -> (r: Self)
        ensures
            r == (Self { vector: Some(val), ..self }),
    {
        Self { vector: Some(val), ..self }
    }

    /// Set the destination APIC ID.
    pub fn apic_id(self, val: u32) -> (r: Self)
        ensures
            r == (Self { apic_id: Some(val), ..self }),
    {
        Self { apic_id: Some(val), ..self }
    }

    /// The first inconsistency of the command, if any.
    pub open spec fn problem(self) -> Option<Error> {
        if !(self.vector is Some || self.delivery_mode == DeliveryMode::NonMaskableInterrupt
            || self.delivery_mode == DeliveryMode::Init) {
            Some(Error::UnsetVector)
        } else if self.apic_id is Some && self.destination_shorthand
            == DestinationShorthand::AllIncludingSelf {
            Some(Error::ApicIdSetWithIncludingSelf)
        } else if self.apic_id is Some && self.destination_shorthand
            == DestinationShorthand::AllExcludingSelf {
            Some(Error::ApicIdSetWithExcludingSelf)
        } else {
            None
        }
    }

    /// Report the first inconsistency of the command.
    pub fn check(&self) -> (r: Result<(), Error>)
        ensures
            r == match self.problem() {
                Some(e) => Err::<(), Error>(e),
                None => Ok(()),
            },
            r is Ok <==> self.well_formed(),
    {
        if self.vector.is_none() && self.delivery_mode != DeliveryMode::NonMaskableInterrupt
            && self.delivery_mode != DeliveryMode::Init {
            return Err(Error::UnsetVector);
        }
        if self.apic_id.is_some() {
            if self.destination_shorthand == DestinationShorthand::AllIncludingSelf {
                return Err(Error::ApicIdSetWithIncludingSelf);
            }
            if self.destination_shorthand == DestinationShorthand::AllExcludingSelf {
                return Err(Error::ApicIdSetWithExcludingSelf);
            }
        }
        Ok(())
    }

    /// The 64-bit register value of the command in `mode`. The destination ID sits
    /// in bits 56 to 63 in xAPIC mode and in bits 32 to 63 in x2APIC mode; only the
    /// low eight bits of the vector are used.
    pub fn raw(&self, mode: &Mode) -> (r: u64)
        requires
            self.well_formed(),
        ensures
            r == icr_value(*self, *mode),
            r >> 32u64 == destination_field(
                match self.apic_id {
                    Some(i) => i,
                    None => 0,
                },
                *mode,
            ) as u64,
            (r >> 18u64) & 3 == self.destination_shorthand.spec_bits(),
            (r >> 15u64) & 1 == self.trigger_mode.spec_bits(),
            (r >> 14u64) & 1 == self.level.spec_bits(),
            (r >> 12u64) & 1 == self.delivery_status.spec_bits(),
            (r >> 11u64) & 1 == self.destination_mode.spec_bits(),
            (r >> 8u64) & 7 == self.delivery_mode.spec_bits(),
            r & 0xff == (match self.vector {
                Some(v) => v,
                None => 0,
            } & 0xff) as u64,
    {
        let id: u32 = match self.apic_id {
            Some(i) => i,
            None => 0,
        };
        let vector: u32 = match self.vector {
            Some(v) => v,
            None => 0,
        };
        let dest: u32 = match mode {
            Mode::Apic => (id & 0xff) << 24u32,
            Mode::X2Apic => id,
        };
        proof {
            lemma_byte(vector);
            lemma_icr_fields(
                dest as u64,
                self.destination_shorthand.spec_bits(),
                self.trigger_mode.spec_bits(),
                self.level.spec_bits(),
                self.delivery_status.spec_bits(),
                self.destination_mode.spec_bits(),
                self.delivery_mode.spec_bits(),
                (vector & 0xff) as u64,
            );
        }
        ((dest as u64) << 32u64) | (self.destination_shorthand.bits() << 18u64) | (
        self.trigger_mode.bits() << 15u64) | (self.level.bits() << 14u64) | (
        self.delivery_status.bits() << 12u64) | (self.destination_mode.bits() << 11u64) | (
        self.delivery_mode.bits() << 8u64) | ((vector & 0xff) as u64)
    }
}

/// The registers saved before and restored on a soft reboot, in order.
pub open spec fn spec_writable_registers() -> Seq<Register> {
    seq![
        Register::TaskPriority,
        Register::SpuriousInterruptVector,
        Register::LvtCorrectedMachineCheckInterrupt,
        Register::LvtTimer,
        Register::LvtThermalSensor,
        Register::LvtPerformanceMonitoring,
        Register::LvtLint0,
        Register::LvtLint1,
        Register::LvtError,
        Register::TimerInitialCount,
        Register::TimerDivideConfiguration,
    ]
}

/// The writable registers to save for a soft reboot.
pub fn writable_registers() -> (r: [Register; 11])
    ensures
        r@ == spec_writable_registers(),
{
    let r = [
        Register::TaskPriority,
        Register::SpuriousInterruptVector,
        Register::LvtCorrectedMachineCheckInterrupt,
        Register::LvtTimer,
        Register::LvtThermalSensor,
        Register::LvtPerformanceMonitoring,
        Register::LvtLint0,
        Register::LvtLint1,
        Register::LvtError,
        Register::TimerInitialCount,
        Register::TimerDivideConfiguration,
    ];
    assert(r@ =~= spec_writable_registers());
    r
}

/// Where `reg` lives in `mode`.
pub open spec fn access_of(mode: Mode, reg: Register) -> Access {
    match mode {
        Mode::Apic => Access::Mmio(reg.spec_offset() / 4),
        Mode::X2Apic => Access::Msr(0x800 | (reg.spec_offset() >> 4u32)),
    }
}

/// A write of `value` to `reg` in `mode`.
pub open spec fn write_of(mode: Mode, reg: Register, value: u32) -> RegisterWrite {
    RegisterWrite { target: access_of(mode, reg), value: value as u64 }
}

/// The writes that send the command register value `value` in `mode`: in xAPIC
/// mode the high half first and then the low half, whose write sends the
/// interrupt; in x2APIC mode one 64-bit write.
pub open spec fn icr_writes(mode: Mode, value: u64) -> Seq<RegisterWrite> {
    match mode {
        Mode::Apic => seq![
            RegisterWrite { target: Access::Mmio(0xc4u32), value: value >> 32u64 },
            RegisterWrite { target: Access::Mmio(0xc0u32), value: value & 0xffff_ffff },
        ],
        Mode::X2Apic => seq![RegisterWrite { target: Access::Msr(0x830u32), value }],
    }
}

/// INIT, asserted, to `apic_id`.
pub open spec fn init_command(apic_id: u32) -> InterruptCommand {
    InterruptCommand {
        delivery_mode: DeliveryMode::Init,
        level: Level::Assert,
        apic_id: Some(apic_id),
        vector: Some(0),
        ..InterruptCommand::empty()
    }
}

/// INIT, asserted, to every other processor.
pub open spec fn init_all_command() -> InterruptCommand {
    InterruptCommand {
        delivery_mode: DeliveryMode::Init,
        level: Level::Assert,
        destination_shorthand: DestinationShorthand::AllExcludingSelf,
        ..InterruptCommand::empty()
    }
}

/// The start-up vector of the real-mode entry point `entry_point`.
pub open spec fn sipi_vector(entry_point: u32) -> u32 {
    (entry_point >> 12u32) & 0xff
}

/// Start-up IPI, asserted, to `apic_id`, starting at `entry_point`.
pub open spec fn sipi_command(apic_id: u32, entry_point: u32) -> InterruptCommand {
    InterruptCommand {
        delivery_mode: DeliveryMode::StartUp,
        level: Level::Assert,
        apic_id: Some(apic_id),
        vector: Some(sipi_vector(entry_point)),
        ..InterruptCommand::empty()
    }
}

/// Start-up IPI, asserted, to every other processor, starting at `entry_point`.
pub open spec fn sipi_all_command(entry_point: u32) -> InterruptCommand {
    InterruptCommand {
        delivery_mode: DeliveryMode::StartUp,
        level: Level::Assert,
        destination_shorthand: DestinationShorthand::AllExcludingSelf,
        vector: Some(sipi_vector(entry_point)),
        ..InterruptCommand::empty()
    }
}

/// NMI, asserted, to `apic_id`.
pub open spec fn nmi_command(apic_id: u32) -> InterruptCommand {
    InterruptCommand {
        delivery_mode: DeliveryMode::NonMaskableInterrupt,
        level: Level::Assert,
        apic_id: Some(apic_id),
        ..InterruptCommand::empty()
    }
}

/// NMI, asserted, to every other processor.
pub open spec fn nmi_all_command() -> InterruptCommand {
    InterruptCommand {
        delivery_mode: DeliveryMode::NonMaskableInterrupt,
        level: Level::Assert,
        destination_shorthand: DestinationShorthand::AllExcludingSelf,
        ..InterruptCommand::empty()
    }
}

/// The writes that program a periodic timer on `vector`.
pub open spec fn timer_writes(mode: Mode, vector: u8) -> Seq<RegisterWrite> {
    seq![
        write_of(mode, Register::TimerInitialCount, 0),
        write_of(mode, Register::TimerDivideConfiguration, 0),
        write_of(mode, Register::LvtTimer, (0x2_0000u32 | vector as u32)),
        write_of(mode, Register::TimerInitialCount, 10_000_000),
    ]
}

/// APIC and legacy PIC state captured at start-up, restored on a soft reboot.
#[derive(Debug, Clone, Copy)]
pub struct ResettableState {
    /// Value to restore to `IA32_APIC_BASE`: the value found, with the x2APIC bit
    /// added when that mode was taken.
    pub apic_base: u64,
    /// Saved writable registers and their values.
    pub registers: [Option<(Register, u32)>; 11],
    /// Original primary PIC interrupt mask.
    pub primary_pic_interrupt_mask: u8,
    /// Original secondary PIC interrupt mask.
    pub secondary_pic_interrupt_mask: u8,
}

/// The local APIC of the running processor.
#[derive(Debug, Clone, Copy)]
pub struct Apic {
    /// How the registers are addressed.
    pub mode: Mode,
    /// State to restore on a soft reboot.
    pub original_state: ResettableState,
    /// The processor is the bootstrap processor.
    pub is_bsp: bool,
}

impl Apic {
    /// The APIC for the register window at `base`, given the current value of
    /// `IA32_APIC_BASE`, whether the processor has x2APIC, and the legacy PIC masks.
    /// Also returns the value to write to `IA32_APIC_BASE`: `base` with the enable
    /// bit, the bootstrap bit kept, and the x2APIC bit when available.
    pub fn new(
        base: u64,
        apic_base_msr: u64,
        has_x2apic: bool,
        primary_pic_interrupt_mask: u8,
        secondary_pic_interrupt_mask: u8,
    ) -> (r: (Apic, u64))
        requires
            base > 0,
            base == base & 0xffff_f000,
        ensures
            r.0.mode == if has_x2apic {
                Mode::X2Apic
            } else {
                Mode::Apic
            },
            r.0.is_bsp == (apic_base_msr & APIC_BSP != 0),
            r.0.original_state.apic_base == apic_base_msr | if has_x2apic {
                APIC_EXTENDED
            } else {
                0
            },
            forall|i: int| 0 <= i < 11 ==> r.0.original_state.registers@[i] is None,
            r.0.original_state.primary_pic_interrupt_mask == primary_pic_interrupt_mask,
            r.0.original_state.secondary_pic_interrupt_mask == secondary_pic_interrupt_mask,
            r.1 == base | APIC_ENABLE | (apic_base_msr & APIC_BSP) | if has_x2apic {
                APIC_EXTENDED
            } else {
                0
            },
    {
        let is_bsp = apic_base_msr & APIC_BSP != 0;
        let new_base = base | APIC_ENABLE | (apic_base_msr & APIC_BSP) | if has_x2apic {
            APIC_EXTENDED
        } else {
            0
        };
        let restore = apic_base_msr | if has_x2apic {
            APIC_EXTENDED
        } else {
            0
        };
        let mode = if has_x2apic {
            Mode::X2Apic
        } else {
            Mode::Apic
        };
        let original_state = ResettableState {
            apic_base: restore,
            registers: [None, None, None, None, None, None, None, None, None, None, None],
            primary_pic_interrupt_mask,
            secondary_pic_interrupt_mask,
        };
        (Apic { mode, original_state, is_bsp }, new_base)
    }

    /// Record the values read from the writable registers, in the order of
    /// [`writable_registers`].
    pub fn save_state(&mut self, values: [u32; 11])
        ensures
            final(self).mode == old(self).mode,
            final(self).is_bsp == old(self).is_bsp,
            final(self).original_state.apic_base == old(self).original_state.apic_base,
            final(self).original_state.primary_pic_interrupt_mask == old(
                self,
            ).original_state.primary_pic_interrupt_mask,
            final(self).original_state.secondary_pic_interrupt_mask == old(
                self,
            ).original_state.secondary_pic_interrupt_mask,
            forall|i: int|
                0 <= i < 11 ==> #[trigger] final(self).original_state.registers@[i] == Some(
                    (spec_writable_registers()[i], values@[i]),
                ),
    {
        let regs = writable_registers();
        let mut i: usize = 0;
        while i < 11
            invariant
                i <= 11,
                regs@ == spec_writable_registers(),
                self.mode == old(self).mode,
                self.is_bsp == old(self).is_bsp,
                self.original_state.apic_base == old(self).original_state.apic_base,
                self.original_state.primary_pic_interrupt_mask == old(
                    self,
                ).original_state.primary_pic_interrupt_mask,
                self.original_state.secondary_pic_interrupt_mask == old(
                    self,
                ).original_state.secondary_pic_interrupt_mask,
                forall|k: int|
                    0 <= k < i ==> #[trigger] self.original_state.registers@[k] == Some(
                        (spec_writable_registers()[k], values@[k]),
                    ),
            decreases 11 - i,
        {
            self.original_state.registers[i] = Some((regs[i], values[i]));
            i += 1;
        }
    }

    /// The register number of `reg` in the current mode: its byte offset in xAPIC
    /// mode, its model-specific register in x2APIC mode.
    pub fn get_register(&self, reg: Register) -> (r: u32)
        ensures
            r == match self.mode {
                Mode::X2Apic => 0x800 | (reg.spec_offset() >> 4u32),
                Mode::Apic => reg.spec_offset(),
            },
    {
        let val = reg.offset();
        match self.mode {
            Mode::X2Apic => 0x800 | (val >> 4u32),
            Mode::Apic => val,
        }
    }

    /// Where to read `reg`.
    pub fn read(&self, reg: Register) -> (r: Access)
        ensures
            r == access_of(self.mode, reg),
    {
        let val = self.get_register(reg);
        match self.mode {
            Mode::Apic => Access::Mmio(val / 4),
            Mode::X2Apic => Access::Msr(val),
        }
    }

    /// The write of `val` to `reg`.
    pub fn write(&self, reg: Register, val: u32) -> (r: RegisterWrite)
        ensures
            r == write_of(self.mode, reg, val),
    {
        RegisterWrite { target: self.read(reg), value: val as u64 }
    }

    /// The APIC ID held in `raw`, the value read from the ID register: bits 24 to 31
    /// in xAPIC mode, the whole value in x2APIC mode.
    pub fn id(&self, raw: u32) -> (r: u32)
        ensures
            r == match self.mode {
                Mode::Apic => (raw >> 24u32) & 0xff,
                Mode::X2Apic => raw,
            },
    {
        match self.mode {
            Mode::Apic => (raw >> 24u32) & 0xff,
            Mode::X2Apic => raw,
        }
    }

    /// Where to read the eight in-service words.
    pub fn in_service(&self) -> (r: [Access; 8])
        ensures
            r@ == seq![
                access_of(self.mode, Register::InterruptInService0),
                access_of(self.mode, Register::InterruptInService1),
                access_of(self.mode, Register::InterruptInService2),
                access_of(self.mode, Register::InterruptInService3),
                access_of(self.mode, Register::InterruptInService4),
                access_of(self.mode, Register::InterruptInService5),
                access_of(self.mode, Register::InterruptInService6),
                access_of(self.mode, Register::InterruptInService7),
            ],
    {
        let r = [
            self.read(Register::InterruptInService0),
            self.read(Register::InterruptInService1),
            self.read(Register::InterruptInService2),
            self.read(Register::InterruptInService3),
            self.read(Register::InterruptInService4),
            self.read(Register::InterruptInService5),
            self.read(Register::InterruptInService6),
            self.read(Register::InterruptInService7),
        ];
        assert(r@ =~= seq![
            access_of(self.mode, Register::InterruptInService0),
            access_of(self.mode, Register::InterruptInService1),
            access_of(self.mode, Register::InterruptInService2),
            access_of(self.mode, Register::InterruptInService3),
            access_of(self.mode, Register::InterruptInService4),
            access_of(self.mode, Register::InterruptInService5),
            access_of(self.mode, Register::InterruptInService6),
            access_of(self.mode, Register::InterruptInService7),
        ]);
        r
    }

    /// Where to read the eight interrupt-request words.
    pub fn interrupt_request(&self) -> (r: [Access; 8])
        ensures
            r@ == seq![
                access_of(self.mode, Register::InterruptRequest0),
                access_of(self.mode, Register::InterruptRequest1),
                access_of(self.mode, Register::InterruptRequest2),
                access_of(self.mode, Register::InterruptRequest3),
                access_of(self.mode, Register::InterruptRequest4),
                access_of(self.mode, Register::InterruptRequest5),
                access_of(self.mode, Register::InterruptRequest6),
                access_of(self.mode, Register::InterruptRequest7),
            ],
    {
        let r = [
            self.read(Register::InterruptRequest0),
            self.read(Register::InterruptRequest1),
            self.read(Register::InterruptRequest2),
            self.read(Register::InterruptRequest3),
            self.read(Register::InterruptRequest4),
            self.read(Register::InterruptRequest5),
            self.read(Register::InterruptRequest6),
            self.read(Register::InterruptRequest7),
        ];
        assert(r@ =~= seq![
            access_of(self.mode, Register::InterruptRequest0),
            access_of(self.mode, Register::InterruptRequest1),
            access_of(self.mode, Register::InterruptRequest2),
            access_of(self.mode, Register::InterruptRequest3),
            access_of(self.mode, Register::InterruptRequest4),
            access_of(self.mode, Register::InterruptRequest5),
            access_of(self.mode, Register::InterruptRequest6),
            access_of(self.mode, Register::InterruptRequest7),
        ]);
        r
    }

    /// Whether an end-of-interrupt is still owed: some in-service or
    /// interrupt-request word read back non-zero.
    pub fn needs_eoi(&self, in_service: [u32; 8], requests: [u32; 8]) -> (r: bool)
        ensures
            r == exists|i: int| 0 <= i < 8 && (in_service@[i] != 0 || requests@[i] != 0),
    {
        let mut i: usize = 0;
        while i < 8
            invariant
                i <= 8,
                forall|k: int| 0 <= k < i ==> in_service@[k] == 0 && requests@[k] == 0,
            decreases 8 - i,
        {
            if in_service[i] != 0 || requests[i] != 0 {
                return true;
            }
            i += 1;
        }
        false
    }

    /// Where to read the timer's current count.
    pub fn current_timer(&self) -> (r: Access)
        ensures
            r == access_of(self.mode, Register::TimerCurrentCount),
    {
        self.read(Register::TimerCurrentCount)
    }

    /// The end-of-interrupt write; it writes zero, the only value x2APIC accepts.
    pub fn end_of_interrupt(&self) -> (r: RegisterWrite)
        ensures
            r == write_of(self.mode, Register::EndOfInterrupt, 0),
    {
        self.write(Register::EndOfInterrupt, 0)
    }

    /// Enable the APIC in software with spurious interrupts on `vector`.
    pub fn enable_spurious_interrupt(&self, vector: u8) -> (r: RegisterWrite)
        ensures
            r == write_of(self.mode, Register::SpuriousInterruptVector, 0x100u32 | vector as u32),
    {
        self.write(Register::SpuriousInterruptVector, 0x100u32 | vector as u32)
    }

    /// The writes that send `val`.
    pub fn write_command_register(&self, val: InterruptCommand) -> (r: Vec<RegisterWrite>)
        requires
            val.well_formed(),
        ensures
            r@ == icr_writes(self.mode, icr_value(val, self.mode)),
    {
        let raw = val.raw(&self.mode);
        let mut out: Vec<RegisterWrite> = Vec::new();
        match self.mode {
            Mode::Apic => {
                out.push(RegisterWrite { target: Access::Mmio(0xc4u32), value: raw >> 32u64 });
                out.push(RegisterWrite { target: Access::Mmio(0xc0u32), value: raw & 0xffff_ffff });
            },
            Mode::X2Apic => {
                out.push(RegisterWrite { target: Access::Msr(0x830u32), value: raw });
            },
        }
        assert(out@ =~= icr_writes(self.mode, icr_value(val, self.mode)));
        out
    }

    /// The writes that send `interrupt` to the processor it names.
    pub fn inter_process_interrupt(&self, interrupt: InterruptCommand) -> (r: Result<
        Vec<RegisterWrite>,
        Error,
    >)
        ensures
            match r {
                Ok(w) => interrupt.apic_id is Some && interrupt.well_formed() && w@ == icr_writes(
                    self.mode,
                    icr_value(interrupt, self.mode),
                ),
                Err(e) => if interrupt.apic_id is None {
                    e == Error::IpiWithoutApicId
                } else {
                    !interrupt.well_formed() && interrupt.problem() == Some(e)
                },
            },
    {
        if interrupt.apic_id.is_none() {
            return Err(Error::IpiWithoutApicId);
        }
        match interrupt.check() {
            Ok(()) => Ok(self.write_command_register(interrupt)),
            Err(e) => Err(e),
        }
    }

    /// Send INIT to every other processor.
    pub fn init_all(&self) -> (r: Vec<RegisterWrite>)
        ensures
            r@ == icr_writes(self.mode, icr_value(init_all_command(), self.mode)),
    {
        let cmd = InterruptCommand::default().delivery_mode(DeliveryMode::Init).level(
            Level::Assert,
        ).destination_shorthand(DestinationShorthand::AllExcludingSelf);
        self.write_command_register(cmd)
    }

    /// Send INIT to `apic_id`.
    pub fn init_id(&self, apic_id: u32) -> (r: Result<Vec<RegisterWrite>, Error>)
        ensures
            r is Ok,
            r matches Ok(w) && w@ == icr_writes(self.mode, icr_value(init_command(apic_id), self.mode)),
    {
        let cmd = InterruptCommand::default().delivery_mode(DeliveryMode::Init).level(
            Level::Assert,
        ).apic_id(apic_id).vector(0);
        assert(cmd == init_command(apic_id));
        self.inter_process_interrupt(cmd)
    }

    /// Send a start-up IPI to every other processor, starting them at the real-mode
    /// address `entry_point`, which must have the form `0x000V_V000`.
    pub fn sipi_all(&self, entry_point: u32) -> (r: Vec<RegisterWrite>)
        requires
            entry_point & 0xfff0_0fff == 0,
        ensures
            r@ == icr_writes(self.mode, icr_value(sipi_all_command(entry_point), self.mode)),
    {
        let vector = (entry_point >> 12u32) & 0xff;
        let cmd = InterruptCommand::default().delivery_mode(DeliveryMode::StartUp).level(
            Level::Assert,
        ).destination_shorthand(DestinationShorthand::AllExcludingSelf).vector(vector);
        assert(cmd == sipi_all_command(entry_point));
        self.write_command_register(cmd)
    }

    /// Send a start-up IPI to `apic_id`, starting it at the real-mode address
    /// `entry_point`, which must have the form `0x000V_V000`.
    pub fn sipi_id(&self, apic_id: u32, entry_point: u32) -> (r: Result<Vec<RegisterWrite>, Error>)
        requires
            entry_point & 0xfff0_0fff == 0,
        ensures
            r is Ok,
            r matches Ok(w) && w@ == icr_writes(
                self.mode,
                icr_value(sipi_command(apic_id, entry_point), self.mode),
            ),
    {
        let vector = (entry_point >> 12u32) & 0xff;
        let cmd = InterruptCommand::default().delivery_mode(DeliveryMode::StartUp).level(
            Level::Assert,
        ).apic_id(apic_id).vector(vector);
        assert(cmd == sipi_command(apic_id, entry_point));
        self.inter_process_interrupt(cmd)
    }

    /// The INIT-SIPI-SIPI sequence that starts the processor `apic_id` at
    /// `entry_point`.
    pub fn init_sipi_sipi_id(&self, apic_id: u32, entry_point: u32) -> (r: Result<
        Vec<RegisterWrite>,
        Error,
    >)
        requires
            entry_point & 0xfff0_0fff == 0,
        ensures
            r is Ok,
            r matches Ok(w) && w@ == icr_writes(self.mode, icr_value(init_command(apic_id), self.mode))
                + icr_writes(self.mode, icr_value(sipi_command(apic_id, entry_point), self.mode))
                + icr_writes(self.mode, icr_value(sipi_command(apic_id, entry_point), self.mode)),
    {
        let mut out = match self.init_id(apic_id) {
            Ok(w) => w,
            Err(e) => {
                return Err(e);
            },
        };
        let mut first = match self.sipi_id(apic_id, entry_point) {
            Ok(w) => w,
            Err(e) => {
                return Err(e);
            },
        };
        let mut second = match self.sipi_id(apic_id, entry_point) {
            Ok(w) => w,
            Err(e) => {
                return Err(e);
            },
        };
        out.append(&mut first);
        out.append(&mut second);
        Ok(out)
    }

    /// The INIT-SIPI-SIPI sequence that starts every other processor at
    /// `entry_point`.
    pub fn init_sipi_sipi_all(&self, entry_point: u32) -> (r: Vec<RegisterWrite>)
        requires
            entry_point & 0xfff0_0fff == 0,
        ensures
            r@ == icr_writes(self.mode, icr_value(init_all_command(), self.mode)) + icr_writes(
                self.mode,
                icr_value(sipi_all_command(entry_point), self.mode),
            ) + icr_writes(self.mode, icr_value(sipi_all_command(entry_point), self.mode)),
    {
        let mut out = self.init_all();
        let mut first = self.sipi_all(entry_point);
        let mut second = self.sipi_all(entry_point);
        out.append(&mut first);
        out.append(&mut second);
        out
    }

    /// Send an NMI to `apic_id`.
    pub fn nmi_id(&self, apic_id: u32) -> (r: Vec<RegisterWrite>)
        ensures
            r@ == icr_writes(self.mode, icr_value(nmi_command(apic_id), self.mode)),
    {
        let cmd = InterruptCommand::default().delivery_mode(DeliveryMode::NonMaskableInterrupt).level(
            Level::Assert,
        ).apic_id(apic_id);
        self.write_command_register(cmd)
    }

    /// Send an NMI to every other processor.
    pub fn _nmi_all(&self) -> (r: Vec<RegisterWrite>)
        ensures
            r@ == icr_writes(self.mode, icr_value(nmi_all_command(), self.mode)),
    {
        let cmd = InterruptCommand::default().delivery_mode(DeliveryMode::NonMaskableInterrupt).level(
            Level::Assert,
        ).destination_shorthand(DestinationShorthand::AllExcludingSelf);
        self.write_command_register(cmd)
    }

    /// Where to read the command register: the low and then the high half in
    /// xAPIC mode, the single 64-bit register in x2APIC mode.
    pub fn read_command_register(&self) -> (r: Vec<Access>)
        ensures
            r@ == match self.mode {
                Mode::Apic => seq![Access::Mmio(0xc0u32), Access::Mmio(0xc4u32)],
                Mode::X2Apic => seq![Access::Msr(0x830u32)],
            },
    {
        let mut out: Vec<Access> = Vec::new();
        match self.mode {
            Mode::Apic => {
                out.push(Access::Mmio(0xc0u32));
                out.push(Access::Mmio(0xc4u32));
            },
            Mode::X2Apic => {
                out.push(Access::Msr(0x830u32));
            },
        }
        assert(out@ =~= match self.mode {
            Mode::Apic => seq![Access::Mmio(0xc0u32), Access::Mmio(0xc4u32)],
            Mode::X2Apic => seq![Access::Msr(0x830u32)],
        });
        out
    }

    /// Stop the timer by zeroing its initial count.
    pub fn disable_timer(&self) -> (r: RegisterWrite)
        ensures
            r == write_of(self.mode, Register::TimerInitialCount, 0),
    {
        self.write(Register::TimerInitialCount, 0)
    }

    /// Set the timer's clock divider.
    pub fn set_timer_divide_config(&self, config: TimerDivideConfiguration) -> (r: RegisterWrite)
        ensures
            r == write_of(self.mode, Register::TimerDivideConfiguration, config.spec_bits() as u32),
    {
        self.write(Register::TimerDivideConfiguration, config.bits() as u32)
    }

    /// Make the timer periodic on `vector`.
    pub fn set_timer_periodic(&self, vector: u8) -> (r: RegisterWrite)
        ensures
            r == write_of(self.mode, Register::LvtTimer, (0x2_0000u32 | vector as u32)),
    {
        let mode_bits = (TimerMode::Periodic.bits() as u32) << 17u32;
        assert(mode_bits == 0x2_0000u32) by (bit_vector)
            requires
                mode_bits == (1u64 as u32) << 17u32,
        ;
        self.write(Register::LvtTimer, mode_bits | vector as u32)
    }

    /// Set the count the timer starts from.
    pub fn set_initial_timer_count(&self, count: u32) -> (r: RegisterWrite)
        ensures
            r == write_of(self.mode, Register::TimerInitialCount, count),
    {
        self.write(Register::TimerInitialCount, count)
    }

    /// Program a periodic timer on `vector`: stop it, divide the clock by two, set
    /// the periodic mode and the vector, then start it from 10 000 000.
    pub fn enable_timer(&self, vector: u8) -> (r: Vec<RegisterWrite>)
        ensures
            r@ == timer_writes(self.mode, vector),
    {
        let mut out: Vec<RegisterWrite> = Vec::new();
        out.push(self.disable_timer());
        out.push(self.set_timer_divide_config(TimerDivideConfiguration::DivideBy2));
        out.push(self.set_timer_periodic(vector));
        out.push(self.set_initial_timer_count(10_000_000));
        assert(out@ =~= timer_writes(self.mode, vector));
        out
    }

    /// The register writes of a soft reboot: stop the timer, restore every saved
    /// register, then disable the APIC through the spurious-interrupt register. The
    /// caller then restores `IA32_APIC_BASE`, drains pending interrupts and
    /// restores the PIC masks.
    pub fn reset(&self) -> (r: Vec<RegisterWrite>)
        ensures
            r@.len() >= 2,
            r@[0] == write_of(self.mode, Register::TimerInitialCount, 0),
            r@.last() == write_of(self.mode, Register::SpuriousInterruptVector, 0),
            r@.subrange(1, r@.len() - 1) == saved_writes(self.mode, self.original_state.registers@, 11),
    {
        let mut out: Vec<RegisterWrite> = Vec::new();
        out.push(self.disable_timer());
        let mut i: usize = 0;
        while i < 11
            invariant
                i <= 11,
                out@.len() >= 1,
                out@[0] == write_of(self.mode, Register::TimerInitialCount, 0),
                out@.subrange(1, out@.len() as int) == saved_writes(
                    self.mode,
                    self.original_state.registers@,
                    i as int,
                ),
            decreases 11 - i,
        {
            let ghost before = out@;
            match self.original_state.registers[i] {
                Some((reg, val)) => {
                    out.push(self.write(reg, val));
                    assert(out@.subrange(1, out@.len() as int) =~= before.subrange(
                        1,
                        before.len() as int,
                    ).push(write_of(self.mode, reg, val)));
                },
                None => {},
            }
            i += 1;
        }
        let ghost body = out@;
        out.push(self.write(Register::SpuriousInterruptVector, 0));
        assert(out@.subrange(1, out@.len() - 1) =~= body.subrange(1, body.len() as int));
        out
    }
}

/// The writes that restore the first `n` saved registers, skipping empty slots.
pub open spec fn saved_writes(mode: Mode, saved: Seq<Option<(Register, u32)>>, n: int) -> Seq<
    RegisterWrite,
>
    decreases n,
{
    if n <= 0 {
        Seq::empty()
    } else {
        let rest = saved_writes(mode, saved, n - 1);
        match saved[n - 1] {
            Some((reg, val)) => rest.push(write_of(mode, reg, val)),
            None => rest,
        }
    }
}

/// Rounds of end-of-interrupt a soft reboot tries before it gives up.
pub const EOI_DRAIN_ROUNDS: u32 = 100;

/// What a soft reboot does next while draining pending interrupts.
#[derive(Debug, Copy, Clone, PartialEq, Eq, Structural)]
pub enum DrainStep {
    /// Nothing is pending: go on with the reboot.
    Done,
    /// Send end-of-interrupt and look again.
    Eoi,
    /// Interrupts are still pending after every round: warn and go on.
    GiveUp,
}

impl Apic {
    /// The writes that finish bringing the APIC up: software-enable it with
    /// spurious interrupts on 0xff, then run a periodic timer on 0xcd.
    pub fn start_up(&self) -> (r: Vec<RegisterWrite>)
        ensures
            r@ == seq![write_of(self.mode, Register::SpuriousInterruptVector, 0x1ffu32)]
                + timer_writes(self.mode, 0xcd),
    {
        let mut out: Vec<RegisterWrite> = Vec::new();
        out.push(self.enable_spurious_interrupt(0xff));
        let mut timer = self.enable_timer(0xcd);
        assert((0x100u32 | 0xffu8 as u32) == 0x1ffu32) by (bit_vector);
        out.append(&mut timer);
        out
    }

    /// The next step of draining pending interrupts in round `round` (from zero),
    /// given the in-service and interrupt-request words just read.
    pub fn drain_step(&self, round: u32, in_service: [u32; 8], requests: [u32; 8]) -> (r: DrainStep)
        ensures
            r == if !exists|i: int| 0 <= i < 8 && (in_service@[i] != 0 || requests@[i] != 0) {
                DrainStep::Done
            } else if round >= EOI_DRAIN_ROUNDS {
                DrainStep::GiveUp
            } else {
                DrainStep::Eoi
            },
    {
        if !self.needs_eoi(in_service, requests) {
            DrainStep::Done
        } else if round >= EOI_DRAIN_ROUNDS {
            DrainStep::GiveUp
        } else {
            DrainStep::Eoi
        }
    }
}

} // verus!
