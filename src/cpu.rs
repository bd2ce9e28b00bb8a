//! x86-64 processor facts that the boot sequence decides on: CPUID feature
//! bits, the legacy PIC ports and the model-specific registers with their access
//! rights. Reading and writing them is left to the caller.
use vstd::prelude::*;

verus! {

/// Holder of the processor-level decisions.
pub struct X86Cpu;

/// Processor features reported by CPUID leaf 1, as bits of `(ecx << 32) | edx`.
#[derive(Debug, Clone, Copy, PartialEq, Eq, Structural)]
pub enum Feature {
    /// FPU: The processor contains an FPU that supports the Intel387 floating-point
    FloatingPointUnit,
    /// VME: The processor supports extensions to virtual-8086 mode.
    VirtualModeExtension,
    /// DE: The processor supports I/O breakpoints, including the CR4.DE bit for enabling
    DebugingExtension,
    /// PSE: The processor supports 4-Mbyte pages.
    PageSizeExtension,
    /// TSC: The RDTSC instruction is supported including the CR4.TSD bit for
    TimestampCounter,
    /// MSR: Model Specific Registers are implemented with the RDMSR, WRMSR instructions
    ModelSpecificRegisters,
    /// PAE: Physical addresses greater than 32 bits are supported.
    PhysicalAddressExtension,
    /// MCE: Machine Check Exception, Exception 18, and the CR4.MCE enable bit are
    MachineCheckException,
    /// CX8: The compare and exchange 8 bytes instruction is supported.
    CMPXCHG8B,
    /// APIC: The processor contains a software-accessible Local APIC.
    APIC,
    /// SEP: Indicates whether the processor supports the Fast System Call instructions,
    SysenterSysexit,
    /// MTRR: The Processor supports the Memory Type Range Registers specifically the
    MemoryTypeRangeRegisters,
    /// PGE: The global bit in the page directory entries (PDEs) and page table entries
    PageGlobalEnable,
    /// MCA: The Machine Check Architecture is supported, specifically the MCG_CAP
    MachineCheckArchitecture,
    /// CMOV: The processor supports CMOVcc, and if the FPU feature flag (bit 0) is also
    ConditionalMove,
    /// PAT: Indicates whether the processor supports the Page Attribute Table. This
    PageAttributeTable,
    /// PSE-36: Indicates whether the processor supports 4-Mbyte pages that are capable
    PageAddressExtension36bit,
    /// PSN: The processor supports the 96-bit processor serial number feature, and the
    ProcessorSerialNumber,
    /// CLFSH: Indicates that the processor supports the CLFLUSH instruction.
    CLFLUSH,
    /// DS: Indicates that the processor has the ability to write a history of the branch
    DebugStore,
    /// ACPI: The processor implements internal MSRs that allow processor temperature to
    ACPI,
    /// MMX: The processor supports the MMX technology instruction set extensions to Intel
    MMX,
    /// FXSR: Indicates whether the processor supports the FXSAVE and FXRSTOR instructions for
    FXSAVE,
    /// SSE: The processor supports the Streaming SIMD Extensions to the Intel Architecture.
    SSE,
    /// SSE2: Indicates the processor supports the Streaming SIMD Extensions - 2 Instructions.
    SSE2,
    /// SS: The processor supports the management of conflicting memory types by
    SelfSnoop,
    /// This processor’s microarchitecture has the capability to operate as multiple
    HyperThreading,
    /// TM: The processor implements the Thermal Monitor automatic thermal control
    ThermalMonitor,
    /// From OSDEV Wiki
    IA64,
    /// The processor supports the use of the FERR#/PBE# pin when the processor is in the
    PendingBreakEnable,
    /// SSE3: The processor supports the Streaming SIMD Extensions 3 instructions.
    SSE3,
    /// PCLMULDQ: The processor supports PCLMULDQ instruction.
    PCLMULDQ,
    /// DTES64: Indicates that the processor has the ability to write a history of the
    DebugStore64,
    /// MONITOR: The processor supports the MONITOR and MWAIT instructions.
    MONITOR,
    /// DS-CPL: The processor supports the extensions to the Debug Store feature to allow
    CplQualifiedDebugStore,
    /// VMX: The processor supports Intel® Virtualization Technology
    VirtualizationTechnology,
    /// SMX: The processor supports Intel® Trusted Execution Technology
    SaferModeExceptions,
    /// EST: The processor supports Enhanced Intel SpeedStep Technology and implements
    EnhancedSpeedStep,
    /// TM2: The processor implements the Thermal Monitor 2 thermal control circuit (TCC).
    ThermalMonitor2,
    /// SSSE3: The processor supports the Supplemental Streaming SIMD Extensions 3
    SSSE3,
    /// CNXT-ID: The L1 data cache mode can be set to either adaptive mode or shared mode
    ContextId,
    /// CX16: This processor supports the CMPXCHG16B instruction.
    CMPXCHG16B,
    /// xTPR: The processor supports the ability to disable sending Task Priority
    XTPRUpdateControl,
    /// PDCM: The processor supports the Performance Capabilities MSR.
    PerfMonDebug,
    /// DCA: The processor supports the ability to prefetch data from a memory mapped
    DirectCacheAccess,
    /// SSE4.1: The processor supports the Streaming SIMD Extensions 4.1 instructions.
    SSE41,
    /// SSE4.2: The processor supports the Streaming SIMD Extensions 4.2 instructions.
    SSE42,
    /// x2APIC: The processor supports x2APIC feature.
    X2Apic,
    /// MOVBE: The processor supports MOVBE instruction (endian swap).
    MOVBE,
    /// POPCNT: The processor supports the POPCNTinstruction.
    POPCNT,
    /// AES: The processor supports AES instruction.
    AES,
    /// XSAVE: The processor supports the XSAVE/XRSTOR processor extended states
    OSXSAVE,
    /// A value of 1 indicates that the OS has enabled XSETBV/XGETBV instructions to
    AdvancedVectorExtensions,
}

impl Feature {
    /// Bit of the feature in `(ecx << 32) | edx`.
    pub open spec fn spec_bit(self) -> nat {
        match self {
            Feature::FloatingPointUnit => 0,
            Feature::VirtualModeExtension => 1,
            Feature::DebugingExtension => 2,
            Feature::PageSizeExtension => 3,
            Feature::TimestampCounter => 4,
            Feature::ModelSpecificRegisters => 5,
            Feature::PhysicalAddressExtension => 6,
            Feature::MachineCheckException => 7,
            Feature::CMPXCHG8B => 8,
            Feature::APIC => 9,
            Feature::SysenterSysexit => 11,
            Feature::MemoryTypeRangeRegisters => 12,
            Feature::PageGlobalEnable => 13,
            Feature::MachineCheckArchitecture => 14,
            Feature::ConditionalMove => 15,
            Feature::PageAttributeTable => 16,
            Feature::PageAddressExtension36bit => 17,
            Feature::ProcessorSerialNumber => 18,
            Feature::CLFLUSH => 19,
            Feature::DebugStore => 21,
            Feature::ACPI => 22,
            Feature::MMX => 23,
            Feature::FXSAVE => 24,
            Feature::SSE => 25,
            Feature::SSE2 => 26,
            Feature::SelfSnoop => 27,
            Feature::HyperThreading => 28,
            Feature::ThermalMonitor => 29,
            Feature::IA64 => 30,
            Feature::PendingBreakEnable => 31,
            Feature::SSE3 => 32,
            Feature::PCLMULDQ => 33,
            Feature::DebugStore64 => 34,
            Feature::MONITOR => 35,
            Feature::CplQualifiedDebugStore => 36,
            Feature::VirtualizationTechnology => 37,
            Feature::SaferModeExceptions => 38,
            Feature::EnhancedSpeedStep => 39,
            Feature::ThermalMonitor2 => 40,
            Feature::SSSE3 => 41,
            Feature::ContextId => 42,
            Feature::CMPXCHG16B => 45,
            Feature::XTPRUpdateControl => 46,
            Feature::PerfMonDebug => 47,
            Feature::DirectCacheAccess => 50,
            Feature::SSE41 => 51,
            Feature::SSE42 => 52,
            Feature::X2Apic => 53,
            Feature::MOVBE => 44,
            Feature::POPCNT => 55,
            Feature::AES => 57,
            Feature::OSXSAVE => 59,
            Feature::AdvancedVectorExtensions => 60,
        }
    }

    /// Mask of the feature in `(ecx << 32) | edx`.
    pub fn mask(self) -> (r: u64)
        ensures
            r == pow2_64(self.spec_bit()),
    {
        let bit: u64 = match self {
            Feature::FloatingPointUnit => 0,
            Feature::VirtualModeExtension => 1,
            Feature::DebugingExtension => 2,
            Feature::PageSizeExtension => 3,
            Feature::TimestampCounter => 4,
            Feature::ModelSpecificRegisters => 5,
            Feature::PhysicalAddressExtension => 6,
            Feature::MachineCheckException => 7,
            Feature::CMPXCHG8B => 8,
            Feature::APIC => 9,
            Feature::SysenterSysexit => 11,
            Feature::MemoryTypeRangeRegisters => 12,
            Feature::PageGlobalEnable => 13,
            Feature::MachineCheckArchitecture => 14,
            Feature::ConditionalMove => 15,
            Feature::PageAttributeTable => 16,
            Feature::PageAddressExtension36bit => 17,
            Feature::ProcessorSerialNumber => 18,
            Feature::CLFLUSH => 19,
            Feature::DebugStore => 21,
            Feature::ACPI => 22,
            Feature::MMX => 23,
            Feature::FXSAVE => 24,
            Feature::SSE => 25,
            Feature::SSE2 => 26,
            Feature::SelfSnoop => 27,
            Feature::HyperThreading => 28,
            Feature::ThermalMonitor => 29,
            Feature::IA64 => 30,
            Feature::PendingBreakEnable => 31,
            Feature::SSE3 => 32,
            Feature::PCLMULDQ => 33,
            Feature::DebugStore64 => 34,
            Feature::MONITOR => 35,
            Feature::CplQualifiedDebugStore => 36,
            Feature::VirtualizationTechnology => 37,
            Feature::SaferModeExceptions => 38,
            Feature::EnhancedSpeedStep => 39,
            Feature::ThermalMonitor2 => 40,
            Feature::SSSE3 => 41,
            Feature::ContextId => 42,
            Feature::CMPXCHG16B => 45,
            Feature::XTPRUpdateControl => 46,
            Feature::PerfMonDebug => 47,
            Feature::DirectCacheAccess => 50,
            Feature::SSE41 => 51,
            Feature::SSE42 => 52,
            Feature::X2Apic => 53,
            Feature::MOVBE => 44,
            Feature::POPCNT => 55,
            Feature::AES => 57,
            Feature::OSXSAVE => 59,
            Feature::AdvancedVectorExtensions => 60,
        };
        proof {
            lemma_shift_is_pow2(bit);
        }
        1u64 << bit
    }
}

/// `2^k` as a 64-bit value, for `k < 64`.
pub open spec fn pow2_64(k: nat) -> u64 {
    vstd::arithmetic::power2::pow2(k) as u64
}

proof fn lemma_shift_is_pow2(bit: u64)
    requires
        bit < 64,
    ensures
        1u64 << bit == pow2_64(bit as nat),
{
    vstd::arithmetic::power2::lemma_pow2_pos(bit as nat);
    vstd::arithmetic::power2::lemma2_to64();
    vstd::arithmetic::power2::lemma_pow2_strictly_increases(bit as nat, 64);
    vstd::bits::lemma_u64_shl_is_mul(1, bit);
}

impl X86Cpu {
    /// Whether the CPUID feature word `feature_information` reports `feature`.
    pub fn has_feature(feature_information: u64, feature: Feature) -> (r: bool)
        ensures
            r == (feature_information & pow2_64(feature.spec_bit()) != 0),
    {
        feature_information & feature.mask() != 0
    }
}

/// I/O ports of the legacy PIC interrupt masks.
#[derive(Debug, Clone, Copy, PartialEq, Eq, Structural)]
pub enum IoPort {
    /// Interrupt mask of the primary PIC.
    PrimaryPicInterruptMask,
    /// Interrupt mask of the secondary PIC.
    SecondaryPicInterruptMask,
}

impl IoPort {
    /// The port number.
    pub fn port(self) -> (r: u16)
        ensures
            r == match self {
                IoPort::PrimaryPicInterruptMask => 0x21u16,
                IoPort::SecondaryPicInterruptMask => 0xa1u16,
            },
    {
        match self {
            IoPort::PrimaryPicInterruptMask => 0x21,
            IoPort::SecondaryPicInterruptMask => 0xa1,
        }
    }
}

/// Model-specific registers the boot sequence knows.
#[derive(Debug, Copy, Clone, PartialEq, Eq, Structural)]
pub enum Msr {
    ApicBase,
    FeatureControl,
    AnyInstructionRetired,
    FixedCounterControl,
    PerfGlobalControl,
    VmxBasic,
    VmxPinBasedControls,
    VmxProcBasedControls,
    VmxExitControls,
    VmxEntryControls,
    VmxMisc,
    VmxCr0Fixed0,
    VmxCr0Fixed1,
    VmxCr4Fixed0,
    VmxCr4Fixed1,
    VmxProcBasedControls2,
    VmxTruePinBasedControls,
    VmxTrueProcBasedControls,
    VmxTrueExitControls,
    VmxTrueEntryControls,
    X2apicApicid,
    X2apicVersion,
    X2apicTpr,
    X2apicPpr,
    X2apicEoi,
    X2apicLdr,
    X2apicSivr,
    X2apicIsr0,
    X2apicIsr1,
    X2apicIsr2,
    X2apicIsr3,
    X2apicIsr4,
    X2apicIsr5,
    X2apicIsr6,
    X2apicIsr7,
    X2apicTmr0,
    X2apicTmr1,
    X2apicTmr2,
    X2apicTmr3,
    X2apicTmr4,
    X2apicTmr5,
    X2apicTmr6,
    X2apicTmr7,
    X2apicIrr0,
    X2apicIrr1,
    X2apicIrr2,
    X2apicIrr3,
    X2apicIrr4,
    X2apicIrr5,
    X2apicIrr6,
    X2apicIrr7,
    X2apicEsr,
    X2apicLvtCmci,
    X2apicIcr,
    X2apicLvtTimer,
    X2apicLvtThermal,
    X2apicLvtPmi,
    X2apicLvtLint0,
    X2apicLvtLint1,
    X2apicLvtError,
    X2apicInitCount,
    X2apicCurCount,
    X2apicDivConf,
    X2apicSelfIpi,
    Efer,
    Star,
    Lstar,
    Cstar,
    SfMask,
    FsBase,
    GsBase,
    KernelGsBase,
    TscAux,
}

/// Whether a model-specific register can be read, written, or both.
#[derive(Debug, Copy, Clone, PartialEq, Eq, Structural)]
pub enum Permission {
    ReadOnly,
    ReadWrite,
    WriteOnly,
}

impl Msr {
    /// The register's number.
    pub open spec fn spec_number(self) -> u32 {
        match self {
            Msr::ApicBase => 0x1b,
            Msr::FeatureControl => 0x3a,
            Msr::AnyInstructionRetired => 0x309,
            Msr::FixedCounterControl => 0x38d,
            Msr::PerfGlobalControl => 0x38f,
            Msr::VmxBasic => 0x480,
            Msr::VmxPinBasedControls => 0x481,
            Msr::VmxProcBasedControls => 0x482,
            Msr::VmxExitControls => 0x483,
            Msr::VmxEntryControls => 0x484,
            Msr::VmxMisc => 0x485,
            Msr::VmxCr0Fixed0 => 0x486,
            Msr::VmxCr0Fixed1 => 0x487,
            Msr::VmxCr4Fixed0 => 0x488,
            Msr::VmxCr4Fixed1 => 0x489,
            Msr::VmxProcBasedControls2 => 0x48b,
            Msr::VmxTruePinBasedControls => 0x48d,
            Msr::VmxTrueProcBasedControls => 0x48e,
            Msr::VmxTrueExitControls => 0x48f,
            Msr::VmxTrueEntryControls => 0x490,
            Msr::X2apicApicid => 0x802,
            Msr::X2apicVersion => 0x803,
            Msr::X2apicTpr => 0x808,
            Msr::X2apicPpr => 0x80a,
            Msr::X2apicEoi => 0x80b,
            Msr::X2apicLdr => 0x80d,
            Msr::X2apicSivr => 0x80f,
            Msr::X2apicIsr0 => 0x810,
            Msr::X2apicIsr1 => 0x811,
            Msr::X2apicIsr2 => 0x812,
            Msr::X2apicIsr3 => 0x813,
            Msr::X2apicIsr4 => 0x814,
            Msr::X2apicIsr5 => 0x815,
            Msr::X2apicIsr6 => 0x816,
            Msr::X2apicIsr7 => 0x817,
            Msr::X2apicTmr0 => 0x818,
            Msr::X2apicTmr1 => 0x819,
            Msr::X2apicTmr2 => 0x81a,
            Msr::X2apicTmr3 => 0x81b,
            Msr::X2apicTmr4 => 0x81c,
            Msr::X2apicTmr5 => 0x81d,
            Msr::X2apicTmr6 => 0x81e,
            Msr::X2apicTmr7 => 0x81f,
            Msr::X2apicIrr0 => 0x820,
            Msr::X2apicIrr1 => 0x821,
            Msr::X2apicIrr2 => 0x822,
            Msr::X2apicIrr3 => 0x823,
            Msr::X2apicIrr4 => 0x824,
            Msr::X2apicIrr5 => 0x825,
            Msr::X2apicIrr6 => 0x826,
            Msr::X2apicIrr7 => 0x827,
            Msr::X2apicEsr => 0x828,
            Msr::X2apicLvtCmci => 0x82f,
            Msr::X2apicIcr => 0x830,
            Msr::X2apicLvtTimer => 0x832,
            Msr::X2apicLvtThermal => 0x833,
            Msr::X2apicLvtPmi => 0x834,
            Msr::X2apicLvtLint0 => 0x835,
            Msr::X2apicLvtLint1 => 0x836,
            Msr::X2apicLvtError => 0x837,
            Msr::X2apicInitCount => 0x838,
            Msr::X2apicCurCount => 0x839,
            Msr::X2apicDivConf => 0x83e,
            Msr::X2apicSelfIpi => 0x83f,
            Msr::Efer => 0xc000_0080,
            Msr::Star => 0xc000_0081,
            Msr::Lstar => 0xc000_0082,
            Msr::Cstar => 0xc000_0083,
            Msr::SfMask => 0xc000_0084,
            Msr::FsBase => 0xc000_0100,
            Msr::GsBase => 0xc000_0101,
            Msr::KernelGsBase => 0xc000_0102,
            Msr::TscAux => 0xc000_0103,
        }
    }

    /// The register's number.
    pub fn number(self) -> (r: u32)
        ensures
            r == self.spec_number(),
    {
        match self {
            Msr::ApicBase => 0x1b,
            Msr::FeatureControl => 0x3a,
            Msr::AnyInstructionRetired => 0x309,
            Msr::FixedCounterControl => 0x38d,
            Msr::PerfGlobalControl => 0x38f,
            Msr::VmxBasic => 0x480,
            Msr::VmxPinBasedControls => 0x481,
            Msr::VmxProcBasedControls => 0x482,
            Msr::VmxExitControls => 0x483,
            Msr::VmxEntryControls => 0x484,
            Msr::VmxMisc => 0x485,
            Msr::VmxCr0Fixed0 => 0x486,
            Msr::VmxCr0Fixed1 => 0x487,
            Msr::VmxCr4Fixed0 => 0x488,
            Msr::VmxCr4Fixed1 => 0x489,
            Msr::VmxProcBasedControls2 => 0x48b,
            Msr::VmxTruePinBasedControls => 0x48d,
            Msr::VmxTrueProcBasedControls => 0x48e,
            Msr::VmxTrueExitControls => 0x48f,
            Msr::VmxTrueEntryControls => 0x490,
            Msr::X2apicApicid => 0x802,
            Msr::X2apicVersion => 0x803,
            Msr::X2apicTpr => 0x808,
            Msr::X2apicPpr => 0x80a,
            Msr::X2apicEoi => 0x80b,
            Msr::X2apicLdr => 0x80d,
            Msr::X2apicSivr => 0x80f,
            Msr::X2apicIsr0 => 0x810,
            Msr::X2apicIsr1 => 0x811,
            Msr::X2apicIsr2 => 0x812,
            Msr::X2apicIsr3 => 0x813,
            Msr::X2apicIsr4 => 0x814,
            Msr::X2apicIsr5 => 0x815,
            Msr::X2apicIsr6 => 0x816,
            Msr::X2apicIsr7 => 0x817,
            Msr::X2apicTmr0 => 0x818,
            Msr::X2apicTmr1 => 0x819,
            Msr::X2apicTmr2 => 0x81a,
            Msr::X2apicTmr3 => 0x81b,
            Msr::X2apicTmr4 => 0x81c,
            Msr::X2apicTmr5 => 0x81d,
            Msr::X2apicTmr6 => 0x81e,
            Msr::X2apicTmr7 => 0x81f,
            Msr::X2apicIrr0 => 0x820,
            Msr::X2apicIrr1 => 0x821,
            Msr::X2apicIrr2 => 0x822,
            Msr::X2apicIrr3 => 0x823,
            Msr::X2apicIrr4 => 0x824,
            Msr::X2apicIrr5 => 0x825,
            Msr::X2apicIrr6 => 0x826,
            Msr::X2apicIrr7 => 0x827,
            Msr::X2apicEsr => 0x828,
            Msr::X2apicLvtCmci => 0x82f,
            Msr::X2apicIcr => 0x830,
            Msr::X2apicLvtTimer => 0x832,
            Msr::X2apicLvtThermal => 0x833,
            Msr::X2apicLvtPmi => 0x834,
            Msr::X2apicLvtLint0 => 0x835,
            Msr::X2apicLvtLint1 => 0x836,
            Msr::X2apicLvtError => 0x837,
            Msr::X2apicInitCount => 0x838,
            Msr::X2apicCurCount => 0x839,
            Msr::X2apicDivConf => 0x83e,
            Msr::X2apicSelfIpi => 0x83f,
            Msr::Efer => 0xc000_0080,
            Msr::Star => 0xc000_0081,
            Msr::Lstar => 0xc000_0082,
            Msr::Cstar => 0xc000_0083,
            Msr::SfMask => 0xc000_0084,
            Msr::FsBase => 0xc000_0100,
            Msr::GsBase => 0xc000_0101,
            Msr::KernelGsBase => 0xc000_0102,
            Msr::TscAux => 0xc000_0103,
        }
    }

    /// The register numbered `msr`, if it is one of these.
    pub open spec fn spec_from_number(msr: u32) -> Option<Msr> {
        if msr == 0x1b {
            Some(Msr::ApicBase)
        } else if msr == 0x3a {
            Some(Msr::FeatureControl)
        } else if msr == 0x309 {
            Some(Msr::AnyInstructionRetired)
        } else if msr == 0x38d {
            Some(Msr::FixedCounterControl)
        } else if msr == 0x38f {
            Some(Msr::PerfGlobalControl)
        } else if msr == 0x480 {
            Some(Msr::VmxBasic)
        } else if msr == 0x481 {
            Some(Msr::VmxPinBasedControls)
        } else if msr == 0x482 {
            Some(Msr::VmxProcBasedControls)
        } else if msr == 0x483 {
            Some(Msr::VmxExitControls)
        } else if msr == 0x484 {
            Some(Msr::VmxEntryControls)
        } else if msr == 0x485 {
            Some(Msr::VmxMisc)
        } else if msr == 0x486 {
            Some(Msr::VmxCr0Fixed0)
        } else if msr == 0x487 {
            Some(Msr::VmxCr0Fixed1)
        } else if msr == 0x488 {
            Some(Msr::VmxCr4Fixed0)
        } else if msr == 0x489 {
            Some(Msr::VmxCr4Fixed1)
        } else if msr == 0x48b {
            Some(Msr::VmxProcBasedControls2)
        } else if msr == 0x48d {
            Some(Msr::VmxTruePinBasedControls)
        } else if msr == 0x48e {
            Some(Msr::VmxTrueProcBasedControls)
        } else if msr == 0x48f {
            Some(Msr::VmxTrueExitControls)
        } else if msr == 0x490 {
            Some(Msr::VmxTrueEntryControls)
        } else if msr == 0x802 {
            Some(Msr::X2apicApicid)
        } else if msr == 0x803 {
            Some(Msr::X2apicVersion)
        } else if msr == 0x808 {
            Some(Msr::X2apicTpr)
        } else if msr == 0x80a {
            Some(Msr::X2apicPpr)
        } else if msr == 0x80b {
            Some(Msr::X2apicEoi)
        } else if msr == 0x80d {
            Some(Msr::X2apicLdr)
        } else if msr == 0x80f {
            Some(Msr::X2apicSivr)
        } else if msr == 0x810 {
            Some(Msr::X2apicIsr0)
        } else if msr == 0x811 {
            Some(Msr::X2apicIsr1)
        } else if msr == 0x812 {
            Some(Msr::X2apicIsr2)
        } else if msr == 0x813 {
            Some(Msr::X2apicIsr3)
        } else if msr == 0x814 {
            Some(Msr::X2apicIsr4)
        } else if msr == 0x815 {
            Some(Msr::X2apicIsr5)
        } else if msr == 0x816 {
            Some(Msr::X2apicIsr6)
        } else if msr == 0x817 {
            Some(Msr::X2apicIsr7)
        } else if msr == 0x818 {
            Some(Msr::X2apicTmr0)
        } else if msr == 0x819 {
            Some(Msr::X2apicTmr1)
        } else if msr == 0x81a {
            Some(Msr::X2apicTmr2)
        } else if msr == 0x81b {
            Some(Msr::X2apicTmr3)
        } else if msr == 0x81c {
            Some(Msr::X2apicTmr4)
        } else if msr == 0x81d {
            Some(Msr::X2apicTmr5)
        } else if msr == 0x81e {
            Some(Msr::X2apicTmr6)
        } else if msr == 0x81f {
            Some(Msr::X2apicTmr7)
        } else if msr == 0x820 {
            Some(Msr::X2apicIrr0)
        } else if msr == 0x821 {
            Some(Msr::X2apicIrr1)
        } else if msr == 0x822 {
            Some(Msr::X2apicIrr2)
        } else if msr == 0x823 {
            Some(Msr::X2apicIrr3)
        } else if msr == 0x824 {
            Some(Msr::X2apicIrr4)
        } else if msr == 0x825 {
            Some(Msr::X2apicIrr5)
        } else if msr == 0x826 {
            Some(Msr::X2apicIrr6)
        } else if msr == 0x827 {
            Some(Msr::X2apicIrr7)
        } else if msr == 0x828 {
            Some(Msr::X2apicEsr)
        } else if msr == 0x82f {
            Some(Msr::X2apicLvtCmci)
        } else if msr == 0x830 {
            Some(Msr::X2apicIcr)
        } else if msr == 0x832 {
            Some(Msr::X2apicLvtTimer)
        } else if msr == 0x833 {
            Some(Msr::X2apicLvtThermal)
        } else if msr == 0x834 {
            Some(Msr::X2apicLvtPmi)
        } else if msr == 0x835 {
            Some(Msr::X2apicLvtLint0)
        } else if msr == 0x836 {
            Some(Msr::X2apicLvtLint1)
        } else if msr == 0x837 {
            Some(Msr::X2apicLvtError)
        } else if msr == 0x838 {
            Some(Msr::X2apicInitCount)
        } else if msr == 0x839 {
            Some(Msr::X2apicCurCount)
        } else if msr == 0x83e {
            Some(Msr::X2apicDivConf)
        } else if msr == 0x83f {
            Some(Msr::X2apicSelfIpi)
        } else if msr == 0xc000_0080 {
            Some(Msr::Efer)
        } else if msr == 0xc000_0081 {
            Some(Msr::Star)
        } else if msr == 0xc000_0082 {
            Some(Msr::Lstar)
        } else if msr == 0xc000_0083 {
            Some(Msr::Cstar)
        } else if msr == 0xc000_0084 {
            Some(Msr::SfMask)
        } else if msr == 0xc000_0100 {
            Some(Msr::FsBase)
        } else if msr == 0xc000_0101 {
            Some(Msr::GsBase)
        } else if msr == 0xc000_0102 {
            Some(Msr::KernelGsBase)
        } else if msr == 0xc000_0103 {
            Some(Msr::TscAux)
        } else {
            None
        }
    }

    /// The register numbered `msr`, if it is one of these.
    pub fn from_number(msr: u32) -> (r: Option<Msr>)
        ensures
            r == Msr::spec_from_number(msr),
            r matches Some(m) ==> m.spec_number() == msr,
    {
        match msr {
            0x1b => Some(Msr::ApicBase),
            0x3a => Some(Msr::FeatureControl),
            0x309 => Some(Msr::AnyInstructionRetired),
            0x38d => Some(Msr::FixedCounterControl),
            0x38f => Some(Msr::PerfGlobalControl),
            0x480 => Some(Msr::VmxBasic),
            0x481 => Some(Msr::VmxPinBasedControls),
            0x482 => Some(Msr::VmxProcBasedControls),
            0x483 => Some(Msr::VmxExitControls),
            0x484 => Some(Msr::VmxEntryControls),
            0x485 => Some(Msr::VmxMisc),
            0x486 => Some(Msr::VmxCr0Fixed0),
            0x487 => Some(Msr::VmxCr0Fixed1),
            0x488 => Some(Msr::VmxCr4Fixed0),
            0x489 => Some(Msr::VmxCr4Fixed1),
            0x48b => Some(Msr::VmxProcBasedControls2),
            0x48d => Some(Msr::VmxTruePinBasedControls),
            0x48e => Some(Msr::VmxTrueProcBasedControls),
            0x48f => Some(Msr::VmxTrueExitControls),
            0x490 => Some(Msr::VmxTrueEntryControls),
            0x802 => Some(Msr::X2apicApicid),
            0x803 => Some(Msr::X2apicVersion),
            0x808 => Some(Msr::X2apicTpr),
            0x80a => Some(Msr::X2apicPpr),
            0x80b => Some(Msr::X2apicEoi),
            0x80d => Some(Msr::X2apicLdr),
            0x80f => Some(Msr::X2apicSivr),
            0x810 => Some(Msr::X2apicIsr0),
            0x811 => Some(Msr::X2apicIsr1),
            0x812 => Some(Msr::X2apicIsr2),
            0x813 => Some(Msr::X2apicIsr3),
            0x814 => Some(Msr::X2apicIsr4),
            0x815 => Some(Msr::X2apicIsr5),
            0x816 => Some(Msr::X2apicIsr6),
            0x817 => Some(Msr::X2apicIsr7),
            0x818 => Some(Msr::X2apicTmr0),
            0x819 => Some(Msr::X2apicTmr1),
            0x81a => Some(Msr::X2apicTmr2),
            0x81b => Some(Msr::X2apicTmr3),
            0x81c => Some(Msr::X2apicTmr4),
            0x81d => Some(Msr::X2apicTmr5),
            0x81e => Some(Msr::X2apicTmr6),
            0x81f => Some(Msr::X2apicTmr7),
            0x820 => Some(Msr::X2apicIrr0),
            0x821 => Some(Msr::X2apicIrr1),
            0x822 => Some(Msr::X2apicIrr2),
            0x823 => Some(Msr::X2apicIrr3),
            0x824 => Some(Msr::X2apicIrr4),
            0x825 => Some(Msr::X2apicIrr5),
            0x826 => Some(Msr::X2apicIrr6),
            0x827 => Some(Msr::X2apicIrr7),
            0x828 => Some(Msr::X2apicEsr),
            0x82f => Some(Msr::X2apicLvtCmci),
            0x830 => Some(Msr::X2apicIcr),
            0x832 => Some(Msr::X2apicLvtTimer),
            0x833 => Some(Msr::X2apicLvtThermal),
            0x834 => Some(Msr::X2apicLvtPmi),
            0x835 => Some(Msr::X2apicLvtLint0),
            0x836 => Some(Msr::X2apicLvtLint1),
            0x837 => Some(Msr::X2apicLvtError),
            0x838 => Some(Msr::X2apicInitCount),
            0x839 => Some(Msr::X2apicCurCount),
            0x83e => Some(Msr::X2apicDivConf),
            0x83f => Some(Msr::X2apicSelfIpi),
            0xc000_0080 => Some(Msr::Efer),
            0xc000_0081 => Some(Msr::Star),
            0xc000_0082 => Some(Msr::Lstar),
            0xc000_0083 => Some(Msr::Cstar),
            0xc000_0084 => Some(Msr::SfMask),
            0xc000_0100 => Some(Msr::FsBase),
            0xc000_0101 => Some(Msr::GsBase),
            0xc000_0102 => Some(Msr::KernelGsBase),
            0xc000_0103 => Some(Msr::TscAux),
            _ => None,
        }
    }

    /// Whether the register can be read, written, or both.
    pub open spec fn spec_permissions(self) -> Permission {
        match self {
            Msr::ApicBase => Permission::ReadWrite,
            Msr::FeatureControl => Permission::ReadWrite,
            Msr::AnyInstructionRetired => Permission::ReadWrite,
            Msr::FixedCounterControl => Permission::ReadWrite,
            Msr::PerfGlobalControl => Permission::ReadWrite,
            Msr::VmxBasic => Permission::ReadOnly,
            Msr::VmxPinBasedControls => Permission::ReadOnly,
            Msr::VmxProcBasedControls => Permission::ReadOnly,
            Msr::VmxExitControls => Permission::ReadOnly,
            Msr::VmxEntryControls => Permission::ReadOnly,
            Msr::VmxMisc => Permission::ReadOnly,
            Msr::VmxCr0Fixed0 => Permission::ReadOnly,
            Msr::VmxCr0Fixed1 => Permission::ReadOnly,
            Msr::VmxCr4Fixed0 => Permission::ReadOnly,
            Msr::VmxCr4Fixed1 => Permission::ReadOnly,
            Msr::VmxProcBasedControls2 => Permission::ReadOnly,
            Msr::VmxTruePinBasedControls => Permission::ReadOnly,
            Msr::VmxTrueProcBasedControls => Permission::ReadOnly,
            Msr::VmxTrueExitControls => Permission::ReadOnly,
            Msr::VmxTrueEntryControls => Permission::ReadOnly,
            Msr::X2apicApicid => Permission::ReadOnly,
            Msr::X2apicVersion => Permission::ReadOnly,
            Msr::X2apicTpr => Permission::ReadWrite,
            Msr::X2apicPpr => Permission::ReadOnly,
            Msr::X2apicEoi => Permission::WriteOnly,
            Msr::X2apicLdr => Permission::ReadOnly,
            Msr::X2apicSivr => Permission::ReadWrite,
            Msr::X2apicIsr0 => Permission::ReadOnly,
            Msr::X2apicIsr1 => Permission::ReadOnly,
            Msr::X2apicIsr2 => Permission::ReadOnly,
            Msr::X2apicIsr3 => Permission::ReadOnly,
            Msr::X2apicIsr4 => Permission::ReadOnly,
            Msr::X2apicIsr5 => Permission::ReadOnly,
            Msr::X2apicIsr6 => Permission::ReadOnly,
            Msr::X2apicIsr7 => Permission::ReadOnly,
            Msr::X2apicTmr0 => Permission::ReadOnly,
            Msr::X2apicTmr1 => Permission::ReadOnly,
            Msr::X2apicTmr2 => Permission::ReadOnly,
            Msr::X2apicTmr3 => Permission::ReadOnly,
            Msr::X2apicTmr4 => Permission::ReadOnly,
            Msr::X2apicTmr5 => Permission::ReadOnly,
            Msr::X2apicTmr6 => Permission::ReadOnly,
            Msr::X2apicTmr7 => Permission::ReadOnly,
            Msr::X2apicIrr0 => Permission::ReadOnly,
            Msr::X2apicIrr1 => Permission::ReadOnly,
            Msr::X2apicIrr2 => Permission::ReadOnly,
            Msr::X2apicIrr3 => Permission::ReadOnly,
            Msr::X2apicIrr4 => Permission::ReadOnly,
            Msr::X2apicIrr5 => Permission::ReadOnly,
            Msr::X2apicIrr6 => Permission::ReadOnly,
            Msr::X2apicIrr7 => Permission::ReadOnly,
            Msr::X2apicEsr => Permission::ReadWrite,
            Msr::X2apicLvtCmci => Permission::ReadWrite,
            Msr::X2apicIcr => Permission::ReadWrite,
            Msr::X2apicLvtTimer => Permission::ReadWrite,
            Msr::X2apicLvtThermal => Permission::ReadWrite,
            Msr::X2apicLvtPmi => Permission::ReadWrite,
            Msr::X2apicLvtLint0 => Permission::ReadWrite,
            Msr::X2apicLvtLint1 => Permission::ReadWrite,
            Msr::X2apicLvtError => Permission::ReadWrite,
            Msr::X2apicInitCount => Permission::ReadWrite,
            Msr::X2apicCurCount => Permission::ReadOnly,
            Msr::X2apicDivConf => Permission::ReadWrite,
            Msr::X2apicSelfIpi => Permission::WriteOnly,
            Msr::Efer => Permission::ReadWrite,
            Msr::Star => Permission::ReadWrite,
            Msr::Lstar => Permission::ReadWrite,
            Msr::Cstar => Permission::ReadWrite,
            Msr::SfMask => Permission::ReadWrite,
            Msr::FsBase => Permission::ReadWrite,
            Msr::GsBase => Permission::ReadWrite,
            Msr::KernelGsBase => Permission::ReadWrite,
            Msr::TscAux => Permission::ReadWrite,
        }
    }

    /// Whether the register can be read, written, or both.
    pub fn permissions(&self) -> (r: Permission)
        ensures
            r == self.spec_permissions(),
    {
        match self {
            Msr::ApicBase => Permission::ReadWrite,
            Msr::FeatureControl => Permission::ReadWrite,
            Msr::AnyInstructionRetired => Permission::ReadWrite,
            Msr::FixedCounterControl => Permission::ReadWrite,
            Msr::PerfGlobalControl => Permission::ReadWrite,
            Msr::VmxBasic => Permission::ReadOnly,
            Msr::VmxPinBasedControls => Permission::ReadOnly,
            Msr::VmxProcBasedControls => Permission::ReadOnly,
            Msr::VmxExitControls => Permission::ReadOnly,
            Msr::VmxEntryControls => Permission::ReadOnly,
            Msr::VmxMisc => Permission::ReadOnly,
            Msr::VmxCr0Fixed0 => Permission::ReadOnly,
            Msr::VmxCr0Fixed1 => Permission::ReadOnly,
            Msr::VmxCr4Fixed0 => Permission::ReadOnly,
            Msr::VmxCr4Fixed1 => Permission::ReadOnly,
            Msr::VmxProcBasedControls2 => Permission::ReadOnly,
            Msr::VmxTruePinBasedControls => Permission::ReadOnly,
            Msr::VmxTrueProcBasedControls => Permission::ReadOnly,
            Msr::VmxTrueExitControls => Permission::ReadOnly,
            Msr::VmxTrueEntryControls => Permission::ReadOnly,
            Msr::X2apicApicid => Permission::ReadOnly,
            Msr::X2apicVersion => Permission::ReadOnly,
            Msr::X2apicTpr => Permission::ReadWrite,
            Msr::X2apicPpr => Permission::ReadOnly,
            Msr::X2apicEoi => Permission::WriteOnly,
            Msr::X2apicLdr => Permission::ReadOnly,
            Msr::X2apicSivr => Permission::ReadWrite,
            Msr::X2apicIsr0 => Permission::ReadOnly,
            Msr::X2apicIsr1 => Permission::ReadOnly,
            Msr::X2apicIsr2 => Permission::ReadOnly,
            Msr::X2apicIsr3 => Permission::ReadOnly,
            Msr::X2apicIsr4 => Permission::ReadOnly,
            Msr::X2apicIsr5 => Permission::ReadOnly,
            Msr::X2apicIsr6 => Permission::ReadOnly,
            Msr::X2apicIsr7 => Permission::ReadOnly,
            Msr::X2apicTmr0 => Permission::ReadOnly,
            Msr::X2apicTmr1 => Permission::ReadOnly,
            Msr::X2apicTmr2 => Permission::ReadOnly,
            Msr::X2apicTmr3 => Permission::ReadOnly,
            Msr::X2apicTmr4 => Permission::ReadOnly,
            Msr::X2apicTmr5 => Permission::ReadOnly,
            Msr::X2apicTmr6 => Permission::ReadOnly,
            Msr::X2apicTmr7 => Permission::ReadOnly,
            Msr::X2apicIrr0 => Permission::ReadOnly,
            Msr::X2apicIrr1 => Permission::ReadOnly,
            Msr::X2apicIrr2 => Permission::ReadOnly,
            Msr::X2apicIrr3 => Permission::ReadOnly,
            Msr::X2apicIrr4 => Permission::ReadOnly,
            Msr::X2apicIrr5 => Permission::ReadOnly,
            Msr::X2apicIrr6 => Permission::ReadOnly,
            Msr::X2apicIrr7 => Permission::ReadOnly,
            Msr::X2apicEsr => Permission::ReadWrite,
            Msr::X2apicLvtCmci => Permission::ReadWrite,
            Msr::X2apicIcr => Permission::ReadWrite,
            Msr::X2apicLvtTimer => Permission::ReadWrite,
            Msr::X2apicLvtThermal => Permission::ReadWrite,
            Msr::X2apicLvtPmi => Permission::ReadWrite,
            Msr::X2apicLvtLint0 => Permission::ReadWrite,
            Msr::X2apicLvtLint1 => Permission::ReadWrite,
            Msr::X2apicLvtError => Permission::ReadWrite,
            Msr::X2apicInitCount => Permission::ReadWrite,
            Msr::X2apicCurCount => Permission::ReadOnly,
            Msr::X2apicDivConf => Permission::ReadWrite,
            Msr::X2apicSelfIpi => Permission::WriteOnly,
            Msr::Efer => Permission::ReadWrite,
            Msr::Star => Permission::ReadWrite,
            Msr::Lstar => Permission::ReadWrite,
            Msr::Cstar => Permission::ReadWrite,
            Msr::SfMask => Permission::ReadWrite,
            Msr::FsBase => Permission::ReadWrite,
            Msr::GsBase => Permission::ReadWrite,
            Msr::KernelGsBase => Permission::ReadWrite,
            Msr::TscAux => Permission::ReadWrite,
        }
    }
}

} // verus!
